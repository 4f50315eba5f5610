//! Who may write: caller identities and the authorization policy.
//!
//! Every write is decided on its own, from the caller and the key. A policy
//! owns no part of the store and cannot change it.

use vstd::prelude::*;
use crate::aggregate::{AggregatedKey, KeyModel};

verus! {

/// The account of a signed caller.
pub type AccountId = u128;

/// Who asks for a write.
#[derive(Clone, Copy, Debug, PartialEq, Eq, Structural)]
pub enum Origin {
    /// The privileged administrator.
    Root,
    /// An authenticated account.
    Signed(AccountId),
    /// Nobody in particular.
    Unsigned,
}

/// The caller is not of the kind that was asked for.
#[derive(Clone, Copy, Debug, PartialEq, Eq, Structural)]
pub struct BadOrigin;

/// Why a write was denied.
#[derive(Clone, Copy, Debug, PartialEq, Eq, Structural)]
pub enum DenialReason {
    /// The caller is not of the kind that the key's namespace asks for.
    BadOrigin,
    /// The policy has no rule for the key's namespace.
    UnknownNamespace,
}

/// What a policy says to one write.
#[derive(Clone, Copy, Debug, PartialEq, Eq, Structural)]
pub enum AuthorizationOutcome {
    Approved,
    Denied(DenialReason),
}

/// Succeeds for the administrator and for nobody else.
pub fn ensure_root(origin: Origin) -> (r: Result<(), BadOrigin>)
    ensures
        r == (match origin {
            Origin::Root => Ok::<(), BadOrigin>(()),
            _ => Err::<(), BadOrigin>(BadOrigin),
        }),
{
    match origin {
        Origin::Root => Ok(()),
        _ => Err(BadOrigin),
    }
}

/// Gives the account of a signed caller and fails for every other caller.
pub fn ensure_signed(origin: Origin) -> (r: Result<AccountId, BadOrigin>)
    ensures
        r == (match origin {
            Origin::Signed(who) => Ok::<AccountId, BadOrigin>(who),
            _ => Err::<AccountId, BadOrigin>(BadOrigin),
        }),
{
    match origin {
        Origin::Signed(who) => Ok(who),
        _ => Err(BadOrigin),
    }
}

/// A rule that accepts or rejects each write by its caller and its key.
pub trait AuthorizationPolicy {
    /// What the policy answers: a function of the caller, the key and the
    /// policy's own read-only state, so the same question always gets the
    /// same answer.
    spec fn decision(&self, caller: Origin, key: KeyModel) -> AuthorizationOutcome;

    /// Decides whether `caller` may write `key`.
    fn authorize(&self, caller: Origin, key: &AggregatedKey) -> (outcome: AuthorizationOutcome)
        ensures
            outcome == self.decision(caller, key@),
    ;
}

} // verus!
