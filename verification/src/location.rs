//! Locations of accounts across chains, and the rule for where a transfer
//! may go.
//!
//! A location is a number of steps up to parent chains and then a path of
//! junctions down. Only what the rule reads is modelled: parachains and
//! 32-byte accounts; every other junction is `Other`.

use vstd::prelude::*;

verus! {

/// The consensus system that an account belongs to.
#[derive(Clone, Copy, Debug, PartialEq, Eq)]
pub enum NetworkId {
    ByGenesis([u8; 32]),
    ByFork { block_number: u64, block_hash: [u8; 32] },
    Polkadot,
    Kusama,
    Ethereum { chain_id: u64 },
    BitcoinCore,
    BitcoinCash,
    PolkadotBulletin,
}

/// One step of a path.
#[derive(Clone, Copy, Debug, PartialEq, Eq)]
pub enum Junction {
    /// The parachain with this index.
    Parachain(u32),
    /// An account with a 32-byte identifier.
    AccountId32 { network: Option<NetworkId>, id: [u8; 32] },
    /// Any other step.
    Other,
}

/// A place relative to the chain that looks at it.
#[derive(Clone, Debug, PartialEq, Eq)]
pub struct Location {
    /// How many steps up.
    pub parents: u8,
    /// The path down from there.
    pub interior: Vec<Junction>,
}

impl Location {
    /// The steps up and the path down.
    pub fn unpack(&self) -> (r: (u8, &[Junction]))
        ensures
            r.0 == self.parents,
            r.1@ == self.interior@,
    {
        (self.parents, self.interior.as_slice())
    }
}

/// Turns an account into its location on the chain itself.
pub struct AccountIdToLocation;

impl AccountIdToLocation {
    /// The location of `account`: no step up, then the account, with no
    /// network named.
    pub fn convert(account: [u8; 32]) -> (location: Location)
        ensures
            location.parents == 0,
            location.interior@ == seq![Junction::AccountId32 { network: None, id: account }],
    {
        let here = Junction::AccountId32 { network: None, id: account };
        Location { parents: 0, interior: vec![here] }
    }
}

/// The places a transfer may go to.
pub struct ParentOrParachains;

impl ParentOrParachains {
    /// The parachains that may receive.
    pub open spec fn is_listed(parachain: u32) -> bool {
        parachain == 1 || parachain == 2 || parachain == 3 || parachain == 4 || parachain == 100
    }

    /// An account on the chain itself, an account on the parent chain, or an
    /// account on a listed sibling parachain.
    pub open spec fn allows(parents: u8, interior: Seq<Junction>) -> bool {
        ||| interior.len() == 1 && interior[0] is AccountId32 && (parents == 0 || parents == 1)
        ||| {
            &&& interior.len() == 2
            &&& parents == 1
            &&& interior[0] matches Junction::Parachain(n) && Self::is_listed(n)
            &&& interior[1] is AccountId32
        }
    }

    /// Whether a transfer may go to `location`.
    pub fn contains(location: &Location) -> (r: bool)
        ensures
            r == Self::allows(location.parents, location.interior@),
    {
        let (parents, interior) = location.unpack();
        if interior.len() == 1 {
            match interior[0] {
                Junction::AccountId32 { .. } => parents == 0 || parents == 1,
                _ => false,
            }
        } else if interior.len() == 2 {
            match (interior[0], interior[1]) {
                (Junction::Parachain(n), Junction::AccountId32 { .. }) => parents == 1 && (n == 1
                    || n == 2 || n == 3 || n == 4 || n == 100),
                _ => false,
            }
        } else {
            false
        }
    }
}

/// The location of an account on the chain itself is one a transfer may go to.
pub proof fn law_own_accounts_allowed(account: [u8; 32])
    ensures
        ParentOrParachains::allows(0, seq![Junction::AccountId32 { network: None, id: account }]),
{
}

} // verus!
