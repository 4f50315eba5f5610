//! A small runtime to try the registry on: two namespaces with the same
//! three parameters under different discriminants, a policy that asks for
//! the administrator in the first namespace and for a signed caller in the
//! second, and a builder for fresh externalities.

use vstd::prelude::*;
use vstd::pervasive::unreached;
use crate::aggregate::{AggregatedKey, KeyModel, ValueModel};
use crate::definition::{default_typed, find_parameter, NamespaceDef, ParameterDef};
use crate::registry::{
    defaults_typed, distinct, find_namespace, namespace_discriminants, namespaces_distinct,
    parameter_discriminants, parameters_distinct, Registry,
};
use crate::notifier::{ChangeNotifier, NoticeModel};
use crate::policy::{
    ensure_root, ensure_signed, AuthorizationOutcome, AuthorizationPolicy, DenialReason, Origin,
};
use crate::scalar::{lemma_zeros_shape, shape_of, zeros, zeros_of, ScalarKind};
use crate::store::Store;

verus! {

/// The discriminant of the first namespace.
pub const PALLET1: u32 = 0;

/// The discriminant of the second namespace.
pub const PALLET2: u32 = 3;

/// `p` has the name, the discriminant and the shapes given, and zeros as
/// its default.
pub open spec fn describes(
    p: ParameterDef,
    name: Seq<char>,
    d: u32,
    payload: Seq<ScalarKind>,
    value: Seq<ScalarKind>,
) -> bool {
    &&& p.name@ == name
    &&& p.discriminant == d
    &&& p.payload@ =~= payload
    &&& p.value@ =~= value
    &&& p.default@ =~= zeros(value)
}

/// `n` has the name and the discriminant given and three parameters:
/// `Key1` without payload and with a `u64` value at `k1`, `Key2` with a
/// `u32` payload and a `u32` value at `k2`, `Key3` with a pair of `u8` as
/// payload and a `u128` value at `k3`.
pub open spec fn is_pallet(
    n: NamespaceDef,
    name: Seq<char>,
    d: u32,
    k1: u32,
    k2: u32,
    k3: u32,
) -> bool {
    &&& n.name@ == name
    &&& n.discriminant == d
    &&& n.parameters@.len() == 3
    &&& describes(n.parameters@[0], "Key1"@, k1, seq![], seq![ScalarKind::U64])
    &&& describes(n.parameters@[1], "Key2"@, k2, seq![ScalarKind::U32], seq![ScalarKind::U32])
    &&& describes(
        n.parameters@[2],
        "Key3"@,
        k3,
        seq![ScalarKind::U8, ScalarKind::U8],
        seq![ScalarKind::U128],
    )
}

/// The two namespaces of the runtime.
pub open spec fn is_runtime_parameters(defs: Seq<NamespaceDef>) -> bool {
    &&& defs.len() == 2
    &&& is_pallet(defs[0], "Pallet1"@, PALLET1, 0, 1, 2)
    &&& is_pallet(defs[1], "Pallet2"@, PALLET2, 0, 2, 4)
}

/// The payload has the shape that the runtime declares for the parameter
/// at `k1`, `k2` or `k3` of one of its namespaces.
pub open spec fn is_pallet_key(
    parameter: u32,
    payload: Seq<ScalarKind>,
    k1: u32,
    k2: u32,
    k3: u32,
) -> bool {
    ||| parameter == k1 && payload =~= seq![]
    ||| parameter == k2 && payload =~= seq![ScalarKind::U32]
    ||| parameter == k3 && payload =~= seq![ScalarKind::U8, ScalarKind::U8]
}

/// The keys of the runtime: `Key1`, `Key2` with a `u32` and `Key3` with a
/// pair of `u8`, in each of the two namespaces.
pub open spec fn is_runtime_key(k: KeyModel) -> bool {
    ||| k.namespace == PALLET1 && is_pallet_key(k.parameter, shape_of(k.payload), 0, 1, 2)
    ||| k.namespace == PALLET2 && is_pallet_key(k.parameter, shape_of(k.payload), 0, 2, 4)
}

/// The registry of the runtime has the runtime's keys and no others.
pub proof fn law_runtime_keys(registry: Registry, k: KeyModel)
    requires
        is_runtime_parameters(registry.defs()),
    ensures
        registry.is_key(k) == is_runtime_key(k),
{
    let defs = registry.defs();
    reveal_with_fuel(find_namespace, 3);
    reveal_with_fuel(find_parameter, 4);
    assert(defs.skip(1)[0] == defs[1]);
    assert(defs.skip(1).skip(1).len() == 0);
    assert forall|i: int| 0 <= i < 2 implies {
        let params = #[trigger] defs[i].parameters@;
        &&& params.skip(1)[0] == params[1]
        &&& params.skip(1).skip(1)[0] == params[2]
        &&& params.skip(1).skip(1).skip(1).len() == 0
    } by {}
}

/// The shape of the value that the runtime declares for a key: a `u64`
/// for `Key1`, a `u32` for `Key2`, a `u128` for `Key3`.
pub open spec fn runtime_value_shape(k: KeyModel) -> Seq<ScalarKind> {
    if k.parameter == 0 {
        seq![ScalarKind::U64]
    } else if (k.namespace == PALLET1 && k.parameter == 1) || (k.namespace == PALLET2
        && k.parameter == 2) {
        seq![ScalarKind::U32]
    } else {
        seq![ScalarKind::U128]
    }
}

/// The values that fit a key of the runtime are those of the declared
/// shape, and the default is the zero of that shape.
pub proof fn law_runtime_values(registry: Registry, k: KeyModel, v: ValueModel)
    requires
        is_runtime_parameters(registry.defs()),
        is_runtime_key(k),
    ensures
        registry.is_value_for(k, v) == (v.namespace == k.namespace && v.parameter == k.parameter
            && shape_of(v.value) =~= runtime_value_shape(k)),
        registry.default_for(k).value =~= zeros(runtime_value_shape(k)),
{
    law_runtime_keys(registry, k);
    let defs = registry.defs();
    reveal_with_fuel(find_namespace, 3);
    reveal_with_fuel(find_parameter, 4);
    assert(defs.skip(1)[0] == defs[1]);
    assert forall|i: int| 0 <= i < 2 implies {
        let params = #[trigger] defs[i].parameters@;
        &&& params.skip(1)[0] == params[1]
        &&& params.skip(1).skip(1)[0] == params[2]
    } by {}
}

fn parameter(name: &str, discriminant: u32, payload: Vec<ScalarKind>, value: Vec<ScalarKind>) -> (p:
    ParameterDef)
    ensures
        describes(p, name@, discriminant, payload@, value@),
        default_typed(p),
{
    let default = zeros_of(&value);
    proof {
        lemma_zeros_shape(value@);
    }
    ParameterDef::new(name, discriminant, payload, value, default)
}

fn pallet(name: &str, discriminant: u32, k1: u32, k2: u32, k3: u32) -> (n: NamespaceDef)
    ensures
        is_pallet(n, name@, discriminant, k1, k2, k3),
        forall|j: int| 0 <= j < n.parameters@.len() ==> default_typed(#[trigger] n.parameters@[j]),
{
    let key1 = parameter("Key1", k1, vec![], vec![ScalarKind::U64]);
    let key2 = parameter("Key2", k2, vec![ScalarKind::U32], vec![ScalarKind::U32]);
    let key3 = parameter(
        "Key3",
        k3,
        vec![ScalarKind::U8, ScalarKind::U8],
        vec![ScalarKind::U128],
    );
    let parameters = vec![key1, key2, key3];
    proof {
        assert(parameters@[0] == key1 && parameters@[1] == key2 && parameters@[2] == key3);
    }
    NamespaceDef::new(name, discriminant, parameters)
}

/// The parameters of the first namespace: discriminants 0, 1 and 2.
pub fn pallet1_parameters() -> (n: NamespaceDef)
    ensures
        is_pallet(n, "Pallet1"@, PALLET1, 0, 1, 2),
{
    pallet("Pallet1", PALLET1, 0, 1, 2)
}

/// The parameters of the second namespace: discriminants 0, 2 and 4.
pub fn pallet2_parameters() -> (n: NamespaceDef)
    ensures
        is_pallet(n, "Pallet2"@, PALLET2, 0, 2, 4),
{
    pallet("Pallet2", PALLET2, 0, 2, 4)
}

/// The registry of the runtime: the first namespace at 0, the second at 3.
pub fn runtime_parameters() -> (registry: Registry)
    ensures
        registry.wf(),
        is_runtime_parameters(registry.defs()),
{
    let first = pallet("Pallet1", PALLET1, 0, 1, 2);
    let second = pallet("Pallet2", PALLET2, 0, 2, 4);
    let namespaces = vec![first, second];
    proof {
        let defs = namespaces@;
        assert(namespaces_distinct(defs)) by {
            let numbers = namespace_discriminants(defs);
            assert(numbers[0] == PALLET1 && numbers[1] == PALLET2);
        }
        assert(parameters_distinct(defs)) by {
            assert forall|i: int| 0 <= i < defs.len() implies distinct(
                parameter_discriminants(#[trigger] defs[i].parameters@),
            ) by {
                let numbers = parameter_discriminants(defs[i].parameters@);
                assert(numbers[0] != numbers[1] && numbers[0] != numbers[2] && numbers[1]
                    != numbers[2]);
            }
        }
        assert(defaults_typed(defs));
    }
    match Registry::build(namespaces) {
        Ok(registry) => registry,
        Err(_) => unreached(),
    }
}

/// The policy of the runtime.
#[derive(Clone, Copy, Debug)]
pub struct EnsureOriginImpl;

impl EnsureOriginImpl {
    /// Whether `origin` may write `key`: the administrator may write the
    /// keys of the first namespace, a signed caller those of the second,
    /// and nobody any other.
    pub open spec fn permits(origin: Origin, key: KeyModel) -> bool {
        if key.namespace == PALLET1 {
            origin is Root
        } else if key.namespace == PALLET2 {
            origin is Signed
        } else {
            false
        }
    }

    /// Checks `origin` against the rule of the key's namespace and hands it
    /// back where it is refused.
    pub fn try_origin(origin: Origin, key: &AggregatedKey) -> (r: Result<(), Origin>)
        ensures
            r == (if Self::permits(origin, key@) {
                Ok::<(), Origin>(())
            } else {
                Err::<(), Origin>(origin)
            }),
    {
        if key.namespace == PALLET1 {
            match ensure_root(origin) {
                Ok(_) => Ok(()),
                Err(_) => Err(origin),
            }
        } else if key.namespace == PALLET2 {
            match ensure_signed(origin) {
                Ok(_) => Ok(()),
                Err(_) => Err(origin),
            }
        } else {
            Err(origin)
        }
    }

    /// An origin that passes for `key`: this policy names none.
    pub fn try_successful_origin(_key: &AggregatedKey) -> (r: Result<Origin, ()>)
        ensures
            r == Err::<Origin, ()>(()),
    {
        Err(())
    }
}

impl AuthorizationPolicy for EnsureOriginImpl {
    open spec fn decision(&self, caller: Origin, key: KeyModel) -> AuthorizationOutcome {
        if Self::permits(caller, key) {
            AuthorizationOutcome::Approved
        } else if key.namespace == PALLET1 || key.namespace == PALLET2 {
            AuthorizationOutcome::Denied(DenialReason::BadOrigin)
        } else {
            AuthorizationOutcome::Denied(DenialReason::UnknownNamespace)
        }
    }

    fn authorize(&self, caller: Origin, key: &AggregatedKey) -> (outcome: AuthorizationOutcome) {
        match Self::try_origin(caller, key) {
            Ok(_) => AuthorizationOutcome::Approved,
            Err(_) => if key.namespace == PALLET1 || key.namespace == PALLET2 {
                AuthorizationOutcome::Denied(DenialReason::BadOrigin)
            } else {
                AuthorizationOutcome::Denied(DenialReason::UnknownNamespace)
            },
        }
    }
}

/// One caller is judged anew for each namespace: a signed caller may write
/// the second namespace and not the first, the administrator the first and
/// not the second.
pub proof fn law_authorization_isolation(who: u128, first: KeyModel, second: KeyModel)
    requires
        first.namespace == PALLET1,
        second.namespace == PALLET2,
    ensures
        EnsureOriginImpl.decision(Origin::Signed(who), second) == AuthorizationOutcome::Approved,
        EnsureOriginImpl.decision(Origin::Signed(who), first) == AuthorizationOutcome::Denied(
            DenialReason::BadOrigin,
        ),
        EnsureOriginImpl.decision(Origin::Root, first) == AuthorizationOutcome::Approved,
        EnsureOriginImpl.decision(Origin::Root, second) == AuthorizationOutcome::Denied(
            DenialReason::BadOrigin,
        ),
{
}

/// The state that a run starts from.
pub struct TestExternalities {
    pub store: Store,
    pub notifier: ChangeNotifier,
}

/// Builds the state that a run starts from.
pub struct ExtBuilder;

impl ExtBuilder {
    /// Fresh externalities: the runtime's registry, nothing written, nothing
    /// notified.
    pub fn new() -> (ext: TestExternalities)
        ensures
            ext.store.wf(),
            is_runtime_parameters(ext.store.spec_registry().defs()),
            ext.store@ == Map::<Seq<u8>, Seq<u8>>::empty(),
            ext.notifier@ == Seq::<NoticeModel>::empty(),
    {
        let store = Store::new(runtime_parameters());
        TestExternalities { store, notifier: ChangeNotifier::new() }
    }
}

} // verus!
