use param_registry::aggregate::{AggregatedKey, AggregatedValue};
use param_registry::backend::{copy_bytes, same_bytes, Backend, StoredEntry};
use param_registry::definition::{NamespaceDef, ParameterDef};
use param_registry::registry::Registry;
use param_registry::mock::{EnsureOriginImpl, ExtBuilder};
use param_registry::notifier::{ChangeNotice, ChangeNotifier};
use param_registry::policy::{
    ensure_root, ensure_signed, AuthorizationOutcome, AuthorizationPolicy, BadOrigin,
    DenialReason, Origin,
};
use param_registry::scalar::{Scalar, ScalarKind};
use param_registry::store::{SetError, Store};

fn key(namespace: u32, parameter: u32, payload: Vec<Scalar>) -> AggregatedKey {
    AggregatedKey { namespace, parameter, payload }
}

fn value(namespace: u32, parameter: u32, value: Vec<Scalar>) -> AggregatedValue {
    AggregatedValue { namespace, parameter, value }
}

fn fees_store() -> Store {
    let base_fee =
        ParameterDef::new("BaseFee", 0, vec![], vec![ScalarKind::U64], vec![Scalar::U64(100)]);
    let registry = Registry::build(vec![NamespaceDef::new("Fees", 0, vec![base_fee])]).unwrap();
    Store::new(registry)
}

fn write(
    store: &mut Store,
    notifier: &mut ChangeNotifier,
    caller: Origin,
    k: &AggregatedKey,
    v: &AggregatedValue,
) -> Result<(), SetError> {
    assert!(store.registry().accepts(k, v));
    store.set(&EnsureOriginImpl, notifier, caller, k.clone(), v.clone())
}

#[test]
fn base_fee_scenario() {
    let mut store = fees_store();
    let mut notifier = ChangeNotifier::new();
    let base_fee = key(0, 0, vec![]);
    assert_eq!(store.get(&base_fee), Some(value(0, 0, vec![Scalar::U64(100)])));
    let new = value(0, 0, vec![Scalar::U64(250)]);
    assert_eq!(write(&mut store, &mut notifier, Origin::Root, &base_fee, &new), Ok(()));
    assert_eq!(store.get(&base_fee), Some(new.clone()));
    assert_eq!(notifier.len(), 1);
    assert_eq!(
        notifier.last(),
        Some(&ChangeNotice {
            key: base_fee,
            old_value: Some(value(0, 0, vec![Scalar::U64(100)])),
            new_value: new,
        })
    );
}

#[test]
fn reads_give_the_default_before_the_first_write_and_the_last_value_after() {
    let mut ext = ExtBuilder::new();
    let k = key(3, 2, vec![Scalar::U32(5)]);
    let other = key(3, 2, vec![Scalar::U32(6)]);
    let zero = value(3, 2, vec![Scalar::U32(0)]);
    assert_eq!(ext.store.get(&k), Some(zero.clone()));
    let signed = Origin::Signed(1);
    let first = value(3, 2, vec![Scalar::U32(11)]);
    let second = value(3, 2, vec![Scalar::U32(12)]);
    assert_eq!(write(&mut ext.store, &mut ext.notifier, signed, &k, &first), Ok(()));
    assert_eq!(ext.store.get(&k), Some(first.clone()));
    assert_eq!(ext.store.get(&other), Some(zero.clone()));
    assert_eq!(write(&mut ext.store, &mut ext.notifier, signed, &k, &second), Ok(()));
    assert_eq!(ext.store.get(&k), Some(second.clone()));
    assert_eq!(ext.store.get(&other), Some(zero.clone()));
    assert_eq!(ext.store.entries().len(), 1);
    assert_eq!(ext.notifier.len(), 2);
    assert_eq!(ext.notifier.get(0).unwrap().old_value, Some(zero));
    assert_eq!(ext.notifier.get(1).unwrap().old_value, Some(first));
    assert_eq!(ext.notifier.get(1).unwrap().new_value, second);
    assert_eq!(ext.notifier.get(2), None);
}

#[test]
fn a_write_of_the_default_is_an_entry_like_any_other() {
    let mut ext = ExtBuilder::new();
    let k = key(0, 0, vec![]);
    let zero = value(0, 0, vec![Scalar::U64(0)]);
    assert_eq!(ext.store.entries().len(), 0);
    assert_eq!(write(&mut ext.store, &mut ext.notifier, Origin::Root, &k, &zero), Ok(()));
    assert_eq!(
        ext.store.entries(),
        &vec![StoredEntry { key: vec![0, 0], value: vec![0; 8] }]
    );
    assert_eq!(ext.store.get(&k), Some(zero));
    assert_eq!(ext.notifier.len(), 1);
}

#[test]
fn a_denied_write_changes_nothing() {
    let mut ext = ExtBuilder::new();
    let k = key(0, 1, vec![Scalar::U32(1)]);
    let v = value(0, 1, vec![Scalar::U32(99)]);
    assert_eq!(write(&mut ext.store, &mut ext.notifier, Origin::Root, &k, &v), Ok(()));
    let entries = ext.store.entries().clone();
    let w = value(0, 1, vec![Scalar::U32(100)]);
    for caller in [Origin::Signed(1), Origin::Unsigned] {
        assert_eq!(
            write(&mut ext.store, &mut ext.notifier, caller, &k, &w),
            Err(SetError::Unauthorized)
        );
        assert_eq!(ext.store.get(&k), Some(v.clone()));
        assert_eq!(ext.store.entries(), &entries);
        assert_eq!(ext.notifier.len(), 1);
    }
    let fresh = key(0, 0, vec![]);
    assert_eq!(
        write(
            &mut ext.store,
            &mut ext.notifier,
            Origin::Unsigned,
            &fresh,
            &value(0, 0, vec![Scalar::U64(5)])
        ),
        Err(SetError::Unauthorized)
    );
    assert_eq!(ext.store.get(&fresh), Some(value(0, 0, vec![Scalar::U64(0)])));
    assert_eq!(ext.store.entries(), &entries);
    assert_eq!(ext.notifier.len(), 1);
}

#[test]
fn one_caller_is_judged_anew_for_each_namespace() {
    let mut ext = ExtBuilder::new();
    let first = key(0, 0, vec![]);
    let second = key(3, 0, vec![]);
    let a = value(0, 0, vec![Scalar::U64(1)]);
    let b = value(3, 0, vec![Scalar::U64(2)]);
    let signed = Origin::Signed(42);
    assert_eq!(write(&mut ext.store, &mut ext.notifier, signed, &second, &b), Ok(()));
    assert_eq!(
        write(&mut ext.store, &mut ext.notifier, signed, &first, &a),
        Err(SetError::Unauthorized)
    );
    assert_eq!(
        write(&mut ext.store, &mut ext.notifier, Origin::Root, &second, &b),
        Err(SetError::Unauthorized)
    );
    assert_eq!(write(&mut ext.store, &mut ext.notifier, Origin::Root, &first, &a), Ok(()));
    assert_eq!(ext.notifier.len(), 2);
}

#[test]
fn reads_of_unregistered_keys_give_nothing() {
    let ext = ExtBuilder::new();
    assert_eq!(ext.store.get(&key(1, 0, vec![])), None);
    assert_eq!(ext.store.get(&key(0, 3, vec![])), None);
    assert_eq!(ext.store.get(&key(0, 0, vec![Scalar::U8(0)])), None);
}

#[test]
fn fresh_externalities_are_empty() {
    let ext = ExtBuilder::new();
    assert_eq!(ext.store.entries().len(), 0);
    assert_eq!(ext.notifier.len(), 0);
    assert_eq!(ext.notifier.last(), None);
    assert_eq!(ext.store.registry().namespaces().len(), 2);
}

#[test]
fn origins_are_checked() {
    assert_eq!(ensure_root(Origin::Root), Ok(()));
    assert_eq!(ensure_root(Origin::Signed(1)), Err(BadOrigin));
    assert_eq!(ensure_root(Origin::Unsigned), Err(BadOrigin));
    assert_eq!(ensure_signed(Origin::Signed(7)), Ok(7));
    assert_eq!(ensure_signed(Origin::Root), Err(BadOrigin));
    assert_eq!(ensure_signed(Origin::Unsigned), Err(BadOrigin));
}

#[test]
fn try_origin_hands_a_refused_origin_back() {
    let first = key(0, 0, vec![]);
    let second = key(3, 4, vec![Scalar::U8(1), Scalar::U8(2)]);
    let elsewhere = key(1, 0, vec![]);
    assert_eq!(EnsureOriginImpl::try_origin(Origin::Root, &first), Ok(()));
    assert_eq!(EnsureOriginImpl::try_origin(Origin::Signed(3), &first), Err(Origin::Signed(3)));
    assert_eq!(EnsureOriginImpl::try_origin(Origin::Unsigned, &first), Err(Origin::Unsigned));
    assert_eq!(EnsureOriginImpl::try_origin(Origin::Signed(3), &second), Ok(()));
    assert_eq!(EnsureOriginImpl::try_origin(Origin::Root, &second), Err(Origin::Root));
    assert_eq!(EnsureOriginImpl::try_origin(Origin::Root, &elsewhere), Err(Origin::Root));
    assert_eq!(EnsureOriginImpl::try_successful_origin(&first), Err(()));
}

#[test]
fn the_policy_gives_its_reason() {
    let policy = EnsureOriginImpl;
    let first = key(0, 0, vec![]);
    let elsewhere = key(2, 0, vec![]);
    assert_eq!(policy.authorize(Origin::Root, &first), AuthorizationOutcome::Approved);
    assert_eq!(
        policy.authorize(Origin::Signed(1), &first),
        AuthorizationOutcome::Denied(DenialReason::BadOrigin)
    );
    assert_eq!(
        policy.authorize(Origin::Root, &elsewhere),
        AuthorizationOutcome::Denied(DenialReason::UnknownNamespace)
    );
}

#[test]
fn the_backend_keeps_one_entry_for_each_key() {
    let mut backend = Backend::new();
    assert_eq!(backend.len(), 0);
    assert_eq!(backend.get(&[1]), None);
    backend.set(vec![1], vec![10]);
    backend.set(vec![2], vec![20]);
    backend.set(vec![1], vec![11]);
    assert_eq!(backend.len(), 2);
    assert_eq!(backend.get(&[1]), Some(&vec![11]));
    assert_eq!(backend.get(&[2]), Some(&vec![20]));
    assert_eq!(backend.get(&[]), None);
    assert_eq!(
        backend.entries(),
        &vec![
            StoredEntry { key: vec![1], value: vec![11] },
            StoredEntry { key: vec![2], value: vec![20] }
        ]
    );
}

#[test]
fn bytes_are_compared_and_copied() {
    assert!(same_bytes(&[], &[]));
    assert!(same_bytes(&[1, 2], &[1, 2]));
    assert!(!same_bytes(&[1, 2], &[1, 3]));
    assert!(!same_bytes(&[1, 2], &[1]));
    assert_eq!(copy_bytes(&[4, 5, 6]), vec![4, 5, 6]);
}

#[test]
fn a_store_is_restored_from_its_entries() {
    let mut ext = ExtBuilder::new();
    let k = key(0, 2, vec![Scalar::U8(1), Scalar::U8(2)]);
    let v = value(0, 2, vec![Scalar::U128(77)]);
    assert_eq!(write(&mut ext.store, &mut ext.notifier, Origin::Root, &k, &v), Ok(()));
    let entries = ext.store.entries().clone();
    assert_eq!(
        entries,
        vec![StoredEntry { key: vec![0, 8, 1, 2], value: 77u128.to_le_bytes().to_vec() }]
    );
    let restored = Store::restore(param_registry::mock::runtime_parameters(), &entries).unwrap();
    assert_eq!(restored.entries(), &entries);
    assert_eq!(restored.get(&k), Some(v));
    assert_eq!(restored.get(&key(0, 0, vec![])), Some(value(0, 0, vec![Scalar::U64(0)])));
}

#[test]
fn of_two_restored_entries_for_one_key_the_later_counts() {
    let entries = vec![
        StoredEntry { key: vec![0, 0], value: vec![1, 0, 0, 0, 0, 0, 0, 0] },
        StoredEntry { key: vec![12, 0], value: vec![9, 0, 0, 0, 0, 0, 0, 0] },
        StoredEntry { key: vec![0, 0], value: vec![2, 0, 0, 0, 0, 0, 0, 0] },
    ];
    let store = Store::restore(param_registry::mock::runtime_parameters(), &entries).unwrap();
    assert_eq!(store.entries().len(), 2);
    assert_eq!(store.get(&key(0, 0, vec![])), Some(value(0, 0, vec![Scalar::U64(2)])));
    assert_eq!(store.get(&key(3, 0, vec![])), Some(value(3, 0, vec![Scalar::U64(9)])));
}

#[test]
fn restoring_reports_the_first_entry_that_does_not_fit() {
    let good = StoredEntry { key: vec![0, 0], value: vec![0; 8] };
    let unknown_namespace = StoredEntry { key: vec![4, 0], value: vec![0; 8] };
    let unknown_parameter = StoredEntry { key: vec![0, 12], value: vec![0; 8] };
    let bad_key = StoredEntry { key: vec![0, 0, 0], value: vec![0; 8] };
    let bad_value = StoredEntry { key: vec![0, 0], value: vec![0; 7] };
    let restore = |entries: Vec<StoredEntry>| {
        Store::restore(param_registry::mock::runtime_parameters(), &entries).err()
    };
    assert_eq!(restore(vec![]), None);
    assert_eq!(restore(vec![good.clone()]), None);
    assert_eq!(
        restore(vec![good.clone(), unknown_namespace.clone(), bad_key.clone()]),
        Some(param_registry::definition::DecodeError::UnknownNamespace)
    );
    assert_eq!(
        restore(vec![unknown_parameter, unknown_namespace]),
        Some(param_registry::definition::DecodeError::UnknownParameter)
    );
    assert_eq!(
        restore(vec![good.clone(), bad_key]),
        Some(param_registry::definition::DecodeError::MalformedPayload)
    );
    assert_eq!(
        restore(vec![bad_value, good]),
        Some(param_registry::definition::DecodeError::MalformedPayload)
    );
}
