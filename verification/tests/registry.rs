use param_registry::aggregate::{AggregatedKey, AggregatedValue};
use param_registry::definition::{DecodeError, NamespaceDef, ParameterDef};
use param_registry::registry::{all_distinct, DefinitionError, Registry};
use param_registry::mock::{pallet1_parameters, pallet2_parameters, runtime_parameters};
use param_registry::scalar::{Scalar, ScalarKind};

fn base_fee(default: u64) -> ParameterDef {
    ParameterDef::new("BaseFee", 0, vec![], vec![ScalarKind::U64], vec![Scalar::U64(default)])
}

fn per_account_limit() -> ParameterDef {
    ParameterDef::new(
        "Limit",
        7,
        vec![ScalarKind::U32],
        vec![ScalarKind::U128, ScalarKind::Bool],
        vec![Scalar::U128(0), Scalar::Bool(false)],
    )
}

fn fees(discriminant: u32) -> NamespaceDef {
    NamespaceDef::new("Fees", discriminant, vec![base_fee(100), per_account_limit()])
}

fn key(namespace: u32, parameter: u32, payload: Vec<Scalar>) -> AggregatedKey {
    AggregatedKey { namespace, parameter, payload }
}

fn value(namespace: u32, parameter: u32, value: Vec<Scalar>) -> AggregatedValue {
    AggregatedValue { namespace, parameter, value }
}

#[test]
fn distinct_numbers() {
    assert!(all_distinct(&vec![]));
    assert!(all_distinct(&vec![5]));
    assert!(all_distinct(&vec![5, 6, 7]));
    assert!(!all_distinct(&vec![5, 6, 5]));
    assert!(!all_distinct(&vec![1, 2, 3, 3]));
}

#[test]
fn build_keeps_the_namespaces() {
    let registry = Registry::build(vec![fees(0), fees(9)]).unwrap();
    assert_eq!(registry.namespaces(), &vec![fees(0), fees(9)]);
    assert_eq!(registry.namespace(9), Some(&fees(9)));
    assert_eq!(registry.namespace(1), None);
    assert_eq!(registry.parameter(9, 7), Ok(&per_account_limit()));
    assert_eq!(registry.parameter(9, 1), Err(DecodeError::UnknownParameter));
    assert_eq!(registry.parameter(1, 7), Err(DecodeError::UnknownNamespace));
    assert_eq!(fees(0).parameter(0), Some(&base_fee(100)));
    assert_eq!(fees(0).parameter(3), None);
}

#[test]
fn build_of_nothing_succeeds() {
    let registry = Registry::build(vec![]).unwrap();
    assert_eq!(registry.namespaces().len(), 0);
    assert_eq!(registry.decode_key(&[0, 0]).unwrap_err(), DecodeError::UnknownNamespace);
}

#[test]
fn two_namespaces_with_one_discriminant_are_refused() {
    let r = Registry::build(vec![fees(4), pallet1_parameters(), fees(4)]);
    assert_eq!(r.err(), Some(DefinitionError::DuplicateNamespace));
}

#[test]
fn two_parameters_with_one_discriminant_are_refused() {
    let twice = NamespaceDef::new("Twice", 1, vec![base_fee(1), per_account_limit(), base_fee(2)]);
    let r = Registry::build(vec![fees(0), twice]);
    assert_eq!(r.err(), Some(DefinitionError::DuplicateParameter));
}

#[test]
fn same_parameter_discriminant_in_two_namespaces_is_accepted() {
    assert!(Registry::build(vec![pallet1_parameters(), pallet2_parameters()]).is_ok());
}

#[test]
fn a_default_of_the_wrong_shape_is_refused() {
    let wrong = ParameterDef::new("Wrong", 0, vec![], vec![ScalarKind::U64], vec![Scalar::U32(1)]);
    let r = Registry::build(vec![NamespaceDef::new("N", 0, vec![wrong])]);
    assert_eq!(r.err(), Some(DefinitionError::DefaultMismatch));
    let short = ParameterDef::new("Short", 0, vec![], vec![ScalarKind::U64], vec![]);
    let r = Registry::build(vec![NamespaceDef::new("N", 0, vec![short])]);
    assert_eq!(r.err(), Some(DefinitionError::DefaultMismatch));
}

#[test]
fn defects_are_reported_in_order() {
    let wrong = ParameterDef::new("Wrong", 0, vec![], vec![ScalarKind::U64], vec![]);
    let twice = NamespaceDef::new("Twice", 1, vec![wrong.clone(), wrong.clone()]);
    let r = Registry::build(vec![twice.clone(), twice.clone()]);
    assert_eq!(r.err(), Some(DefinitionError::DuplicateNamespace));
    let r = Registry::build(vec![twice]);
    assert_eq!(r.err(), Some(DefinitionError::DuplicateParameter));
}

#[test]
fn key_bytes_are_exact() {
    let registry = runtime_parameters();
    assert_eq!(registry.encode_key(&key(0, 0, vec![])), vec![0x00, 0x00]);
    assert_eq!(
        registry.encode_key(&key(0, 1, vec![Scalar::U32(0x0a0b0c0d)])),
        vec![0x00, 0x04, 0x0d, 0x0c, 0x0b, 0x0a]
    );
    assert_eq!(
        registry.encode_key(&key(3, 4, vec![Scalar::U8(1), Scalar::U8(2)])),
        vec![0x0c, 0x10, 1, 2]
    );
    assert_eq!(registry.encode_key(&key(64, 16384, vec![])), vec![1, 1, 2, 0, 1, 0]);
}

#[test]
fn value_bytes_have_no_framing() {
    let registry = runtime_parameters();
    assert_eq!(
        registry.encode_value(&value(0, 0, vec![Scalar::U64(250)])),
        vec![250, 0, 0, 0, 0, 0, 0, 0]
    );
    assert_eq!(registry.encode_value(&value(3, 2, vec![Scalar::U32(1)])), vec![1, 0, 0, 0]);
}

#[test]
fn every_registered_key_round_trips() {
    let registry = runtime_parameters();
    let keys = vec![
        key(0, 0, vec![]),
        key(0, 1, vec![Scalar::U32(0)]),
        key(0, 1, vec![Scalar::U32(u32::MAX)]),
        key(0, 2, vec![Scalar::U8(0), Scalar::U8(255)]),
        key(3, 0, vec![]),
        key(3, 2, vec![Scalar::U32(77)]),
        key(3, 4, vec![Scalar::U8(9), Scalar::U8(8)]),
    ];
    for k in keys {
        assert!(registry.contains_key(&k));
        let bytes = registry.encode_key(&k);
        assert_eq!(registry.decode_key(&bytes), Ok(k.clone()));
        assert_eq!(k.duplicate(), k);
    }
}

#[test]
fn every_fitting_value_round_trips() {
    let registry = runtime_parameters();
    let pairs = vec![
        (key(0, 0, vec![]), value(0, 0, vec![Scalar::U64(u64::MAX)])),
        (key(0, 1, vec![Scalar::U32(5)]), value(0, 1, vec![Scalar::U32(6)])),
        (key(3, 4, vec![Scalar::U8(1), Scalar::U8(2)]), value(3, 4, vec![Scalar::U128(1 << 100)])),
    ];
    for (k, v) in pairs {
        assert!(registry.accepts(&k, &v));
        let bytes = registry.encode_value(&v);
        assert_eq!(registry.decode_value(&bytes, &k), Ok(v.clone()));
        assert_eq!(v.duplicate(), v);
    }
}

#[test]
fn large_discriminants_round_trip() {
    let p = ParameterDef::new("P", 70000, vec![ScalarKind::Bool], vec![], vec![]);
    let registry = Registry::build(vec![NamespaceDef::new("Far", 0x5000_0000, vec![p])]).unwrap();
    let k = key(0x5000_0000, 70000, vec![Scalar::Bool(true)]);
    let bytes = registry.encode_key(&k);
    assert_eq!(bytes, vec![3, 0, 0, 0, 0x50, 0xc2, 0x45, 0x04, 0x00, 1]);
    assert_eq!(registry.decode_key(&bytes), Ok(k));
}

#[test]
fn unknown_namespace_is_reported() {
    let registry = runtime_parameters();
    assert_eq!(registry.decode_key(&[0x04, 0x00]), Err(DecodeError::UnknownNamespace));
    assert_eq!(registry.decode_key(&[0x08]), Err(DecodeError::UnknownNamespace));
    assert_eq!(registry.decode_key(&[0x08, 0xff, 0xff]), Err(DecodeError::UnknownNamespace));
    assert_eq!(registry.decode_key(&[0x01, 0x01, 0x00]), Err(DecodeError::UnknownNamespace));
    assert_eq!(
        registry.decode_key(&[0x03, 0xff, 0xff, 0xff, 0xff]),
        Err(DecodeError::UnknownNamespace)
    );
}

#[test]
fn unknown_parameter_is_reported() {
    let registry = runtime_parameters();
    assert_eq!(registry.decode_key(&[0x00, 0x0c]), Err(DecodeError::UnknownParameter));
    assert_eq!(registry.decode_key(&[0x0c, 0x04]), Err(DecodeError::UnknownParameter));
    assert_eq!(registry.decode_key(&[0x0c, 0x0c, 1, 2, 3]), Err(DecodeError::UnknownParameter));
}

#[test]
fn malformed_keys_are_reported() {
    let registry = runtime_parameters();
    assert_eq!(registry.decode_key(&[]), Err(DecodeError::MalformedPayload));
    assert_eq!(registry.decode_key(&[0x01]), Err(DecodeError::MalformedPayload));
    assert_eq!(registry.decode_key(&[0x01, 0x00]), Err(DecodeError::MalformedPayload));
    assert_eq!(registry.decode_key(&[0x00]), Err(DecodeError::MalformedPayload));
    assert_eq!(registry.decode_key(&[0x00, 0x01]), Err(DecodeError::MalformedPayload));
    assert_eq!(registry.decode_key(&[0x00, 0x00, 0x00]), Err(DecodeError::MalformedPayload));
    assert_eq!(registry.decode_key(&[0x00, 0x04, 1, 2, 3]), Err(DecodeError::MalformedPayload));
    assert_eq!(
        registry.decode_key(&[0x00, 0x04, 1, 2, 3, 4, 5]),
        Err(DecodeError::MalformedPayload)
    );
}

#[test]
fn values_are_decoded_under_their_key() {
    let registry = runtime_parameters();
    let k1 = key(0, 0, vec![]);
    let k2 = key(0, 1, vec![Scalar::U32(1)]);
    let bytes = vec![1, 0, 0, 0];
    assert_eq!(registry.decode_value(&bytes, &k2), Ok(value(0, 1, vec![Scalar::U32(1)])));
    assert_eq!(registry.decode_value(&bytes, &k1), Err(DecodeError::MalformedPayload));
    assert_eq!(
        registry.decode_value(&[1, 0, 0, 0, 0, 0, 0, 0, 0], &k1),
        Err(DecodeError::MalformedPayload)
    );
    assert_eq!(
        registry.decode_value(&bytes, &key(1, 0, vec![])),
        Err(DecodeError::UnknownNamespace)
    );
    assert_eq!(
        registry.decode_value(&bytes, &key(3, 1, vec![])),
        Err(DecodeError::UnknownParameter)
    );
}

#[test]
fn keys_and_values_are_checked_against_the_registry() {
    let registry = runtime_parameters();
    assert!(registry.contains_key(&key(0, 0, vec![])));
    assert!(!registry.contains_key(&key(0, 0, vec![Scalar::U8(1)])));
    assert!(!registry.contains_key(&key(0, 1, vec![Scalar::U64(1)])));
    assert!(!registry.contains_key(&key(3, 1, vec![Scalar::U32(1)])));
    assert!(!registry.contains_key(&key(2, 0, vec![])));
    let k = key(3, 2, vec![Scalar::U32(1)]);
    assert!(registry.accepts(&k, &value(3, 2, vec![Scalar::U32(9)])));
    assert!(!registry.accepts(&k, &value(3, 2, vec![Scalar::U64(9)])));
    assert!(!registry.accepts(&k, &value(0, 2, vec![Scalar::U32(9)])));
    assert!(!registry.accepts(&k, &value(3, 0, vec![Scalar::U32(9)])));
    assert!(!registry.accepts(&key(3, 2, vec![]), &value(3, 2, vec![Scalar::U32(9)])));
}

#[test]
fn defaults_are_the_declared_ones() {
    let registry = Registry::build(vec![fees(0)]).unwrap();
    assert_eq!(
        registry.default_value(&key(0, 0, vec![])),
        Some(value(0, 0, vec![Scalar::U64(100)]))
    );
    assert_eq!(
        registry.default_value(&key(0, 7, vec![Scalar::U32(1)])),
        Some(value(0, 7, vec![Scalar::U128(0), Scalar::Bool(false)]))
    );
    assert_eq!(registry.default_value(&key(0, 7, vec![])), None);
    assert_eq!(registry.default_value(&key(1, 0, vec![])), None);
}

#[test]
fn the_runtime_has_two_namespaces_of_three_parameters() {
    let registry = runtime_parameters();
    let spaces = registry.namespaces();
    assert_eq!(spaces.len(), 2);
    assert_eq!(spaces[0], pallet1_parameters());
    assert_eq!(spaces[1], pallet2_parameters());
    assert_eq!(spaces[0].discriminant, 0);
    assert_eq!(spaces[1].discriminant, 3);
    let d1: Vec<u32> = spaces[0].parameters.iter().map(|p| p.discriminant).collect();
    let d2: Vec<u32> = spaces[1].parameters.iter().map(|p| p.discriminant).collect();
    assert_eq!(d1, vec![0, 1, 2]);
    assert_eq!(d2, vec![0, 2, 4]);
    let key3 = &spaces[1].parameters[2];
    assert_eq!(key3.name, "Key3");
    assert_eq!(key3.payload, vec![ScalarKind::U8, ScalarKind::U8]);
    assert_eq!(key3.value, vec![ScalarKind::U128]);
    assert_eq!(key3.default, vec![Scalar::U128(0)]);
}

#[test]
fn keys_and_values_are_made_through_the_registry() {
    let registry = runtime_parameters();
    let k = registry.key(3, 2, vec![Scalar::U32(8)]).unwrap();
    assert_eq!(k, key(3, 2, vec![Scalar::U32(8)]));
    assert_eq!(registry.key(3, 2, vec![]), None);
    assert_eq!(registry.key(3, 1, vec![Scalar::U32(8)]), None);
    assert_eq!(registry.key(5, 2, vec![Scalar::U32(8)]), None);
    let v = registry.value(&k, vec![Scalar::U32(1)]).unwrap();
    assert_eq!(v, value(3, 2, vec![Scalar::U32(1)]));
    assert!(registry.accepts(&k, &v));
    assert_eq!(registry.value(&k, vec![Scalar::U64(1)]), None);
    assert_eq!(registry.value(&key(3, 2, vec![]), vec![Scalar::U32(1)]), None);
}

#[test]
fn decoded_keys_are_keys_of_the_registry_and_encode_to_the_same_bytes() {
    let registry = runtime_parameters();
    let samples: Vec<Vec<u8>> = vec![
        vec![0, 0],
        vec![0, 4, 1, 2, 3, 4],
        vec![0, 8, 1, 2],
        vec![12, 0],
        vec![12, 8, 0, 0, 0, 0],
        vec![12, 16, 255, 255],
    ];
    for bytes in samples {
        let k = registry.decode_key(&bytes).unwrap();
        assert!(registry.contains_key(&k));
        assert_eq!(registry.encode_key(&k), bytes);
    }
}

#[test]
fn a_namespace_reads_the_payloads_and_values_of_its_parameters() {
    let space = fees(0);
    assert_eq!(space.decode_key(0, &[]), Ok(vec![]));
    assert_eq!(space.decode_key(0, &[1]), Err(DecodeError::MalformedPayload));
    assert_eq!(space.decode_key(7, &[1, 0, 0, 0]), Ok(vec![Scalar::U32(1)]));
    assert_eq!(space.decode_key(7, &[1, 0, 0]), Err(DecodeError::MalformedPayload));
    assert_eq!(space.decode_key(1, &[]), Err(DecodeError::UnknownParameter));
    assert_eq!(space.decode_value(0, &[100, 0, 0, 0, 0, 0, 0, 0]), Ok(vec![Scalar::U64(100)]));
    let mut limit = vec![0u8; 17];
    limit[0] = 5;
    limit[16] = 1;
    assert_eq!(space.decode_value(7, &limit), Ok(vec![Scalar::U128(5), Scalar::Bool(true)]));
    limit[16] = 2;
    assert_eq!(space.decode_value(7, &limit), Err(DecodeError::MalformedPayload));
    assert_eq!(space.decode_value(2, &limit), Err(DecodeError::UnknownParameter));
    let p = per_account_limit();
    assert_eq!(p.decode_payload(&[9, 0, 0, 0]), Some(vec![Scalar::U32(9)]));
    assert_eq!(p.decode_payload(&[9]), None);
    assert_eq!(p.decode_value(&[0; 17]), Some(vec![Scalar::U128(0), Scalar::Bool(false)]));
    assert_eq!(p.decode_value(&[0; 16]), None);
}
