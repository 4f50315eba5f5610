//! The aggregated key and value of a registry, and their bytes.
//!
//! A key is written as the namespace discriminant, the parameter
//! discriminant, both in compact form, and the payload. A value is written
//! as its fields alone: the key says how to read them.

use vstd::prelude::*;
use vstd::slice::slice_subrange;
use crate::definition::{find_parameter, DecodeError};
use crate::registry::{find, find_namespace, lemma_found_default_typed, Registry};
use crate::scalar::{
    datum_bytes, duplicate, has_shape, lemma_datum_bytes_of_parse, lemma_datum_parse_of_bytes,
    put_datum, shape_of, Scalar,
};
use crate::wire::{
    compact_bytes, compact_parse, lemma_compact_bytes_len, lemma_compact_bytes_of_parse,
    lemma_compact_parse_of_bytes, put_compact, take_compact,
};

verus! {

/// One setting of one namespace: which parameter, and its payload.
#[derive(Clone, Debug, PartialEq, Eq)]
pub struct AggregatedKey {
    pub namespace: u32,
    pub parameter: u32,
    pub payload: Vec<Scalar>,
}

/// The value of one setting, tagged like its key.
#[derive(Clone, Debug, PartialEq, Eq)]
pub struct AggregatedValue {
    pub namespace: u32,
    pub parameter: u32,
    pub value: Vec<Scalar>,
}

/// What a key is: two discriminants and the fields of the payload.
pub struct KeyModel {
    pub namespace: u32,
    pub parameter: u32,
    pub payload: Seq<Scalar>,
}

/// What a value is: the discriminants of its parameter and its fields.
pub struct ValueModel {
    pub namespace: u32,
    pub parameter: u32,
    pub value: Seq<Scalar>,
}

impl View for AggregatedKey {
    type V = KeyModel;

    open spec fn view(&self) -> KeyModel {
        KeyModel { namespace: self.namespace, parameter: self.parameter, payload: self.payload@ }
    }
}

impl View for AggregatedValue {
    type V = ValueModel;

    open spec fn view(&self) -> ValueModel {
        ValueModel { namespace: self.namespace, parameter: self.parameter, value: self.value@ }
    }
}

/// The bytes of a key.
pub open spec fn key_bytes(k: KeyModel) -> Seq<u8> {
    compact_bytes(k.namespace) + compact_bytes(k.parameter) + datum_bytes(k.payload)
}

/// The bytes of a value.
pub open spec fn value_bytes(v: ValueModel) -> Seq<u8> {
    datum_bytes(v.value)
}

impl AggregatedKey {
    /// A copy of this key.
    pub fn duplicate(&self) -> (copy: AggregatedKey)
        ensures
            copy@ == self@,
    {
        AggregatedKey {
            namespace: self.namespace,
            parameter: self.parameter,
            payload: duplicate(&self.payload),
        }
    }
}

impl AggregatedValue {
    /// A copy of this value.
    pub fn duplicate(&self) -> (copy: AggregatedValue)
        ensures
            copy@ == self@,
    {
        AggregatedValue {
            namespace: self.namespace,
            parameter: self.parameter,
            value: duplicate(&self.value),
        }
    }
}

impl Registry {
    /// `k` names a registered parameter and its payload has the declared shape.
    pub open spec fn is_key(&self, k: KeyModel) -> bool {
        match find(self.defs(), k.namespace, k.parameter) {
            Ok(p) => shape_of(k.payload) == p.payload@,
            Err(_) => false,
        }
    }

    /// `k` is a key of this registry and `v` is a value of the same
    /// parameter, with the declared shape.
    pub open spec fn is_value_for(&self, k: KeyModel, v: ValueModel) -> bool {
        &&& self.is_key(k)
        &&& v.namespace == k.namespace
        &&& v.parameter == k.parameter
        &&& shape_of(v.value) == find(self.defs(), k.namespace, k.parameter)->Ok_0.value@
    }

    /// The declared default of the parameter that `k` names.
    pub open spec fn default_for(&self, k: KeyModel) -> ValueModel
        recommends
            self.is_key(k),
    {
        ValueModel {
            namespace: k.namespace,
            parameter: k.parameter,
            value: find(self.defs(), k.namespace, k.parameter)->Ok_0.default@,
        }
    }

    /// The key that `bytes` spell, or why they spell none.
    ///
    /// The namespace discriminant is read first and looked up before
    /// anything else is read; then the parameter discriminant; the rest is
    /// for the namespace to read as the payload of that parameter.
    pub open spec fn key_parse(&self, bytes: Seq<u8>) -> Result<KeyModel, DecodeError> {
        match compact_parse(bytes) {
            None => Err(DecodeError::MalformedPayload),
            Some((namespace, n1)) => match find_namespace(self.defs(), namespace) {
                None => Err(DecodeError::UnknownNamespace),
                Some(space) => match compact_parse(bytes.skip(n1 as int)) {
                    None => Err(DecodeError::MalformedPayload),
                    Some((parameter, n2)) => match space.key_parse(
                        parameter,
                        bytes.skip((n1 + n2) as int),
                    ) {
                        Err(e) => Err(e),
                        Ok(payload) => Ok(KeyModel { namespace, parameter, payload }),
                    },
                },
            },
        }
    }

    /// The value that `bytes` spell under the parameter that `k` names, or
    /// why they spell none.
    pub open spec fn value_parse(&self, bytes: Seq<u8>, k: KeyModel) -> Result<
        ValueModel,
        DecodeError,
    > {
        match find_namespace(self.defs(), k.namespace) {
            None => Err(DecodeError::UnknownNamespace),
            Some(space) => match space.value_parse(k.parameter, bytes) {
                Err(e) => Err(e),
                Ok(value) => Ok(
                    ValueModel { namespace: k.namespace, parameter: k.parameter, value },
                ),
            },
        }
    }

    /// The key of the parameter at (`namespace`, `parameter`) with this
    /// payload: `None` where no such parameter is registered or the payload
    /// has not the declared shape.
    pub fn key(&self, namespace: u32, parameter: u32, payload: Vec<Scalar>) -> (r: Option<
        AggregatedKey,
    >)
        ensures
            match r {
                Some(key) => {
                    &&& key.namespace == namespace
                    &&& key.parameter == parameter
                    &&& key.payload == payload
                    &&& self.is_key(key@)
                },
                None => !self.is_key((KeyModel { namespace, parameter, payload: payload@ })),
            },
    {
        let key = AggregatedKey { namespace, parameter, payload };
        if self.contains_key(&key) {
            Some(key)
        } else {
            None
        }
    }

    /// The value with these fields for the parameter that `key` names:
    /// `None` where `key` is no key of this registry or the fields have not
    /// the declared shape.
    pub fn value(&self, key: &AggregatedKey, fields: Vec<Scalar>) -> (r: Option<AggregatedValue>)
        ensures
            match r {
                Some(value) => {
                    &&& value.namespace == key.namespace
                    &&& value.parameter == key.parameter
                    &&& value.value == fields
                    &&& self.is_value_for(key@, value@)
                },
                None => !self.is_value_for(
                    key@,
                    (ValueModel {
                        namespace: key.namespace,
                        parameter: key.parameter,
                        value: fields@,
                    }),
                ),
            },
    {
        let value = AggregatedValue {
            namespace: key.namespace,
            parameter: key.parameter,
            value: fields,
        };
        if self.accepts(key, &value) {
            Some(value)
        } else {
            None
        }
    }

    /// Whether `key` names a registered parameter with a payload of the
    /// declared shape.
    pub fn contains_key(&self, key: &AggregatedKey) -> (r: bool)
        ensures
            r == self.is_key(key@),
    {
        match self.parameter(key.namespace, key.parameter) {
            Ok(p) => has_shape(&key.payload, &p.payload),
            Err(_) => false,
        }
    }

    /// Whether `value` can be stored under `key`.
    pub fn accepts(&self, key: &AggregatedKey, value: &AggregatedValue) -> (r: bool)
        ensures
            r == self.is_value_for(key@, value@),
    {
        match self.parameter(key.namespace, key.parameter) {
            Ok(p) => has_shape(&key.payload, &p.payload) && value.namespace == key.namespace
                && value.parameter == key.parameter && has_shape(&value.value, &p.value),
            Err(_) => false,
        }
    }

    /// The declared default for `key`: `None` where `key` is no key of this
    /// registry.
    pub fn default_value(&self, key: &AggregatedKey) -> (r: Option<AggregatedValue>)
        requires
            self.wf(),
        ensures
            match r {
                Some(v) => self.is_key(key@) && v@ == self.default_for(key@) && self.is_value_for(
                    key@,
                    v@,
                ),
                None => !self.is_key(key@),
            },
    {
        match self.parameter(key.namespace, key.parameter) {
            Ok(p) => {
                if has_shape(&key.payload, &p.payload) {
                    proof {
                        lemma_found_default_typed(*self, key.namespace, key.parameter);
                    }
                    Some(
                        AggregatedValue {
                            namespace: key.namespace,
                            parameter: key.parameter,
                            value: duplicate(&p.default),
                        },
                    )
                } else {
                    None
                }
            },
            Err(_) => None,
        }
    }

    /// The bytes of `key`. Every key has bytes, registered or not.
    pub fn encode_key(&self, key: &AggregatedKey) -> (bytes: Vec<u8>)
        ensures
            bytes@ == key_bytes(key@),
            self.is_key(key@) ==> self.key_parse(bytes@) == Ok::<KeyModel, DecodeError>(key@),
    {
        let mut bytes: Vec<u8> = Vec::new();
        put_compact(&mut bytes, key.namespace);
        put_compact(&mut bytes, key.parameter);
        put_datum(&mut bytes, &key.payload);
        proof {
            assert(bytes@ =~= key_bytes(key@));
            if self.is_key(key@) {
                law_key_round_trip(*self, key@);
            }
        }
        bytes
    }

    /// The key that `bytes` spell.
    ///
    /// Fails with `UnknownNamespace` where the leading discriminant is not
    /// registered, with `UnknownParameter` where the second is not
    /// registered in that namespace, and with `MalformedPayload` where a
    /// discriminant or the payload cannot be read or bytes are left over.
    pub fn decode_key(&self, bytes: &[u8]) -> (r: Result<AggregatedKey, DecodeError>)
        ensures
            match r {
                Ok(key) => self.key_parse(bytes@) == Ok::<KeyModel, DecodeError>(key@),
                Err(e) => self.key_parse(bytes@) == Err::<KeyModel, DecodeError>(e),
            },
            r is Ok ==> self.is_key(r->Ok_0@) && key_bytes(r->Ok_0@) == bytes@,
    {
        proof {
            assert(bytes@.skip(0) =~= bytes@);
            if self.key_parse(bytes@) is Ok {
                law_key_bytes_canonical(*self, bytes@);
            }
        }
        let (namespace, after_namespace) = match take_compact(bytes, 0) {
            None => {
                return Err(DecodeError::MalformedPayload);
            },
            Some(pair) => pair,
        };
        let space = match self.namespace(namespace) {
            None => {
                return Err(DecodeError::UnknownNamespace);
            },
            Some(space) => space,
        };
        let (parameter, after_parameter) = match take_compact(bytes, after_namespace) {
            None => {
                return Err(DecodeError::MalformedPayload);
            },
            Some(pair) => pair,
        };
        let rest = slice_subrange(bytes, after_parameter, bytes.len());
        proof {
            assert(rest@ =~= bytes@.skip(after_parameter as int));
        }
        match space.decode_key(parameter, rest) {
            Err(e) => Err(e),
            Ok(payload) => Ok(AggregatedKey { namespace, parameter, payload }),
        }
    }

    /// The bytes of `value`: its fields, with no framing.
    pub fn encode_value(&self, value: &AggregatedValue) -> (bytes: Vec<u8>)
        ensures
            bytes@ == value_bytes(value@),
    {
        let mut bytes: Vec<u8> = Vec::new();
        put_datum(&mut bytes, &value.value);
        proof {
            assert(bytes@ =~= value_bytes(value@));
        }
        bytes
    }

    /// The value that `bytes` spell under the parameter that `key` names.
    ///
    /// Fails with `UnknownNamespace` or `UnknownParameter` where `key` names
    /// no registered parameter, and with `MalformedPayload` where `bytes`
    /// are not exactly a value of the declared shape.
    pub fn decode_value(&self, bytes: &[u8], key: &AggregatedKey) -> (r: Result<
        AggregatedValue,
        DecodeError,
    >)
        ensures
            match r {
                Ok(value) => self.value_parse(bytes@, key@) == Ok::<ValueModel, DecodeError>(
                    value@,
                ),
                Err(e) => self.value_parse(bytes@, key@) == Err::<ValueModel, DecodeError>(e),
            },
    {
        match self.namespace(key.namespace) {
            None => Err(DecodeError::UnknownNamespace),
            Some(space) => match space.decode_value(key.parameter, bytes) {
                Err(e) => Err(e),
                Ok(value) => Ok(
                    AggregatedValue { namespace: key.namespace, parameter: key.parameter, value },
                ),
            },
        }
    }
}

/// A key of the registry is read back from its bytes.
pub proof fn law_key_round_trip(registry: Registry, k: KeyModel)
    requires
        registry.is_key(k),
    ensures
        registry.key_parse(key_bytes(k)) == Ok::<KeyModel, DecodeError>(k),
{
    let c1 = compact_bytes(k.namespace);
    let c2 = compact_bytes(k.parameter);
    let d = datum_bytes(k.payload);
    let bytes = key_bytes(k);
    lemma_compact_bytes_len(k.namespace);
    lemma_compact_bytes_len(k.parameter);
    assert(bytes =~= c1 + (c2 + d));
    lemma_compact_parse_of_bytes(k.namespace, c2 + d);
    assert(bytes.skip(c1.len() as int) =~= c2 + d);
    lemma_compact_parse_of_bytes(k.parameter, d);
    assert(bytes.skip((c1.len() + c2.len()) as int) =~= d);
    lemma_datum_parse_of_bytes(k.payload);
}

/// A value that fits a key is read back from its bytes under that key.
pub proof fn law_value_round_trip(registry: Registry, k: KeyModel, v: ValueModel)
    requires
        registry.is_value_for(k, v),
    ensures
        registry.value_parse(value_bytes(v), k) == Ok::<ValueModel, DecodeError>(v),
{
    lemma_datum_parse_of_bytes(v.value);
}

/// Bytes that are read as a key are the bytes of that key, and the key is
/// one of the registry: no key has two spellings.
pub proof fn law_key_bytes_canonical(registry: Registry, bytes: Seq<u8>)
    requires
        registry.key_parse(bytes) is Ok,
    ensures
        registry.is_key(registry.key_parse(bytes)->Ok_0),
        key_bytes(registry.key_parse(bytes)->Ok_0) == bytes,
{
    let k = registry.key_parse(bytes)->Ok_0;
    let (namespace, n1) = compact_parse(bytes)->0;
    let space = find_namespace(registry.defs(), namespace)->0;
    let rest = bytes.skip(n1 as int);
    let (parameter, n2) = compact_parse(rest)->0;
    let p = find_parameter(space.parameters@, parameter)->0;
    let tail = bytes.skip((n1 + n2) as int);
    lemma_compact_bytes_of_parse(bytes);
    lemma_compact_bytes_of_parse(rest);
    lemma_datum_bytes_of_parse(p.payload@, tail);
    assert(bytes =~= bytes.take(n1 as int) + rest.take(n2 as int) + tail);
}

/// Bytes that are read as a value under a key are the bytes of that value,
/// and the value fits the key's parameter.
pub proof fn law_value_bytes_canonical(registry: Registry, bytes: Seq<u8>, k: KeyModel)
    requires
        registry.value_parse(bytes, k) is Ok,
    ensures
        value_bytes(registry.value_parse(bytes, k)->Ok_0) == bytes,
        registry.is_key(k) ==> registry.is_value_for(k, registry.value_parse(bytes, k)->Ok_0),
{
    let p = find(registry.defs(), k.namespace, k.parameter)->Ok_0;
    lemma_datum_bytes_of_parse(p.value@, bytes);
}

/// Two keys of the registry with the same bytes are the same key.
pub proof fn law_key_bytes_injective(registry: Registry, a: KeyModel, b: KeyModel)
    requires
        registry.is_key(a),
        registry.is_key(b),
        key_bytes(a) == key_bytes(b),
    ensures
        a == b,
{
    law_key_round_trip(registry, a);
    law_key_round_trip(registry, b);
}

/// Bytes whose leading discriminant is not registered are refused as an
/// unknown namespace, whatever follows.
pub proof fn law_unknown_namespace(registry: Registry, bytes: Seq<u8>)
    requires
        compact_parse(bytes) matches Some((namespace, _)) && find_namespace(
            registry.defs(),
            namespace,
        ) is None,
    ensures
        registry.key_parse(bytes) == Err::<KeyModel, DecodeError>(DecodeError::UnknownNamespace),
{
}

} // verus!
