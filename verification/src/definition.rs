//! Namespace definitions.
//!
//! A namespace is one module's closed list of parameters. Each parameter
//! has a stable discriminant, the shape of its key payload (empty for none),
//! the shape of its value and a default. The discriminants are the lasting
//! identity of a setting: once given out they are never used for another.

use vstd::prelude::*;
use crate::scalar::{datum_parse, shape_of, take_datum, Scalar, ScalarKind};

verus! {

/// One parameter of a namespace.
#[derive(Clone, Debug, PartialEq, Eq)]
pub struct ParameterDef {
    pub name: String,
    pub discriminant: u32,
    /// The shape of the key payload: empty where the parameter has none.
    pub payload: Vec<ScalarKind>,
    /// The shape of the value.
    pub value: Vec<ScalarKind>,
    /// What a read returns before the first write.
    pub default: Vec<Scalar>,
}

/// One module's parameters.
#[derive(Clone, Debug, PartialEq, Eq)]
pub struct NamespaceDef {
    pub name: String,
    pub discriminant: u32,
    pub parameters: Vec<ParameterDef>,
}

/// Why bytes are not a key or a value of a registry.
#[derive(Clone, Copy, Debug, PartialEq, Eq, Structural)]
pub enum DecodeError {
    /// The namespace discriminant is not registered.
    UnknownNamespace,
    /// The namespace is registered, the parameter discriminant is not.
    UnknownParameter,
    /// The bytes end too early, go on too long, or spell a field wrongly.
    MalformedPayload,
}

/// The default of a parameter has the shape of its value.
pub open spec fn default_typed(p: ParameterDef) -> bool {
    shape_of(p.default@) == p.value@
}

/// The first parameter with discriminant `d`.
pub open spec fn find_parameter(params: Seq<ParameterDef>, d: u32) -> Option<ParameterDef>
    decreases params.len(),
{
    if params.len() == 0 {
        None
    } else if params[0].discriminant == d {
        Some(params[0])
    } else {
        find_parameter(params.skip(1), d)
    }
}

/// A parameter that is found is one of the list, and none is found only
/// where none of the list has the discriminant.
pub proof fn lemma_find_parameter(params: Seq<ParameterDef>, d: u32)
    ensures
        match find_parameter(params, d) {
            Some(p) => p.discriminant == d && exists|j: int|
                0 <= j < params.len() && params[j] == p,
            None => forall|j: int| 0 <= j < params.len() ==> params[j].discriminant != d,
        },
    decreases params.len(),
{
    if params.len() > 0 && params[0].discriminant != d {
        let tail = params.skip(1);
        lemma_find_parameter(tail, d);
        match find_parameter(tail, d) {
            Some(p) => {
                let j = choose|j: int| 0 <= j < tail.len() && tail[j] == p;
                assert(params[j + 1] == p);
            },
            None => {
                assert forall|j: int| 0 <= j < params.len() implies params[j].discriminant
                    != d by {
                    if j > 0 {
                        assert(tail[j - 1].discriminant != d);
                    }
                }
            },
        }
    } else if params.len() > 0 {
        assert(params[0] == params[0]);
    }
}

impl ParameterDef {
    /// A parameter with the given discriminant, shapes and default.
    pub fn new(
        name: &str,
        discriminant: u32,
        payload: Vec<ScalarKind>,
        value: Vec<ScalarKind>,
        default: Vec<Scalar>,
    ) -> (p: ParameterDef)
        ensures
            p.name@ == name@,
            p.discriminant == discriminant,
            p.payload == payload,
            p.value == value,
            p.default == default,
    {
        ParameterDef { name: name.to_owned(), discriminant, payload, value, default }
    }

    /// The payload that `bytes` spell for this parameter: `None` unless they
    /// are exactly a payload of the declared shape.
    pub fn decode_payload(&self, bytes: &[u8]) -> (r: Option<Vec<Scalar>>)
        ensures
            match r {
                Some(payload) => datum_parse(self.payload@, bytes@) == Some(payload@),
                None => datum_parse(self.payload@, bytes@) is None,
            },
    {
        proof {
            assert(bytes@.skip(0) =~= bytes@);
        }
        take_datum(&self.payload, bytes, 0)
    }

    /// The value that `bytes` spell for this parameter: `None` unless they
    /// are exactly a value of the declared shape.
    pub fn decode_value(&self, bytes: &[u8]) -> (r: Option<Vec<Scalar>>)
        ensures
            match r {
                Some(value) => datum_parse(self.value@, bytes@) == Some(value@),
                None => datum_parse(self.value@, bytes@) is None,
            },
    {
        proof {
            assert(bytes@.skip(0) =~= bytes@);
        }
        take_datum(&self.value, bytes, 0)
    }
}

impl NamespaceDef {
    /// A namespace with the given discriminant and parameters.
    pub fn new(name: &str, discriminant: u32, parameters: Vec<ParameterDef>) -> (n: NamespaceDef)
        ensures
            n.name@ == name@,
            n.discriminant == discriminant,
            n.parameters == parameters,
    {
        NamespaceDef { name: name.to_owned(), discriminant, parameters }
    }

    /// The parameter with discriminant `d`.
    pub fn parameter(&self, d: u32) -> (r: Option<&ParameterDef>)
        ensures
            match r {
                Some(p) => find_parameter(self.parameters@, d) == Some(*p),
                None => find_parameter(self.parameters@, d) is None,
            },
    {
        let mut j: usize = 0;
        proof {
            assert(self.parameters@.skip(0) =~= self.parameters@);
        }
        while j < self.parameters.len()
            invariant
                j <= self.parameters.len(),
                find_parameter(self.parameters@, d) == find_parameter(
                    self.parameters@.skip(j as int),
                    d,
                ),
            decreases self.parameters.len() - j,
        {
            proof {
                assert(self.parameters@.skip(j as int).skip(1) =~= self.parameters@.skip(j + 1));
            }
            if self.parameters[j].discriminant == d {
                return Some(&self.parameters[j]);
            }
            j = j + 1;
        }
        None
    }

    /// The payload that `bytes` spell for the parameter with discriminant
    /// `parameter`, or why they spell none.
    pub open spec fn key_parse(&self, parameter: u32, bytes: Seq<u8>) -> Result<
        Seq<Scalar>,
        DecodeError,
    > {
        match find_parameter(self.parameters@, parameter) {
            None => Err(DecodeError::UnknownParameter),
            Some(p) => match datum_parse(p.payload@, bytes) {
                None => Err(DecodeError::MalformedPayload),
                Some(payload) => Ok(payload),
            },
        }
    }

    /// The value that `bytes` spell for the parameter with discriminant
    /// `parameter`, or why they spell none.
    pub open spec fn value_parse(&self, parameter: u32, bytes: Seq<u8>) -> Result<
        Seq<Scalar>,
        DecodeError,
    > {
        match find_parameter(self.parameters@, parameter) {
            None => Err(DecodeError::UnknownParameter),
            Some(p) => match datum_parse(p.value@, bytes) {
                None => Err(DecodeError::MalformedPayload),
                Some(value) => Ok(value),
            },
        }
    }

    /// Reads `bytes` as the payload of the parameter with discriminant
    /// `parameter`.
    ///
    /// Fails with `UnknownParameter` where this namespace has no such
    /// parameter, and with `MalformedPayload` where `bytes` are not exactly
    /// a payload of the declared shape.
    pub fn decode_key(&self, parameter: u32, bytes: &[u8]) -> (r: Result<Vec<Scalar>, DecodeError>)
        ensures
            match r {
                Ok(payload) => self.key_parse(parameter, bytes@) == Ok::<Seq<Scalar>, DecodeError>(
                    payload@,
                ),
                Err(e) => self.key_parse(parameter, bytes@) == Err::<Seq<Scalar>, DecodeError>(e),
            },
    {
        match self.parameter(parameter) {
            None => Err(DecodeError::UnknownParameter),
            Some(p) => match p.decode_payload(bytes) {
                None => Err(DecodeError::MalformedPayload),
                Some(payload) => Ok(payload),
            },
        }
    }

    /// Reads `bytes` as the value of the parameter with discriminant
    /// `parameter`.
    ///
    /// Fails with `UnknownParameter` where this namespace has no such
    /// parameter, and with `MalformedPayload` where `bytes` are not exactly
    /// a value of the declared shape.
    pub fn decode_value(&self, parameter: u32, bytes: &[u8]) -> (r: Result<
        Vec<Scalar>,
        DecodeError,
    >)
        ensures
            match r {
                Ok(value) => self.value_parse(parameter, bytes@) == Ok::<Seq<Scalar>, DecodeError>(
                    value@,
                ),
                Err(e) => self.value_parse(parameter, bytes@) == Err::<Seq<Scalar>, DecodeError>(
                    e,
                ),
            },
    {
        match self.parameter(parameter) {
            None => Err(DecodeError::UnknownParameter),
            Some(p) => match p.decode_value(bytes) {
                None => Err(DecodeError::MalformedPayload),
                Some(value) => Ok(value),
            },
        }
    }
}

} // verus!
