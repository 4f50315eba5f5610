//! Scalars and tuples of scalars: the shapes that key payloads and values
//! take, and their bytes.
//!
//! A payload or a value is a tuple of scalars. The empty tuple stands for
//! "no payload". A tuple is written as its fields one after the other, each
//! in little-endian order at the width of its kind, with no framing.

use vstd::prelude::*;
use crate::wire::{
    le_bytes, le_value, lemma_le_bytes_len, lemma_le_bytes_of_value, lemma_le_value_bound,
    lemma_le_value_of_bytes, lemma_pow256_values, put_le, take_le,
};

verus! {

/// The kind of one field.
#[derive(Clone, Copy, Debug, PartialEq, Eq, Structural)]
pub enum ScalarKind {
    Bool,
    U8,
    U16,
    U32,
    U64,
    U128,
}

/// One field with its content.
#[derive(Clone, Copy, Debug, PartialEq, Eq, Structural)]
pub enum Scalar {
    Bool(bool),
    U8(u8),
    U16(u16),
    U32(u32),
    U64(u64),
    U128(u128),
}

impl ScalarKind {
    /// How many bytes a field of this kind takes.
    pub open spec fn spec_width(self) -> nat {
        match self {
            ScalarKind::Bool => 1,
            ScalarKind::U8 => 1,
            ScalarKind::U16 => 2,
            ScalarKind::U32 => 4,
            ScalarKind::U64 => 8,
            ScalarKind::U128 => 16,
        }
    }

    /// How many bytes a field of this kind takes.
    pub fn width(self) -> (w: usize)
        ensures
            w == self.spec_width(),
            1 <= w <= 16,
    {
        match self {
            ScalarKind::Bool => 1,
            ScalarKind::U8 => 1,
            ScalarKind::U16 => 2,
            ScalarKind::U32 => 4,
            ScalarKind::U64 => 8,
            ScalarKind::U128 => 16,
        }
    }
}

impl Scalar {
    /// The kind of this field.
    pub open spec fn spec_kind(self) -> ScalarKind {
        match self {
            Scalar::Bool(_) => ScalarKind::Bool,
            Scalar::U8(_) => ScalarKind::U8,
            Scalar::U16(_) => ScalarKind::U16,
            Scalar::U32(_) => ScalarKind::U32,
            Scalar::U64(_) => ScalarKind::U64,
            Scalar::U128(_) => ScalarKind::U128,
        }
    }

    /// The kind of this field.
    #[verifier::when_used_as_spec(spec_kind)]
    pub fn kind(self) -> (k: ScalarKind)
        ensures
            k == self.spec_kind(),
    {
        match self {
            Scalar::Bool(_) => ScalarKind::Bool,
            Scalar::U8(_) => ScalarKind::U8,
            Scalar::U16(_) => ScalarKind::U16,
            Scalar::U32(_) => ScalarKind::U32,
            Scalar::U64(_) => ScalarKind::U64,
            Scalar::U128(_) => ScalarKind::U128,
        }
    }

    /// The field as a number: `false` is 0 and `true` is 1.
    pub open spec fn number(self) -> nat {
        match self {
            Scalar::Bool(b) => if b {
                1
            } else {
                0
            },
            Scalar::U8(v) => v as nat,
            Scalar::U16(v) => v as nat,
            Scalar::U32(v) => v as nat,
            Scalar::U64(v) => v as nat,
            Scalar::U128(v) => v as nat,
        }
    }

    /// The field of kind `kind` that stands for `n`, if there is one.
    pub open spec fn from_number(kind: ScalarKind, n: nat) -> Option<Scalar> {
        match kind {
            ScalarKind::Bool => if n == 0 {
                Some(Scalar::Bool(false))
            } else if n == 1 {
                Some(Scalar::Bool(true))
            } else {
                None
            },
            ScalarKind::U8 => if n <= u8::MAX {
                Some(Scalar::U8(n as u8))
            } else {
                None
            },
            ScalarKind::U16 => if n <= u16::MAX {
                Some(Scalar::U16(n as u16))
            } else {
                None
            },
            ScalarKind::U32 => if n <= u32::MAX {
                Some(Scalar::U32(n as u32))
            } else {
                None
            },
            ScalarKind::U64 => if n <= u64::MAX {
                Some(Scalar::U64(n as u64))
            } else {
                None
            },
            ScalarKind::U128 => if n <= u128::MAX {
                Some(Scalar::U128(n as u128))
            } else {
                None
            },
        }
    }

    /// The zero of a kind: `false` for `Bool`.
    pub open spec fn spec_zero(kind: ScalarKind) -> Scalar {
        match kind {
            ScalarKind::Bool => Scalar::Bool(false),
            ScalarKind::U8 => Scalar::U8(0),
            ScalarKind::U16 => Scalar::U16(0),
            ScalarKind::U32 => Scalar::U32(0),
            ScalarKind::U64 => Scalar::U64(0),
            ScalarKind::U128 => Scalar::U128(0),
        }
    }

    /// The zero of a kind: `false` for `Bool`.
    pub fn zero(kind: ScalarKind) -> (s: Scalar)
        ensures
            s == Scalar::spec_zero(kind),
            s.spec_kind() == kind,
    {
        match kind {
            ScalarKind::Bool => Scalar::Bool(false),
            ScalarKind::U8 => Scalar::U8(0),
            ScalarKind::U16 => Scalar::U16(0),
            ScalarKind::U32 => Scalar::U32(0),
            ScalarKind::U64 => Scalar::U64(0),
            ScalarKind::U128 => Scalar::U128(0),
        }
    }
}

/// The bytes of one field.
pub open spec fn scalar_bytes(s: Scalar) -> Seq<u8> {
    le_bytes(s.number(), s.spec_kind().spec_width())
}

/// The field of kind `kind` that `bytes` spell: `None` unless `bytes` has
/// exactly the width of the kind and, for `Bool`, spells 0 or 1.
pub open spec fn scalar_parse(kind: ScalarKind, bytes: Seq<u8>) -> Option<Scalar> {
    if bytes.len() != kind.spec_width() {
        None
    } else {
        Scalar::from_number(kind, le_value(bytes))
    }
}

/// The kinds of the fields of a tuple, in order.
pub open spec fn shape_of(values: Seq<Scalar>) -> Seq<ScalarKind> {
    values.map_values(|s: Scalar| s.spec_kind())
}

/// The bytes of a tuple: its fields one after the other.
pub open spec fn datum_bytes(values: Seq<Scalar>) -> Seq<u8>
    decreases values.len(),
{
    if values.len() == 0 {
        Seq::empty()
    } else {
        scalar_bytes(values[0]) + datum_bytes(values.skip(1))
    }
}

/// The tuple of shape `shape` that `bytes` spell: `None` unless every field
/// parses and no byte is left over.
pub open spec fn datum_parse(shape: Seq<ScalarKind>, bytes: Seq<u8>) -> Option<Seq<Scalar>>
    decreases shape.len(),
{
    if shape.len() == 0 {
        if bytes.len() == 0 {
            Some(Seq::empty())
        } else {
            None
        }
    } else {
        let w = shape[0].spec_width() as int;
        if bytes.len() < w {
            None
        } else {
            match (
                scalar_parse(shape[0], bytes.take(w)),
                datum_parse(shape.skip(1), bytes.skip(w)),
            ) {
                (Some(first), Some(rest)) => Some(seq![first] + rest),
                _ => None,
            }
        }
    }
}

/// The tuple of zeros of a shape.
pub open spec fn zeros(shape: Seq<ScalarKind>) -> Seq<Scalar> {
    shape.map_values(|k: ScalarKind| Scalar::spec_zero(k))
}

/// A field is read back from its bytes.
pub proof fn lemma_scalar_parse_of_bytes(s: Scalar)
    ensures
        scalar_bytes(s).len() == s.spec_kind().spec_width(),
        scalar_parse(s.spec_kind(), scalar_bytes(s)) == Some(s),
{
    let w = s.spec_kind().spec_width();
    lemma_le_bytes_len(s.number(), w);
    lemma_pow256_values();
    lemma_le_value_of_bytes(s.number(), w);
}

/// The bytes that parse as a field are the bytes of that field.
pub proof fn lemma_scalar_bytes_of_parse(kind: ScalarKind, bytes: Seq<u8>)
    requires
        scalar_parse(kind, bytes) is Some,
    ensures
        scalar_parse(kind, bytes)->0.spec_kind() == kind,
        scalar_bytes(scalar_parse(kind, bytes)->0) == bytes,
{
    lemma_le_value_bound(bytes);
    lemma_pow256_values();
    lemma_le_bytes_of_value(bytes);
}

/// A tuple is read back from its bytes under its own shape.
pub proof fn lemma_datum_parse_of_bytes(values: Seq<Scalar>)
    ensures
        datum_parse(shape_of(values), datum_bytes(values)) == Some(values),
    decreases values.len(),
{
    let shape = shape_of(values);
    let bytes = datum_bytes(values);
    if values.len() == 0 {
        assert(values =~= Seq::<Scalar>::empty());
    } else {
        let head = scalar_bytes(values[0]);
        let tail = datum_bytes(values.skip(1));
        lemma_scalar_parse_of_bytes(values[0]);
        lemma_datum_parse_of_bytes(values.skip(1));
        let w = shape[0].spec_width() as int;
        assert(bytes.take(w) =~= head);
        assert(bytes.skip(w) =~= tail);
        assert(shape.skip(1) =~= shape_of(values.skip(1)));
        assert(seq![values[0]] + values.skip(1) =~= values);
    }
}

/// The bytes that parse as a tuple are the bytes of that tuple, and the
/// tuple has the shape asked for.
pub proof fn lemma_datum_bytes_of_parse(shape: Seq<ScalarKind>, bytes: Seq<u8>)
    requires
        datum_parse(shape, bytes) is Some,
    ensures
        shape_of(datum_parse(shape, bytes)->0) == shape,
        datum_bytes(datum_parse(shape, bytes)->0) == bytes,
    decreases shape.len(),
{
    let values = datum_parse(shape, bytes)->0;
    if shape.len() == 0 {
        assert(shape_of(values) =~= shape);
        assert(datum_bytes(values) =~= bytes);
    } else {
        let w = shape[0].spec_width() as int;
        let first = scalar_parse(shape[0], bytes.take(w))->0;
        let rest = datum_parse(shape.skip(1), bytes.skip(w))->0;
        lemma_scalar_bytes_of_parse(shape[0], bytes.take(w));
        lemma_datum_bytes_of_parse(shape.skip(1), bytes.skip(w));
        assert(values =~= seq![first] + rest);
        assert(values.skip(1) =~= rest);
        assert(shape_of(values) =~= shape) by {
            assert forall|i: int| 0 <= i < shape.len() implies shape_of(values)[i] == shape[i] by {
                if i > 0 {
                    assert(shape_of(rest)[i - 1] == shape.skip(1)[i - 1]);
                }
            }
        }
        assert(bytes.take(w) + bytes.skip(w) =~= bytes);
    }
}

/// The zeros of a shape have that shape.
pub proof fn lemma_zeros_shape(shape: Seq<ScalarKind>)
    ensures
        shape_of(zeros(shape)) == shape,
{
    assert(shape_of(zeros(shape)) =~= shape);
}

/// Appends the bytes of one field to `out`.
pub fn put_scalar(out: &mut Vec<u8>, s: &Scalar)
    ensures
        final(out)@ == old(out)@ + scalar_bytes(*s),
{
    match s {
        Scalar::Bool(b) => {
            let n: u128 = if *b {
                1
            } else {
                0
            };
            put_le(out, n, 1)
        },
        Scalar::U8(v) => put_le(out, *v as u128, 1),
        Scalar::U16(v) => put_le(out, *v as u128, 2),
        Scalar::U32(v) => put_le(out, *v as u128, 4),
        Scalar::U64(v) => put_le(out, *v as u128, 8),
        Scalar::U128(v) => put_le(out, *v, 16),
    }
}

/// Reads the field of kind `kind` that starts at `start`.
pub fn take_scalar(kind: ScalarKind, bytes: &[u8], start: usize) -> (r: Option<Scalar>)
    requires
        start + kind.spec_width() <= bytes.len(),
    ensures
        r == scalar_parse(kind, bytes@.subrange(start as int, start + kind.spec_width())),
{
    let n = take_le(bytes, start, kind.width());
    proof {
        lemma_le_value_bound(bytes@.subrange(start as int, start + kind.spec_width()));
        lemma_pow256_values();
    }
    match kind {
        ScalarKind::Bool => if n == 0 {
            Some(Scalar::Bool(false))
        } else if n == 1 {
            Some(Scalar::Bool(true))
        } else {
            None
        },
        ScalarKind::U8 => Some(Scalar::U8(n as u8)),
        ScalarKind::U16 => Some(Scalar::U16(n as u16)),
        ScalarKind::U32 => Some(Scalar::U32(n as u32)),
        ScalarKind::U64 => Some(Scalar::U64(n as u64)),
        ScalarKind::U128 => Some(Scalar::U128(n)),
    }
}

/// Appends the bytes of a tuple to `out`.
pub fn put_datum(out: &mut Vec<u8>, values: &Vec<Scalar>)
    ensures
        final(out)@ == old(out)@ + datum_bytes(values@),
{
    let mut i: usize = 0;
    proof {
        assert(values@.skip(0) =~= values@);
        assert(out@ + datum_bytes(values@) =~= old(out)@ + datum_bytes(values@));
    }
    while i < values.len()
        invariant
            i <= values.len(),
            out@ + datum_bytes(values@.skip(i as int)) == old(out)@ + datum_bytes(values@),
        decreases values.len() - i,
    {
        let ghost before = out@;
        let ghost pending = values@.skip(i as int);
        put_scalar(out, &values[i]);
        proof {
            assert(pending.skip(1) =~= values@.skip(i + 1));
            assert(pending[0] == values@[i as int]);
            assert(out@ + datum_bytes(values@.skip(i + 1)) =~= before + datum_bytes(pending));
        }
        i = i + 1;
    }
    proof {
        assert(values@.skip(i as int) =~= Seq::<Scalar>::empty());
        assert(out@ + datum_bytes(values@.skip(i as int)) =~= out@);
    }
}

/// Reads the tuple of shape `shape` that fills `bytes` from `start` to the end.
pub fn take_datum(shape: &Vec<ScalarKind>, bytes: &[u8], start: usize) -> (r: Option<
    Vec<Scalar>,
>)
    requires
        start <= bytes.len(),
    ensures
        match r {
            Some(values) => datum_parse(shape@, bytes@.skip(start as int)) == Some(values@),
            None => datum_parse(shape@, bytes@.skip(start as int)) is None,
        },
{
    let ghost whole = datum_parse(shape@, bytes@.skip(start as int));
    let mut values: Vec<Scalar> = Vec::new();
    let mut pos: usize = start;
    let mut i: usize = 0;
    proof {
        assert(shape@.skip(0) =~= shape@);
        let rest = datum_parse(shape@.skip(0), bytes@.skip(pos as int));
        if rest is Some {
            assert(values@ + rest->0 =~= rest->0);
        }
    }
    while i < shape.len()
        invariant
            i <= shape.len(),
            start <= pos <= bytes.len(),
            whole == datum_parse(shape@, bytes@.skip(start as int)),
            whole == match datum_parse(shape@.skip(i as int), bytes@.skip(pos as int)) {
                Some(rest) => Some(values@ + rest),
                None => None,
            },
        decreases shape.len() - i,
    {
        let kind = shape[i];
        let w = kind.width();
        let ghost pending = shape@.skip(i as int);
        let ghost tail = bytes@.skip(pos as int);
        proof {
            assert(pending[0] == kind);
            assert(pending.skip(1) =~= shape@.skip(i + 1));
        }
        if bytes.len() - pos < w {
            return None;
        }
        proof {
            assert(tail.take(w as int) =~= bytes@.subrange(pos as int, pos + w));
            assert(tail.skip(w as int) =~= bytes@.skip(pos + w));
        }
        match take_scalar(kind, bytes, pos) {
            None => {
                return None;
            },
            Some(s) => {
                proof {
                    let rest = datum_parse(shape@.skip(i + 1), bytes@.skip(pos + w));
                    if rest is Some {
                        assert(values@.push(s) + rest->0 =~= values@ + (seq![s] + rest->0));
                    }
                }
                values.push(s);
            },
        }
        pos = pos + w;
        i = i + 1;
    }
    proof {
        assert(shape@.skip(i as int) =~= Seq::<ScalarKind>::empty());
    }
    if pos == bytes.len() {
        proof {
            assert(values@ + Seq::<Scalar>::empty() =~= values@);
        }
        Some(values)
    } else {
        None
    }
}

/// Whether a tuple has the shape `shape`.
pub fn has_shape(values: &Vec<Scalar>, shape: &Vec<ScalarKind>) -> (r: bool)
    ensures
        r == (shape_of(values@) == shape@),
{
    if values.len() != shape.len() {
        return false;
    }
    let mut i: usize = 0;
    while i < values.len()
        invariant
            i <= values.len(),
            values.len() == shape.len(),
            forall|j: int| 0 <= j < i ==> shape_of(values@)[j] == shape@[j],
        decreases values.len() - i,
    {
        if values[i].kind() != shape[i] {
            proof {
                assert(shape_of(values@)[i as int] != shape@[i as int]);
            }
            return false;
        }
        i = i + 1;
    }
    proof {
        assert(shape_of(values@) =~= shape@);
    }
    true
}

/// A copy of a tuple.
pub fn duplicate(values: &Vec<Scalar>) -> (copy: Vec<Scalar>)
    ensures
        copy@ == values@,
{
    let mut copy: Vec<Scalar> = Vec::new();
    let mut i: usize = 0;
    while i < values.len()
        invariant
            i <= values.len(),
            copy@ == values@.take(i as int),
        decreases values.len() - i,
    {
        copy.push(values[i]);
        proof {
            assert(copy@ =~= values@.take(i + 1));
        }
        i = i + 1;
    }
    proof {
        assert(values@.take(i as int) =~= values@);
    }
    copy
}

/// The tuple of zeros of a shape.
pub fn zeros_of(shape: &Vec<ScalarKind>) -> (values: Vec<Scalar>)
    ensures
        values@ == zeros(shape@),
{
    let mut values: Vec<Scalar> = Vec::new();
    let mut i: usize = 0;
    while i < shape.len()
        invariant
            i <= shape.len(),
            values@ == zeros(shape@.take(i as int)),
        decreases shape.len() - i,
    {
        values.push(Scalar::zero(shape[i]));
        proof {
            assert(values@ =~= zeros(shape@.take(i + 1)));
        }
        i = i + 1;
    }
    proof {
        assert(shape@.take(i as int) =~= shape@);
    }
    values
}

} // verus!
