//! Integers on the wire: fixed-width little-endian numbers and the compact
//! form used for discriminants.

use vstd::prelude::*;

verus! {

/// 256 to the power `n`.
pub open spec fn pow256(n: nat) -> nat
    decreases n,
{
    if n == 0 {
        1
    } else {
        256 * pow256((n - 1) as nat)
    }
}

/// The `width` low-order bytes of `x`, least significant first.
pub open spec fn le_bytes(x: nat, width: nat) -> Seq<u8>
    decreases width,
{
    if width == 0 {
        Seq::empty()
    } else {
        seq![(x % 256) as u8] + le_bytes(x / 256, (width - 1) as nat)
    }
}

/// The number that `bytes` spell, least significant byte first.
pub open spec fn le_value(bytes: Seq<u8>) -> nat
    decreases bytes.len(),
{
    if bytes.len() == 0 {
        0
    } else {
        bytes[0] as nat + 256 * le_value(bytes.skip(1))
    }
}

/// No power of 256 is zero.
pub proof fn lemma_pow256_positive(n: nat)
    ensures
        pow256(n) > 0,
    decreases n,
{
    if n > 0 {
        lemma_pow256_positive((n - 1) as nat);
    }
}

/// A higher power of 256 is no smaller.
pub proof fn lemma_pow256_monotonic(a: nat, b: nat)
    requires
        a <= b,
    ensures
        pow256(a) <= pow256(b),
    decreases b,
{
    if a < b {
        lemma_pow256_monotonic(a, (b - 1) as nat);
        lemma_pow256_positive((b - 1) as nat);
    }
}

/// The widths that the scalar kinds use, as plain numbers.
pub proof fn lemma_pow256_values()
    ensures
        pow256(0) == 1,
        pow256(1) == 0x100,
        pow256(2) == 0x1_0000,
        pow256(4) == 0x1_0000_0000,
        pow256(8) == 0x1_0000_0000_0000_0000,
        pow256(16) == 0x1_0000_0000_0000_0000_0000_0000_0000_0000,
{
    reveal_with_fuel(pow256, 17);
}

/// A number written at a width takes that many bytes.
pub proof fn lemma_le_bytes_len(x: nat, width: nat)
    ensures
        le_bytes(x, width).len() == width,
    decreases width,
{
    if width > 0 {
        lemma_le_bytes_len(x / 256, (width - 1) as nat);
    }
}

/// What bytes spell is below 256 to the power of their count.
pub proof fn lemma_le_value_bound(bytes: Seq<u8>)
    ensures
        le_value(bytes) < pow256(bytes.len()),
    decreases bytes.len(),
{
    if bytes.len() > 0 {
        lemma_le_value_bound(bytes.skip(1));
    }
}

/// Reading back what was written gives the number, when it fits the width.
pub proof fn lemma_le_value_of_bytes(x: nat, width: nat)
    requires
        x < pow256(width),
    ensures
        le_value(le_bytes(x, width)) == x,
    decreases width,
{
    if width > 0 {
        let rest = le_bytes(x / 256, (width - 1) as nat);
        let all = le_bytes(x, width);
        lemma_le_bytes_len(x / 256, (width - 1) as nat);
        assert(all.skip(1) =~= rest);
        lemma_le_value_of_bytes(x / 256, (width - 1) as nat);
    }
}

/// Writing the number that bytes spell gives the same bytes.
pub proof fn lemma_le_bytes_of_value(bytes: Seq<u8>)
    ensures
        le_bytes(le_value(bytes), bytes.len()) == bytes,
    decreases bytes.len(),
{
    if bytes.len() > 0 {
        let tail = bytes.skip(1);
        lemma_le_bytes_of_value(tail);
        let x = le_value(bytes);
        assert(x % 256 == bytes[0] as nat);
        assert(x / 256 == le_value(tail));
        assert(le_bytes(x, bytes.len()) =~= bytes);
    } else {
        assert(le_bytes(le_value(bytes), 0) =~= bytes);
    }
}

/// One more byte at the end: the next digit of `x` in base 256.
pub proof fn lemma_le_bytes_push(x: nat, width: nat)
    ensures
        le_bytes(x, width + 1) == le_bytes(x, width).push(((x / pow256(width)) % 256) as u8),
    decreases width,
{
    let digit = ((x / pow256(width)) % 256) as u8;
    if width == 0 {
        assert(pow256(0) == 1);
        assert(x / 1 == x);
        assert(digit == (x % 256) as u8);
        assert(le_bytes(x / 256, 0) =~= Seq::<u8>::empty());
        assert(le_bytes(x, 0) =~= Seq::<u8>::empty());
        assert(le_bytes(x, 1) =~= seq![(x % 256) as u8] + le_bytes(x / 256, 0));
        assert(le_bytes(x, 1) =~= le_bytes(x, 0).push(digit));
    } else {
        let p = pow256((width - 1) as nat);
        let shorter = le_bytes(x / 256, (width - 1) as nat);
        lemma_le_bytes_push(x / 256, (width - 1) as nat);
        lemma_pow256_positive((width - 1) as nat);
        assert(pow256(width) == 256 * p);
        assert((x / 256) / p == x / (256 * p)) by (nonlinear_arith)
            requires
                p > 0,
        ;
        assert(le_bytes(x / 256, width) == shorter.push(digit));
        assert(le_bytes(x, width) =~= seq![(x % 256) as u8] + shorter);
        assert(le_bytes(x, width + 1) =~= seq![(x % 256) as u8] + shorter.push(digit));
        assert(le_bytes(x, width + 1) =~= le_bytes(x, width).push(digit));
    }
}

/// Appends the `width` low-order bytes of `x` to `out`, least significant first.
pub fn put_le(out: &mut Vec<u8>, x: u128, width: usize)
    requires
        width <= 16,
    ensures
        final(out)@ == old(out)@ + le_bytes(x as nat, width as nat),
{
    let mut rest: u128 = x;
    let mut i: usize = 0;
    proof {
        assert(pow256(0) == 1);
        assert(out@ =~= old(out)@ + le_bytes(x as nat, 0));
    }
    while i < width
        invariant
            i <= width <= 16,
            out@ == old(out)@ + le_bytes(x as nat, i as nat),
            rest as nat == (x as nat) / pow256(i as nat),
        decreases width - i,
    {
        let digit: u8 = (rest % 256) as u8;
        proof {
            lemma_le_bytes_push(x as nat, i as nat);
            lemma_pow256_positive(i as nat);
            let p = pow256(i as nat);
            assert(((x as nat) / p) / 256 == (x as nat) / (256 * p)) by (nonlinear_arith)
                requires
                    p > 0,
            ;
            assert(out@.push(digit) =~= old(out)@ + le_bytes(x as nat, (i + 1) as nat));
        }
        out.push(digit);
        rest = rest / 256;
        i = i + 1;
    }
}

/// Reads the `width` bytes of `bytes` that start at `start` as one number.
pub fn take_le(bytes: &[u8], start: usize, width: usize) -> (x: u128)
    requires
        width <= 16,
        start + width <= bytes.len(),
    ensures
        x as nat == le_value(bytes@.subrange(start as int, start + width)),
{
    let mut acc: u128 = 0;
    let mut i: usize = width;
    proof {
        assert(bytes@.subrange(start + width, start + width).len() == 0);
    }
    while i > 0
        invariant
            i <= width <= 16,
            start + width <= bytes.len(),
            acc as nat == le_value(bytes@.subrange(start + i, start + width)),
        decreases i,
    {
        let ghost upper = bytes@.subrange(start + i, start + width);
        i = i - 1;
        let digit: u8 = bytes[start + i];
        proof {
            let now = bytes@.subrange(start + i, start + width);
            assert(now.skip(1) =~= upper);
            assert(now[0] == digit);
            lemma_le_value_bound(now);
            lemma_pow256_monotonic(now.len(), 16);
            lemma_pow256_values();
        }
        acc = acc * 256 + digit as u128;
    }
    acc
}

/// The compact form of a discriminant: one, two, four or five bytes, the
/// shortest that holds the number. The two low bits of the first byte tell
/// the length.
pub open spec fn compact_bytes(v: u32) -> Seq<u8> {
    if v < 0x40 {
        le_bytes(4 * (v as nat), 1)
    } else if v < 0x4000 {
        le_bytes(4 * (v as nat) + 1, 2)
    } else if v < 0x4000_0000 {
        le_bytes(4 * (v as nat) + 2, 4)
    } else {
        seq![3u8] + le_bytes(v as nat, 4)
    }
}

/// Reads a compact discriminant from the front of `bytes`: the number and
/// how many bytes it took. `None` where the bytes end too early or spell
/// the number in a longer form than needed.
pub open spec fn compact_parse(bytes: Seq<u8>) -> Option<(u32, nat)> {
    if bytes.len() == 0 {
        None
    } else if bytes[0] % 4 == 0 {
        Some(((bytes[0] / 4) as u32, 1))
    } else if bytes[0] % 4 == 1 {
        if bytes.len() >= 2 && le_value(bytes.take(2)) / 4 >= 0x40 {
            Some(((le_value(bytes.take(2)) / 4) as u32, 2))
        } else {
            None
        }
    } else if bytes[0] % 4 == 2 {
        if bytes.len() >= 4 && le_value(bytes.take(4)) / 4 >= 0x4000 {
            Some(((le_value(bytes.take(4)) / 4) as u32, 4))
        } else {
            None
        }
    } else {
        if bytes[0] == 3 && bytes.len() >= 5 && le_value(bytes.subrange(1, 5)) >= 0x4000_0000 {
            Some((le_value(bytes.subrange(1, 5)) as u32, 5))
        } else {
            None
        }
    }
}

/// A compact discriminant takes between one and five bytes.
pub proof fn lemma_compact_bytes_len(v: u32)
    ensures
        1 <= compact_bytes(v).len() <= 5,
{
    lemma_le_bytes_len(4 * (v as nat), 1);
    lemma_le_bytes_len(4 * (v as nat) + 1, 2);
    lemma_le_bytes_len(4 * (v as nat) + 2, 4);
    lemma_le_bytes_len(v as nat, 4);
}

/// A compact discriminant is read back whatever follows it.
pub proof fn lemma_compact_parse_of_bytes(v: u32, rest: Seq<u8>)
    ensures
        compact_parse(compact_bytes(v) + rest) == Some((v, compact_bytes(v).len())),
{
    let enc = compact_bytes(v);
    let all = enc + rest;
    lemma_compact_bytes_len(v);
    lemma_pow256_values();
    assert(all[0] == enc[0]);
    if v < 0x40 {
        reveal_with_fuel(le_bytes, 2);
        lemma_le_bytes_len(4 * (v as nat), 1);
    } else if v < 0x4000 {
        let x = 4 * (v as nat) + 1;
        lemma_le_bytes_len(x, 2);
        assert(all.take(2) =~= enc);
        lemma_le_value_of_bytes(x, 2);
        assert(enc[0] == (x % 256) as u8) by {
            reveal_with_fuel(le_bytes, 2);
        }
    } else if v < 0x4000_0000 {
        let x = 4 * (v as nat) + 2;
        lemma_le_bytes_len(x, 4);
        assert(all.take(4) =~= enc);
        lemma_le_value_of_bytes(x, 4);
        assert(enc[0] == (x % 256) as u8) by {
            reveal_with_fuel(le_bytes, 2);
        }
    } else {
        lemma_le_bytes_len(v as nat, 4);
        assert(all.subrange(1, 5) =~= le_bytes(v as nat, 4));
        lemma_le_value_of_bytes(v as nat, 4);
    }
}

/// What is read as a compact discriminant was written as one: no number has
/// two spellings.
pub proof fn lemma_compact_bytes_of_parse(bytes: Seq<u8>)
    requires
        compact_parse(bytes) is Some,
    ensures
        ({
            let (v, n) = compact_parse(bytes)->0;
            &&& n <= bytes.len()
            &&& bytes.take(n as int) == compact_bytes(v)
        }),
{
    let (v, n) = compact_parse(bytes)->0;
    lemma_pow256_values();
    if bytes[0] % 4 == 0 {
        reveal_with_fuel(le_bytes, 2);
        assert(bytes.take(1) =~= compact_bytes(v));
    } else if bytes[0] % 4 == 1 {
        let head = bytes.take(2);
        lemma_le_value_bound(head);
        lemma_le_bytes_of_value(head);
        assert(le_value(head) % 4 == 1) by {
            reveal_with_fuel(le_value, 3);
        }
    } else if bytes[0] % 4 == 2 {
        let head = bytes.take(4);
        lemma_le_value_bound(head);
        lemma_le_bytes_of_value(head);
        assert(le_value(head) % 4 == 2) by {
            reveal_with_fuel(le_value, 2);
        }
    } else {
        let body = bytes.subrange(1, 5);
        lemma_le_value_bound(body);
        lemma_le_bytes_of_value(body);
        assert(bytes.take(5) =~= seq![3u8] + body);
    }
}

/// Appends the compact form of `v` to `out`.
pub fn put_compact(out: &mut Vec<u8>, v: u32)
    ensures
        final(out)@ == old(out)@ + compact_bytes(v),
{
    if v < 0x40 {
        put_le(out, 4 * (v as u128), 1);
    } else if v < 0x4000 {
        put_le(out, 4 * (v as u128) + 1, 2);
    } else if v < 0x4000_0000 {
        put_le(out, 4 * (v as u128) + 2, 4);
    } else {
        out.push(3u8);
        put_le(out, v as u128, 4);
        proof {
            assert(out@ =~= old(out)@ + (seq![3u8] + le_bytes(v as nat, 4)));
        }
    }
}

/// Reads a compact discriminant that starts at `start`: the number and the
/// position after it.
pub fn take_compact(bytes: &[u8], start: usize) -> (r: Option<(u32, usize)>)
    requires
        start <= bytes.len(),
    ensures
        match r {
            Some((v, next)) => {
                &&& compact_parse(bytes@.skip(start as int)) == Some((v, (next - start) as nat))
                &&& start < next <= bytes.len()
            },
            None => compact_parse(bytes@.skip(start as int)) is None,
        },
{
    let ghost tail = bytes@.skip(start as int);
    let len = bytes.len();
    if start >= len {
        return None;
    }
    let first: u8 = bytes[start];
    let mode: u8 = first % 4;
    proof {
        assert(tail[0] == first);
        lemma_pow256_values();
    }
    if mode == 0 {
        Some(((first / 4) as u32, start + 1))
    } else if mode == 1 {
        if len - start < 2 {
            return None;
        }
        let raw = take_le(bytes, start, 2);
        proof {
            assert(tail.take(2) =~= bytes@.subrange(start as int, start + 2));
            lemma_le_value_bound(tail.take(2));
        }
        let x = raw / 4;
        if x >= 0x40 {
            Some((x as u32, start + 2))
        } else {
            None
        }
    } else if mode == 2 {
        if len - start < 4 {
            return None;
        }
        let raw = take_le(bytes, start, 4);
        proof {
            assert(tail.take(4) =~= bytes@.subrange(start as int, start + 4));
            lemma_le_value_bound(tail.take(4));
        }
        let x = raw / 4;
        if x >= 0x4000 {
            Some((x as u32, start + 4))
        } else {
            None
        }
    } else {
        if first != 3 || len - start < 5 {
            return None;
        }
        let x = take_le(bytes, start + 1, 4);
        proof {
            assert(tail.subrange(1, 5) =~= bytes@.subrange(start + 1, start + 5));
            lemma_le_value_bound(tail.subrange(1, 5));
        }
        if x >= 0x4000_0000 {
            Some((x as u32, start + 5))
        } else {
            None
        }
    }
}

} // verus!
