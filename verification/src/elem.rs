//! The numeric element codec: the closed set of scalar element types a
//! dataset may use, and the little-endian encoding of one scalar.
//!
//! A scalar is carried as the `u64` value of its little-endian bytes
//! (zero-extended).  For the integer types this is the value's bit pattern;
//! for the two floating-point widths it is the bit pattern of the float,
//! which the columnar writer reinterprets.  Decoding and re-encoding are
//! therefore bit-exact for every element type.

use crate::errors::ConvertError;
use vstd::arithmetic::div_mod::{lemma_breakdown, lemma_fundamental_div_mod, lemma_small_mod};
use vstd::prelude::*;

verus! {

/// The scalar element types a dataset file may hold.
#[derive(Clone, Copy, Debug, PartialEq, Eq, Structural)]
pub enum ElemType {
    Int8,
    UInt8,
    Int16,
    UInt16,
    Int32,
    UInt32,
    Int64,
    UInt64,
    Float32,
    Float64,
}

impl ElemType {
    /// Byte width of one scalar of this type.
    pub open spec fn width_spec(self) -> nat {
        match self {
            ElemType::Int8 | ElemType::UInt8 => 1,
            ElemType::Int16 | ElemType::UInt16 => 2,
            ElemType::Int32 | ElemType::UInt32 | ElemType::Float32 => 4,
            ElemType::Int64 | ElemType::UInt64 | ElemType::Float64 => 8,
        }
    }

    /// Byte width of one scalar of this type.
    pub fn width(self) -> (w: usize)
        ensures
            w == self.width_spec(),
            1 <= w <= 8,
    {
        match self {
            ElemType::Int8 | ElemType::UInt8 => 1,
            ElemType::Int16 | ElemType::UInt16 => 2,
            ElemType::Int32 | ElemType::UInt32 | ElemType::Float32 => 4,
            ElemType::Int64 | ElemType::UInt64 | ElemType::Float64 => 8,
        }
    }
}

/// `256^n`: the number of values `n` bytes can hold.
pub open spec fn pow256(n: nat) -> nat
    decreases n,
{
    if n == 0 {
        1
    } else {
        256 * pow256((n - 1) as nat)
    }
}

/// The value of a byte sequence read as a little-endian unsigned integer:
/// the first byte is the least significant.
pub open spec fn le_value(s: Seq<u8>) -> nat
    decreases s.len(),
{
    if s.len() == 0 {
        0
    } else {
        s[0] as nat + 256 * le_value(s.drop_first())
    }
}

/// The `w` little-endian bytes of the value `v` (`v` taken modulo `256^w`).
pub open spec fn le_bytes(v: nat, w: nat) -> Seq<u8>
    decreases w,
{
    if w == 0 {
        Seq::empty()
    } else {
        seq![(v % 256) as u8] + le_bytes(v / 256, (w - 1) as nat)
    }
}

/// The concrete values of `pow256` up to eight bytes.
pub proof fn lemma_pow256_values()
    ensures
        pow256(0) == 1,
        pow256(1) == 0x100,
        pow256(2) == 0x1_0000,
        pow256(3) == 0x100_0000,
        pow256(4) == 0x1_0000_0000,
        pow256(5) == 0x100_0000_0000,
        pow256(6) == 0x1_0000_0000_0000,
        pow256(7) == 0x100_0000_0000_0000,
        pow256(8) == 0x1_0000_0000_0000_0000,
{
    reveal_with_fuel(pow256, 9);
}

/// A sequence of `n` bytes holds a value below `256^n`.
pub proof fn lemma_le_value_bound(s: Seq<u8>)
    ensures
        le_value(s) < pow256(s.len()),
    decreases s.len(),
{
    if s.len() > 0 {
        lemma_le_value_bound(s.drop_first());
    }
}

/// `le_bytes` produces exactly `w` bytes.
pub proof fn lemma_le_bytes_len(v: nat, w: nat)
    ensures
        le_bytes(v, w).len() == w,
    decreases w,
{
    if w > 0 {
        lemma_le_bytes_len(v / 256, (w - 1) as nat);
    }
}

/// Reading back the bytes of `v` yields `v` modulo `256^w`: decoding after
/// encoding loses nothing for values that fit in `w` bytes.
pub proof fn lemma_le_value_of_le_bytes(v: nat, w: nat)
    ensures
        le_value(le_bytes(v, w)) == v % pow256(w),
    decreases w,
{
    if w == 0 {
        lemma_small_mod(0, 1);
        assert(v % 1 == 0) by {
            lemma_fundamental_div_mod(v as int, 1);
        }
    } else {
        lemma_le_value_of_le_bytes(v / 256, (w - 1) as nat);
        let s = le_bytes(v, w);
        assert(s.drop_first() =~= le_bytes(v / 256, (w - 1) as nat));
        lemma_pow256_pos((w - 1) as nat);
        lemma_breakdown(v as int, 256, pow256((w - 1) as nat) as int);
    }
}

/// Re-encoding the value of a byte sequence reproduces the bytes: encoding
/// after decoding is the identity on `w`-byte slices.
pub proof fn lemma_le_bytes_of_le_value(s: Seq<u8>)
    ensures
        le_bytes(le_value(s), s.len()) == s,
    decreases s.len(),
{
    if s.len() == 0 {
        assert(le_bytes(le_value(s), 0) =~= s);
    } else {
        let v = le_value(s);
        let rest = le_value(s.drop_first());
        lemma_le_bytes_of_le_value(s.drop_first());
        assert(v == s[0] + 256 * rest);
        assert(v % 256 == s[0] && v / 256 == rest) by {
            lemma_fundamental_div_mod_converse(v as int, 256, rest as int, s[0] as int);
        }
        assert(le_bytes(v, s.len()) =~= s);
    }
}

/// Helper: if `x == q * d + r` with `0 <= r < d`, then `r == x % d` and
/// `q == x / d`.
proof fn lemma_fundamental_div_mod_converse(x: int, d: int, q: int, r: int)
    requires
        d > 0,
        0 <= r < d,
        x == q * d + r,
    ensures
        r == x % d,
        q == x / d,
{
    vstd::arithmetic::div_mod::lemma_fundamental_div_mod_converse_mod(x, d, q, r);
    vstd::arithmetic::div_mod::lemma_fundamental_div_mod_converse_div(x, d, q, r);
}

/// The little-endian value of `width` bytes of `data` starting at `off`.
pub fn decode_scalar_at(data: &Vec<u8>, off: usize, width: usize) -> (r: u64)
    requires
        off + width <= data.len(),
        1 <= width <= 8,
    ensures
        r as nat == le_value(data@.subrange(off as int, off + width)),
{
    let mut r: u64 = 0;
    let mut j: usize = width;
    while j > 0
        invariant
            j <= width,
            off + width <= data.len(),
            1 <= width <= 8,
            r as nat == le_value(data@.subrange(off + j, off + width)),
        decreases j,
    {
        proof {
            lemma_le_value_bound(data@.subrange(off + j, off + width));
            lemma_pow256_mono((width - j) as nat, 7);
            lemma_pow256_values();
        }
        j = j - 1;
        proof {
            let s = data@.subrange(off + j, off + width);
            assert(s.drop_first() =~= data@.subrange(off + j + 1, off + width));
        }
        r = r * 256 + (data[off + j] as u64);
    }
    proof {
        assert(data@.subrange(off as int, off + width) =~= data@.subrange(
            off + 0,
            off + width,
        ));
    }
    r
}

/// `pow256` is monotone in its exponent.
pub proof fn lemma_pow256_mono(a: nat, b: nat)
    requires
        a <= b,
    ensures
        pow256(a) <= pow256(b),
    decreases b,
{
    if a < b {
        lemma_pow256_mono(a, (b - 1) as nat);
        assert(pow256(b) == 256 * pow256((b - 1) as nat));
        assert(pow256((b - 1) as nat) >= 1) by {
            lemma_pow256_pos((b - 1) as nat);
        }
    }
}

/// `pow256` is positive.
pub proof fn lemma_pow256_pos(n: nat)
    ensures
        pow256(n) >= 1,
    decreases n,
{
    if n > 0 {
        lemma_pow256_pos((n - 1) as nat);
    }
}

/// The `width` little-endian bytes of `v`.
pub fn encode_le_bytes(v: u64, width: usize) -> (r: Vec<u8>)
    requires
        width <= 8,
    ensures
        r@ == le_bytes(v as nat, width as nat),
        r@.len() == width,
{
    let mut out: Vec<u8> = Vec::new();
    let mut w: u64 = v;
    let mut j: usize = 0;
    while j < width
        invariant
            j <= width,
            out@.len() == j,
            out@ + le_bytes(w as nat, (width - j) as nat) == le_bytes(v as nat, width as nat),
        decreases width - j,
    {
        let ghost out0 = out@;
        let ghost w0 = w as nat;
        let ghost rem = (width - j) as nat;
        out.push((w % 256) as u8);
        w = w / 256;
        j = j + 1;
        proof {
            assert(le_bytes(w0, rem) == seq![(w0 % 256) as u8] + le_bytes(
                w0 / 256,
                (rem - 1) as nat,
            ));
            assert(out@ + le_bytes(w as nat, (width - j) as nat) =~= out0 + le_bytes(w0, rem));
        }
    }
    proof {
        assert(out@ + le_bytes(w as nat, 0) =~= out@);
    }
    out
}

/// Decodes one scalar of type `elem` from `bytes`, which must be exactly one
/// element wide; a slice of any other length is rejected.  The result is the
/// little-endian value of the bytes, zero-extended to 64 bits.
pub fn decode_element(elem: ElemType, bytes: &Vec<u8>) -> (r: Result<u64, ConvertError>)
    ensures
        bytes@.len() == elem.width_spec() ==> r == Ok::<u64, ConvertError>(
            le_value(bytes@) as u64,
        ),
        bytes@.len() != elem.width_spec() ==> r == Err::<u64, ConvertError>(
            ConvertError::Decode { width: elem.width_spec() as usize, len: bytes@.len() as usize },
        ),
{
    let w = elem.width();
    if bytes.len() != w {
        return Err(ConvertError::Decode { width: w, len: bytes.len() });
    }
    proof {
        assert(bytes@.subrange(0, 0 + w) =~= bytes@);
        lemma_le_value_bound(bytes@);
        lemma_pow256_mono(w as nat, 8);
        lemma_pow256_values();
    }
    Ok(decode_scalar_at(bytes, 0, w))
}

/// Encodes one scalar of type `elem` back into its little-endian bytes.
/// Values that fit in the element width round-trip exactly through
/// [`decode_element`].
pub fn encode_element(elem: ElemType, value: u64) -> (r: Vec<u8>)
    ensures
        r@ == le_bytes(value as nat, elem.width_spec()),
        r@.len() == elem.width_spec(),
{
    encode_le_bytes(value, elem.width())
}

} // verus!
