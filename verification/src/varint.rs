//! Tagged-prefix varint encoding
//!
//! * `v <= 250`        -> a single byte `v`
//! * `v <= u16::MAX`   -> `251` followed by a little-endian `u16`
//! * `v <= u32::MAX`   -> `252` followed by a little-endian `u32`
//! * `v <= u64::MAX`   -> `253` followed by a little-endian `u64`
//! * otherwise         -> `254` followed by a little-endian `u128`
//!
//! Signed integers are zigzag-mapped to unsigned ones first, so that values
//! of small magnitude stay small.
use vstd::prelude::*;

use crate::error::Error;

verus! {

pub const SINGLE_BYTE_MAX: u8 = 250;
pub const U16_TAG: u8 = 251;
pub const U32_TAG: u8 = 252;
pub const U64_TAG: u8 = 253;
pub const U128_TAG: u8 = 254;

// ---------------------------------------------------------------------------
// Zigzag mapping
// ---------------------------------------------------------------------------

/// Zigzag image of a signed integer: `0, -1, 1, -2, 2, ...` map to
/// `0, 1, 2, 3, 4, ...`.
pub open spec fn zigzag(v: int) -> int {
    if v >= 0 {
        2 * v
    } else {
        -2 * v - 1
    }
}

/// Inverse of [`zigzag`] on the naturals.
pub open spec fn unzigzag(u: int) -> int {
    if u % 2 == 0 {
        u / 2
    } else {
        -(u / 2) - 1
    }
}

pub fn zigzag_i16(v: i16) -> (r: u16)
    ensures
        r as int == zigzag(v as int),
        r == ((v << 1u32) ^ (v >> 15u32)) as u16,
        v >= 0 ==> r == 2 * v,
        v < 0 ==> r == -2 * v - 1,
{
    let r = ((v << 1u32) ^ (v >> 15u32)) as u16;
    assert(v >= 0 ==> ((v << 1u32) ^ (v >> 15u32)) as u16 == 2 * v) by (bit_vector);
    assert(v < 0 ==> ((v << 1u32) ^ (v >> 15u32)) as u16 == -2 * v - 1) by (bit_vector);
    r
}

pub fn zigzag_i32(v: i32) -> (r: u32)
    ensures
        r as int == zigzag(v as int),
        r == ((v << 1u32) ^ (v >> 31u32)) as u32,
        v >= 0 ==> r == 2 * v,
        v < 0 ==> r == -2 * v - 1,
{
    let r = ((v << 1u32) ^ (v >> 31u32)) as u32;
    assert(v >= 0 ==> ((v << 1u32) ^ (v >> 31u32)) as u32 == 2 * v) by (bit_vector);
    assert(v < 0 ==> ((v << 1u32) ^ (v >> 31u32)) as u32 == -2 * v - 1) by (bit_vector);
    r
}

pub fn zigzag_i64(v: i64) -> (r: u64)
    ensures
        r as int == zigzag(v as int),
        r == ((v << 1u32) ^ (v >> 63u32)) as u64,
        v >= 0 ==> r == 2 * v,
        v < 0 ==> r == -2 * v - 1,
{
    let r = ((v << 1u32) ^ (v >> 63u32)) as u64;
    assert(v >= 0 ==> ((v << 1u32) ^ (v >> 63u32)) as u64 == 2 * v) by (bit_vector);
    assert(v < 0 ==> ((v << 1u32) ^ (v >> 63u32)) as u64 == -2 * v - 1) by (bit_vector);
    r
}

pub fn zigzag_i128(v: i128) -> (r: u128)
    ensures
        r as int == zigzag(v as int),
        r == ((v << 1u32) ^ (v >> 127u32)) as u128,
        v >= 0 ==> r == 2 * v,
        v < 0 ==> r == -2 * v - 1,
{
    let r = ((v << 1u32) ^ (v >> 127u32)) as u128;
    assert(v >= 0 ==> ((v << 1u32) ^ (v >> 127u32)) as u128 == 2 * v) by (bit_vector);
    assert(v < 0 ==> ((v << 1u32) ^ (v >> 127u32)) as u128 == -2 * v - 1) by (bit_vector);
    r
}

pub fn unzigzag_i16(v: u16) -> (r: i16)
    ensures
        r as int == unzigzag(v as int),
        r >= 0 ==> v == 2 * r,
        r < 0 ==> v == -2 * r - 1,
{
    assert(v & 1 == v % 2) by (bit_vector);
    assert(v >> 1u32 == v / 2) by (bit_vector);
    let h: i16 = (v >> 1u32) as i16;
    let m: i16 = 0 - ((v & 1) as i16);
    assert(h ^ 0 == h) by (bit_vector);
    assert(h ^ (-1i16 as i16) == -h - 1) by (bit_vector);
    h ^ m
}

pub fn unzigzag_i32(v: u32) -> (r: i32)
    ensures
        r as int == unzigzag(v as int),
        r >= 0 ==> v == 2 * r,
        r < 0 ==> v == -2 * r - 1,
{
    assert(v & 1 == v % 2) by (bit_vector);
    assert(v >> 1u32 == v / 2) by (bit_vector);
    let h: i32 = (v >> 1u32) as i32;
    let m: i32 = 0 - ((v & 1) as i32);
    assert(h ^ 0 == h) by (bit_vector);
    assert(h ^ (-1i16 as i32) == -h - 1) by (bit_vector);
    h ^ m
}

pub fn unzigzag_i64(v: u64) -> (r: i64)
    ensures
        r as int == unzigzag(v as int),
        r >= 0 ==> v == 2 * r,
        r < 0 ==> v == -2 * r - 1,
{
    assert(v & 1 == v % 2) by (bit_vector);
    assert(v >> 1u32 == v / 2) by (bit_vector);
    let h: i64 = (v >> 1u32) as i64;
    let m: i64 = 0 - ((v & 1) as i64);
    assert(h ^ 0 == h) by (bit_vector);
    assert(h ^ (-1i16 as i64) == -h - 1) by (bit_vector);
    h ^ m
}

pub fn unzigzag_i128(v: u128) -> (r: i128)
    ensures
        r as int == unzigzag(v as int),
        r >= 0 ==> v == 2 * r,
        r < 0 ==> v == -2 * r - 1,
{
    assert(v & 1 == v % 2) by (bit_vector);
    assert(v >> 1u32 == v / 2) by (bit_vector);
    let h: i128 = (v >> 1u32) as i128;
    let m: i128 = 0 - ((v & 1) as i128);
    assert(h ^ 0 == h) by (bit_vector);
    assert(h ^ (-1i16 as i128) == -h - 1) by (bit_vector);
    h ^ m
}


// ---------------------------------------------------------------------------
// Little-endian fixed-width integers
// ---------------------------------------------------------------------------

/// `256` raised to the power `n`.
pub open spec fn pow256(n: nat) -> nat
    decreases n,
{
    if n == 0 {
        1
    } else {
        256 * pow256((n - 1) as nat)
    }
}

/// The `n` low-order bytes of `v`, least significant first.
pub open spec fn le_bytes(v: nat, n: nat) -> Seq<u8>
    decreases n,
{
    if n == 0 {
        Seq::empty()
    } else {
        seq![(v % 256) as u8] + le_bytes(v / 256, (n - 1) as nat)
    }
}

/// The number whose little-endian bytes are `s`.
pub open spec fn le_value(s: Seq<u8>) -> nat
    decreases s.len(),
{
    if s.len() == 0 {
        0
    } else {
        s[0] as nat + 256 * le_value(s.drop_first())
    }
}

pub proof fn lemma_pow256_values()
    ensures
        pow256(1) == 0x100,
        pow256(2) == 0x1_0000,
        pow256(4) == 0x1_0000_0000,
        pow256(8) == 0x1_0000_0000_0000_0000,
        pow256(15) == 0x1_0000_0000_0000_0000_0000_0000_0000_00,
        pow256(16) == 0x1_0000_0000_0000_0000_0000_0000_0000_0000nat,
{
    reveal_with_fuel(pow256, 17);
}

pub proof fn lemma_le_bytes_len(v: nat, n: nat)
    ensures
        le_bytes(v, n).len() == n,
    decreases n,
{
    if n > 0 {
        lemma_le_bytes_len(v / 256, (n - 1) as nat);
    }
}

/// A little-endian number of `s.len()` bytes is below `256^len`.
pub proof fn lemma_le_value_bound(s: Seq<u8>)
    ensures
        le_value(s) < pow256(s.len()),
    decreases s.len(),
{
    if s.len() > 0 {
        lemma_le_value_bound(s.drop_first());
    }
}

/// Decoding the `n` little-endian bytes of a value below `256^n` gives the
/// value back.
pub proof fn lemma_le_roundtrip(v: nat, n: nat)
    requires
        v < pow256(n),
    ensures
        le_value(le_bytes(v, n)) == v,
    decreases n,
{
    if n > 0 {
        let s = le_bytes(v, n);
        assert(s.drop_first() =~= le_bytes(v / 256, (n - 1) as nat));
        lemma_le_roundtrip(v / 256, (n - 1) as nat);
    }
}

/// Encoding a decoded byte string gives the same bytes back.
pub proof fn lemma_le_value_bytes(s: Seq<u8>)
    ensures
        le_bytes(le_value(s), s.len()) == s,
    decreases s.len(),
{
    if s.len() > 0 {
        lemma_le_value_bytes(s.drop_first());
        let v = le_value(s);
        assert(v % 256 == s[0]);
        assert(v / 256 == le_value(s.drop_first()));
        assert(le_bytes(v, s.len()) =~= s);
    }
}

/// Byte `i` of the `n` little-endian bytes of `v` is the base-256 digit `i`
/// of `v`: `(v / 256^i) % 256`.
pub proof fn lemma_le_bytes_digits(v: nat, n: nat)
    ensures
        le_bytes(v, n).len() == n,
        forall|i: int|
            0 <= i < n ==> #[trigger] le_bytes(v, n)[i] as int == (v as int
                / vstd::arithmetic::power::pow(256, i as nat)) % 256,
    decreases n,
{
    lemma_le_bytes_len(v, n);
    if n > 0 {
        lemma_le_bytes_digits(v / 256, (n - 1) as nat);
        assert forall|i: int| 0 <= i < n implies #[trigger] le_bytes(v, n)[i] as int == (v as int
            / vstd::arithmetic::power::pow(256, i as nat)) % 256 by {
            reveal(vstd::arithmetic::power::pow);
            if i > 0 {
                let p = vstd::arithmetic::power::pow(256, (i - 1) as nat);
                vstd::arithmetic::power::lemma_pow_positive(256, (i - 1) as nat);
                vstd::arithmetic::div_mod::lemma_div_denominator(v as int, 256, p);
                assert(le_bytes(v, n)[i] == le_bytes(v / 256, (n - 1) as nat)[i - 1]);
            }
        }
    }
}

/// Appends the `n` low-order bytes of `v` to `out`, least significant first.
pub fn push_le(out: &mut Vec<u8>, v: u128, n: usize)
    ensures
        final(out)@ == old(out)@ + le_bytes(v as nat, n as nat),
    decreases n,
{
    if n == 0 {
        assert(old(out)@ + le_bytes(v as nat, 0) =~= old(out)@);
    } else {
        out.push((v % 256) as u8);
        push_le(out, v / 256, n - 1);
        assert(old(out)@ + le_bytes(v as nat, n as nat) =~= old(out)@.push((v % 256) as u8)
            + le_bytes((v / 256) as nat, (n - 1) as nat));
    }
}

/// The value of the little-endian bytes `s` (at most 16 of them).
pub fn le_decode(s: &[u8]) -> (v: u128)
    requires
        s@.len() <= 16,
    ensures
        v as nat == le_value(s@),
{
    let n = s.len();
    let mut acc: u128 = 0;
    let mut i = n;
    proof {
        lemma_pow256_values();
        assert(s@.subrange(n as int, n as int) =~= Seq::<u8>::empty());
    }
    while i > 0
        invariant
            n == s@.len(),
            n <= 16,
            i <= n,
            acc as nat == le_value(s@.subrange(i as int, n as int)),
            pow256(15) == 0x1_0000_0000_0000_0000_0000_0000_0000_00,
        decreases i,
    {
        proof {
            lemma_le_value_bound(s@.subrange(i as int, n as int));
            lemma_pow256_monotone((n - i) as nat, 15);
            assert(s@.subrange(i - 1, n as int).drop_first() =~= s@.subrange(i as int, n as int));
        }
        acc = acc * 256 + s[i - 1] as u128;
        i = i - 1;
    }
    assert(s@.subrange(0, n as int) =~= s@);
    acc
}

pub proof fn lemma_pow256_monotone(a: nat, b: nat)
    requires
        a <= b,
    ensures
        pow256(a) <= pow256(b),
    decreases b,
{
    if a < b {
        lemma_pow256_monotone(a, (b - 1) as nat);
    }
}

// ---------------------------------------------------------------------------
// Tagged varints
// ---------------------------------------------------------------------------

/// The encoding of `v` (which must be below `2^128`).
pub open spec fn varint_bytes(v: nat) -> Seq<u8> {
    if v <= SINGLE_BYTE_MAX {
        seq![v as u8]
    } else if v < 0x1_0000 {
        seq![U16_TAG] + le_bytes(v, 2)
    } else if v < 0x1_0000_0000 {
        seq![U32_TAG] + le_bytes(v, 4)
    } else if v < 0x1_0000_0000_0000_0000 {
        seq![U64_TAG] + le_bytes(v, 8)
    } else {
        seq![U128_TAG] + le_bytes(v, 16)
    }
}

/// The number of little-endian payload bytes that follow a (valid) tag.
pub open spec fn tag_width(tag: u8) -> nat {
    if tag == U16_TAG {
        2
    } else if tag == U32_TAG {
        4
    } else if tag == U64_TAG {
        8
    } else {
        16
    }
}

/// Decoding a varint from the front of `s`, accepting tags up to `max_tag`:
/// the value and the number of bytes it took, or the error.
pub open spec fn decode_varint(s: Seq<u8>, max_tag: u8) -> Result<(nat, nat), Error> {
    if s.len() == 0 {
        Err(Error::UnexpectedEnd)
    } else if s[0] <= SINGLE_BYTE_MAX {
        Ok((s[0] as nat, 1))
    } else if s[0] > max_tag {
        Err(Error::InvalidVarint)
    } else if s.len() < 1 + tag_width(s[0]) {
        Err(Error::UnexpectedEnd)
    } else {
        Ok((le_value(s.subrange(1, 1 + tag_width(s[0]) as int)), 1 + tag_width(s[0])))
    }
}

/// Reading a varint: a first byte up to 250 is the value itself; a tag
/// above `max_tag` is refused with `InvalidVarint`; the tags 251, 252, 253
/// and 254 are followed by 2, 4, 8 and 16 little-endian bytes, and fewer
/// bytes than that are refused with `UnexpectedEnd`.
pub proof fn lemma_decode_varint_wire(s: Seq<u8>, max_tag: u8)
    ensures
        s.len() == 0 ==> decode_varint(s, max_tag) == Err::<(nat, nat), Error>(
            Error::UnexpectedEnd,
        ),
        s.len() > 0 && s[0] <= 250 ==> decode_varint(s, max_tag) == Ok::<(nat, nat), Error>(
            (s[0] as nat, 1),
        ),
        s.len() > 0 && 250 < s[0] && s[0] > max_tag ==> decode_varint(s, max_tag) == Err::<
            (nat, nat),
            Error,
        >(Error::InvalidVarint),
        s.len() > 0 && s[0] == 251 && 251 <= max_tag ==> decode_varint(s, max_tag) == (if s.len()
            < 3 {
            Err::<(nat, nat), Error>(Error::UnexpectedEnd)
        } else {
            Ok::<(nat, nat), Error>((le_value(s.subrange(1, 3)), 3))
        }),
        s.len() > 0 && s[0] == 252 && 252 <= max_tag ==> decode_varint(s, max_tag) == (if s.len()
            < 5 {
            Err::<(nat, nat), Error>(Error::UnexpectedEnd)
        } else {
            Ok::<(nat, nat), Error>((le_value(s.subrange(1, 5)), 5))
        }),
        s.len() > 0 && s[0] == 253 && 253 <= max_tag ==> decode_varint(s, max_tag) == (if s.len()
            < 9 {
            Err::<(nat, nat), Error>(Error::UnexpectedEnd)
        } else {
            Ok::<(nat, nat), Error>((le_value(s.subrange(1, 9)), 9))
        }),
        s.len() > 0 && s[0] == 254 && 254 <= max_tag ==> decode_varint(s, max_tag) == (if s.len()
            < 17 {
            Err::<(nat, nat), Error>(Error::UnexpectedEnd)
        } else {
            Ok::<(nat, nat), Error>((le_value(s.subrange(1, 17)), 17))
        }),
{
}

/// The largest value that a varint with tags up to `max_tag` can carry,
/// plus one.
pub open spec fn tag_range(max_tag: u8) -> nat {
    if max_tag == U16_TAG {
        0x1_0000
    } else if max_tag == U32_TAG {
        0x1_0000_0000
    } else if max_tag == U64_TAG {
        0x1_0000_0000_0000_0000
    } else {
        0x1_0000_0000_0000_0000_0000_0000_0000_0000nat
    }
}

/// The encoding of `v` as a varint.
pub fn varint_encode(v: u128) -> (out: Vec<u8>)
    ensures
        out@ == varint_bytes(v as nat),
{
    let mut out: Vec<u8> = Vec::new();
    if v <= SINGLE_BYTE_MAX as u128 {
        out.push(v as u8);
        assert(out@ =~= seq![v as u8]);
    } else if v < 0x1_0000 {
        out.push(U16_TAG);
        push_le(&mut out, v, 2);
    } else if v < 0x1_0000_0000 {
        out.push(U32_TAG);
        push_le(&mut out, v, 4);
    } else if v < 0x1_0000_0000_0000_0000 {
        out.push(U64_TAG);
        push_le(&mut out, v, 8);
    } else {
        out.push(U128_TAG);
        push_le(&mut out, v, 16);
    }
    out
}


/// The encoded length of `v`: one byte up to 250, then a tag byte plus 2,
/// 4, 8 or 16 payload bytes.
pub open spec fn varint_len(v: nat) -> nat {
    if v <= SINGLE_BYTE_MAX {
        1
    } else if v < 0x1_0000 {
        3
    } else if v < 0x1_0000_0000 {
        5
    } else if v < 0x1_0000_0000_0000_0000 {
        9
    } else {
        17
    }
}

/// The varint of `v`: the byte `v` itself up to 250; else the tag byte
/// 251, 252, 253 or 254, then the 2, 4, 8 or 16 little-endian bytes of `v`,
/// the smallest width that holds it.
pub proof fn lemma_varint_wire(v: nat)
    ensures
        v <= 250 ==> varint_bytes(v) == seq![v as u8],
        250 < v < 0x1_0000 ==> varint_bytes(v) == seq![251u8] + le_bytes(v, 2),
        0x1_0000 <= v < 0x1_0000_0000 ==> varint_bytes(v) == seq![252u8] + le_bytes(v, 4),
        0x1_0000_0000 <= v < 0x1_0000_0000_0000_0000 ==> varint_bytes(v) == seq![253u8]
            + le_bytes(v, 8),
        0x1_0000_0000_0000_0000 <= v ==> varint_bytes(v) == seq![254u8] + le_bytes(v, 16),
{
}

/// The encoding of `v` has the length [`varint_len`] gives.
pub proof fn lemma_varint_len(v: nat)
    ensures
        varint_bytes(v).len() == varint_len(v),
{
    lemma_le_bytes_len(v, 2);
    lemma_le_bytes_len(v, 4);
    lemma_le_bytes_len(v, 8);
    lemma_le_bytes_len(v, 16);
}

/// Every decoded varint lies in the range of its target width.
pub proof fn lemma_decode_varint_range(s: Seq<u8>, max_tag: u8)
    requires
        U16_TAG <= max_tag <= U128_TAG,
    ensures
        decode_varint(s, max_tag) matches Ok((v, n)) ==> v < tag_range(max_tag) && 1 <= n
            <= s.len(),
{
    lemma_pow256_values();
    if s.len() > 0 && s[0] > SINGLE_BYTE_MAX && s[0] <= max_tag && s.len() >= 1 + tag_width(s[0]) {
        let w = tag_width(s[0]);
        let payload = s.subrange(1, 1 + w as int);
        lemma_le_value_bound(payload);
    }
}

/// Round trip: decoding the encoding of `v`, followed by any bytes at all,
/// gives `v` back and consumes exactly the encoding, for every `v` in the
/// range of the target width.
pub proof fn lemma_varint_roundtrip(v: nat, max_tag: u8, rest: Seq<u8>)
    requires
        U16_TAG <= max_tag <= U128_TAG,
        v < tag_range(max_tag),
    ensures
        decode_varint(varint_bytes(v) + rest, max_tag) == Ok::<(nat, nat), Error>(
            (v, varint_len(v)),
        ),
{
    lemma_pow256_values();
    lemma_varint_len(v);
    let e = varint_bytes(v);
    let s = e + rest;
    if v > SINGLE_BYTE_MAX {
        let w = tag_width(s[0]);
        assert(s.subrange(1, 1 + w as int) =~= e.subrange(1, 1 + w as int));
        assert(e.subrange(1, 1 + w as int) =~= le_bytes(v, w));
        lemma_le_roundtrip(v, w);
    }
}

/// Every strict prefix of an encoding is rejected as truncated input.
pub proof fn lemma_varint_prefix_truncated(v: nat, max_tag: u8, k: nat)
    requires
        U16_TAG <= max_tag <= U128_TAG,
        v < tag_range(max_tag),
        k < varint_len(v),
    ensures
        decode_varint(varint_bytes(v).take(k as int), max_tag) == Err::<(nat, nat), Error>(
            Error::UnexpectedEnd,
        ),
{
    lemma_varint_len(v);
}

/// Decoding only looks at the bytes it consumes: whatever follows them does
/// not change the result.
pub proof fn lemma_decode_varint_prefix(s: Seq<u8>, max_tag: u8, rest: Seq<u8>)
    requires
        decode_varint(s, max_tag) is Ok,
    ensures
        decode_varint(s + rest, max_tag) == decode_varint(s, max_tag),
{
    let t = s + rest;
    if s[0] > SINGLE_BYTE_MAX {
        let w = tag_width(s[0]);
        assert(t.subrange(1, 1 + w as int) =~= s.subrange(1, 1 + w as int));
    }
}

/// Zigzag round trip: `unzigzag(zigzag(v)) == v` for every integer.
pub proof fn lemma_unzigzag_zigzag(v: int)
    ensures
        unzigzag(zigzag(v)) == v,
{
}

/// Zigzag is onto the naturals: `zigzag(unzigzag(u)) == u` for every `u >= 0`.
pub proof fn lemma_zigzag_unzigzag(u: int)
    requires
        u >= 0,
    ensures
        zigzag(unzigzag(u)) == u,
{
}

} // verus!
