//! The wire format, as specifications.
//!
//! Non-self-describing: values are written in declaration order with no
//! names and no types. Each `enc_*` function below gives the bytes a value
//! of one kind is written as, and each `dec_*` function what reading one
//! such value from the front of a byte string gives: the value and the
//! number of bytes it took, or the error.
use vstd::prelude::*;
use vstd::utf8::{encode_utf8, is_scalar, valid_utf8, decode_utf8};

use crate::error::Error;
use crate::varint::{
    decode_varint, le_bytes, le_value, lemma_decode_varint_range, lemma_le_bytes_len,
    lemma_le_roundtrip, lemma_pow256_values, lemma_unzigzag_zigzag, lemma_varint_len,
    lemma_varint_roundtrip,
    pow256, tag_range, unzigzag, varint_bytes, zigzag, U128_TAG, U16_TAG, U32_TAG, U64_TAG,
};

verus! {

/// `bool`: one byte, 0 or 1.
pub open spec fn enc_bool(b: bool) -> Seq<u8> {
    seq![if b { 1u8 } else { 0u8 }]
}

/// `u8`: the byte itself.
pub open spec fn enc_u8(v: u8) -> Seq<u8> {
    seq![v]
}

/// `i8`: the byte of its two's complement.
pub open spec fn enc_i8(v: i8) -> Seq<u8> {
    seq![v as u8]
}

/// `u16` .. `u128`, `usize`: a varint.
pub open spec fn enc_uint(v: nat) -> Seq<u8> {
    varint_bytes(v)
}

/// `i16` .. `i128`, `isize`: the varint of the zigzag image.
pub open spec fn enc_int(v: int) -> Seq<u8> {
    varint_bytes(zigzag(v) as nat)
}

/// `f32`: the 4 little-endian bytes of its bit pattern.
pub open spec fn enc_f32_bits(bits: u32) -> Seq<u8> {
    le_bytes(bits as nat, 4)
}

/// `f64`: the 8 little-endian bytes of its bit pattern.
pub open spec fn enc_f64_bits(bits: u64) -> Seq<u8> {
    le_bytes(bits as nat, 8)
}

/// `char`: the varint of its code point.
pub open spec fn enc_char(c: char) -> Seq<u8> {
    varint_bytes(c as nat)
}

/// Byte strings: the varint of the length, then the bytes.
pub open spec fn enc_bytes(b: Seq<u8>) -> Seq<u8> {
    varint_bytes(b.len()) + b
}

/// Strings: their UTF-8 bytes, as a byte string.
pub open spec fn enc_str(s: Seq<char>) -> Seq<u8> {
    enc_bytes(encode_utf8(s))
}

/// The tag byte of an `Option`: 0 for `None`, 1 for `Some`, followed (for
/// `Some`) by the value.
pub open spec fn enc_option_tag(is_some: bool) -> Seq<u8> {
    seq![if is_some { 1u8 } else { 0u8 }]
}

/// Enum variants: the varint of the variant index, then the payload.
pub open spec fn enc_variant(index: u32) -> Seq<u8> {
    varint_bytes(index as nat)
}

/// Sequences and maps: the varint of the element count, then the elements.
pub open spec fn enc_len(len: usize) -> Seq<u8> {
    varint_bytes(len as nat)
}


/// Reading one byte.
pub open spec fn dec_byte(s: Seq<u8>) -> Result<(u8, nat), Error> {
    if s.len() == 0 {
        Err(Error::UnexpectedEnd)
    } else {
        Ok((s[0], 1))
    }
}

/// Reading a `bool`: any byte other than 0 or 1 is refused.
pub open spec fn dec_bool(s: Seq<u8>) -> Result<(bool, nat), Error> {
    if s.len() == 0 {
        Err(Error::UnexpectedEnd)
    } else if s[0] == 0 {
        Ok((false, 1))
    } else if s[0] == 1 {
        Ok((true, 1))
    } else {
        Err(Error::InvalidBool)
    }
}

/// Reading an unsigned integer whose varint tag may be at most `max_tag`.
pub open spec fn dec_uint(s: Seq<u8>, max_tag: u8) -> Result<(nat, nat), Error> {
    decode_varint(s, max_tag)
}

/// Reading a signed integer: the zigzag preimage of the varint.
pub open spec fn dec_int(s: Seq<u8>, max_tag: u8) -> Result<(int, nat), Error> {
    match decode_varint(s, max_tag) {
        Ok((u, n)) => Ok((unzigzag(u as int), n)),
        Err(e) => Err(e),
    }
}

/// Reading `n` little-endian bytes (a float's bit pattern).
pub open spec fn dec_fixed(s: Seq<u8>, n: nat) -> Result<(nat, nat), Error> {
    if s.len() < n {
        Err(Error::UnexpectedEnd)
    } else {
        Ok((le_value(s.take(n as int)), n))
    }
}

/// Reading a `char`: a `u32` varint that must be a Unicode scalar value.
pub open spec fn dec_char(s: Seq<u8>) -> Result<(u32, nat), Error> {
    match decode_varint(s, U32_TAG) {
        Ok((v, n)) => if is_scalar(v as u32) {
            Ok((v as u32, n))
        } else {
            Err(Error::InvalidChar)
        },
        Err(e) => Err(e),
    }
}

/// Reading a length prefix: a `u64` varint that must fit in `usize`.
pub open spec fn dec_len(s: Seq<u8>) -> Result<(nat, nat), Error> {
    match decode_varint(s, U64_TAG) {
        Ok((v, n)) => if v <= usize::MAX {
            Ok((v, n))
        } else {
            Err(Error::InvalidLength)
        },
        Err(e) => Err(e),
    }
}

/// Reading a byte string: its length prefix, then that many bytes.
pub open spec fn dec_bytes(s: Seq<u8>) -> Result<(Seq<u8>, nat), Error> {
    match dec_len(s) {
        Ok((len, n)) => if s.len() < n + len {
            Err(Error::UnexpectedEnd)
        } else {
            Ok((s.subrange(n as int, (n + len) as int), n + len))
        },
        Err(e) => Err(e),
    }
}

/// Reading a string: a byte string that must be valid UTF-8; the value is
/// the characters it encodes.
pub open spec fn dec_str(s: Seq<u8>) -> Result<(Seq<char>, nat), Error> {
    match dec_bytes(s) {
        Ok((b, n)) => if valid_utf8(b) {
            Ok((decode_utf8(b), n))
        } else {
            Err(Error::InvalidUtf8)
        },
        Err(e) => Err(e),
    }
}

/// Reading the tag of an `Option`: any byte other than 0 or 1 is refused.
pub open spec fn dec_option_tag(s: Seq<u8>) -> Result<(bool, nat), Error> {
    if s.len() == 0 {
        Err(Error::UnexpectedEnd)
    } else if s[0] == 0 {
        Ok((false, 1))
    } else if s[0] == 1 {
        Ok((true, 1))
    } else {
        Err(Error::InvalidOption)
    }
}

/// Reading an enum variant index: a `u32` varint.
pub open spec fn dec_variant(s: Seq<u8>) -> Result<(nat, nat), Error> {
    decode_varint(s, U32_TAG)
}


// ---------------------------------------------------------------------------
// Round trips: reading what was written, followed by anything at all, gives
// the value back and consumes exactly what was written.
// ---------------------------------------------------------------------------

pub proof fn lemma_bool_roundtrip(b: bool, rest: Seq<u8>)
    ensures
        dec_bool(enc_bool(b) + rest) == Ok::<(bool, nat), Error>((b, 1)),
{
}

pub proof fn lemma_u8_roundtrip(v: u8, rest: Seq<u8>)
    ensures
        dec_byte(enc_u8(v) + rest) == Ok::<(u8, nat), Error>((v, 1)),
{
}

pub proof fn lemma_i8_roundtrip(v: i8, rest: Seq<u8>)
    ensures
        dec_byte(enc_i8(v) + rest) matches Ok((b, n)) && b as i8 == v && n == 1,
{
    assert((v as u8) as i8 == v) by (bit_vector);
}

pub proof fn lemma_uint_roundtrip(v: nat, max_tag: u8, rest: Seq<u8>)
    requires
        U16_TAG <= max_tag <= U128_TAG,
        v < tag_range(max_tag),
    ensures
        dec_uint(enc_uint(v) + rest, max_tag) == Ok::<(nat, nat), Error>(
            (v, enc_uint(v).len()),
        ),
{
    lemma_varint_roundtrip(v, max_tag, rest);
    lemma_varint_len(v);
}

pub proof fn lemma_int_roundtrip(v: int, max_tag: u8, rest: Seq<u8>)
    requires
        U16_TAG <= max_tag <= U128_TAG,
        zigzag(v) < tag_range(max_tag),
    ensures
        dec_int(enc_int(v) + rest, max_tag) == Ok::<(int, nat), Error>((v, enc_int(v).len())),
{
    lemma_varint_roundtrip(zigzag(v) as nat, max_tag, rest);
    lemma_varint_len(zigzag(v) as nat);
    lemma_unzigzag_zigzag(v);
}

pub proof fn lemma_fixed_roundtrip(v: nat, n: nat, rest: Seq<u8>)
    requires
        v < pow256(n),
    ensures
        dec_fixed(le_bytes(v, n) + rest, n) == Ok::<(nat, nat), Error>((v, n)),
{
    lemma_le_bytes_len(v, n);
    assert((le_bytes(v, n) + rest).take(n as int) =~= le_bytes(v, n));
    lemma_le_roundtrip(v, n);
}

pub proof fn lemma_f32_bits_roundtrip(bits: u32, rest: Seq<u8>)
    ensures
        dec_fixed(enc_f32_bits(bits) + rest, 4) == Ok::<(nat, nat), Error>((bits as nat, 4)),
{
    lemma_pow256_values();
    lemma_fixed_roundtrip(bits as nat, 4, rest);
}

pub proof fn lemma_f64_bits_roundtrip(bits: u64, rest: Seq<u8>)
    ensures
        dec_fixed(enc_f64_bits(bits) + rest, 8) == Ok::<(nat, nat), Error>((bits as nat, 8)),
{
    lemma_pow256_values();
    lemma_fixed_roundtrip(bits as nat, 8, rest);
}

pub proof fn lemma_char_roundtrip(c: char, rest: Seq<u8>)
    ensures
        dec_char(enc_char(c) + rest) == Ok::<(u32, nat), Error>((c as u32, enc_char(c).len())),
{
    vstd::utf8::char_is_scalar(c);
    lemma_varint_roundtrip(c as nat, U32_TAG, rest);
    lemma_varint_len(c as nat);
}

pub proof fn lemma_len_roundtrip(len: usize, rest: Seq<u8>)
    ensures
        dec_len(enc_len(len) + rest) == Ok::<(nat, nat), Error>((len as nat, enc_len(len).len())),
{
    lemma_varint_roundtrip(len as nat, U64_TAG, rest);
    lemma_varint_len(len as nat);
}

pub proof fn lemma_variant_roundtrip(index: u32, rest: Seq<u8>)
    ensures
        dec_variant(enc_variant(index) + rest) == Ok::<(nat, nat), Error>(
            (index as nat, enc_variant(index).len()),
        ),
{
    lemma_varint_roundtrip(index as nat, U32_TAG, rest);
    lemma_varint_len(index as nat);
}

pub proof fn lemma_option_tag_roundtrip(is_some: bool, rest: Seq<u8>)
    ensures
        dec_option_tag(enc_option_tag(is_some) + rest) == Ok::<(bool, nat), Error>((is_some, 1)),
{
}

pub proof fn lemma_bytes_roundtrip(b: Seq<u8>, rest: Seq<u8>)
    requires
        b.len() <= usize::MAX,
    ensures
        dec_bytes(enc_bytes(b) + rest) == Ok::<(Seq<u8>, nat), Error>((b, enc_bytes(b).len())),
{
    let p = varint_bytes(b.len());
    lemma_varint_len(b.len());
    assert(enc_bytes(b) + rest =~= p + (b + rest));
    lemma_varint_roundtrip(b.len(), U64_TAG, b + rest);
    assert((enc_bytes(b) + rest).subrange(p.len() as int, (p.len() + b.len()) as int) =~= b);
}

pub proof fn lemma_str_roundtrip(s: Seq<char>, rest: Seq<u8>)
    requires
        encode_utf8(s).len() <= usize::MAX,
    ensures
        dec_str(enc_str(s) + rest) == Ok::<(Seq<char>, nat), Error>((s, enc_str(s).len())),
{
    lemma_bytes_roundtrip(encode_utf8(s), rest);
    vstd::utf8::encode_utf8_valid_utf8(s);
    vstd::utf8::encode_utf8_decode_utf8(s);
}


// ---------------------------------------------------------------------------
// The wire form of each kind, in terms of bytes and varints alone.
// ---------------------------------------------------------------------------

/// `bool`: `false` is the byte 0 and `true` the byte 1; reading refuses
/// every other first byte with `InvalidBool`.
pub proof fn lemma_bool_wire(b: bool, s: Seq<u8>)
    ensures
        enc_bool(b) == seq![if b { 1u8 } else { 0u8 }],
        s.len() == 0 ==> dec_bool(s) == Err::<(bool, nat), Error>(Error::UnexpectedEnd),
        s.len() > 0 && s[0] == 0 ==> dec_bool(s) == Ok::<(bool, nat), Error>((false, 1)),
        s.len() > 0 && s[0] == 1 ==> dec_bool(s) == Ok::<(bool, nat), Error>((true, 1)),
        s.len() > 0 && s[0] != 0 && s[0] != 1 ==> dec_bool(s) == Err::<(bool, nat), Error>(
            Error::InvalidBool,
        ),
{
}

/// The tag of an `Option`: `None` is the byte 0 and `Some` the byte 1;
/// reading refuses every other first byte with `InvalidOption`.
pub proof fn lemma_option_tag_wire(is_some: bool, s: Seq<u8>)
    ensures
        enc_option_tag(is_some) == seq![if is_some { 1u8 } else { 0u8 }],
        s.len() == 0 ==> dec_option_tag(s) == Err::<(bool, nat), Error>(Error::UnexpectedEnd),
        s.len() > 0 && s[0] == 0 ==> dec_option_tag(s) == Ok::<(bool, nat), Error>((false, 1)),
        s.len() > 0 && s[0] == 1 ==> dec_option_tag(s) == Ok::<(bool, nat), Error>((true, 1)),
        s.len() > 0 && s[0] != 0 && s[0] != 1 ==> dec_option_tag(s) == Err::<(bool, nat), Error>(
            Error::InvalidOption,
        ),
{
}

/// `u8` and `i8` are one byte, the value's own (two's complement for
/// `i8`); unsigned integers are their varint; floats are the little-endian
/// bytes of their bit pattern. Reading takes the first byte, the varint,
/// or the little-endian value of the first `n` bytes.
pub proof fn lemma_plain_wire(
    b: u8,
    i: i8,
    v: nat,
    f32_bits: u32,
    f64_bits: u64,
    s: Seq<u8>,
    max_tag: u8,
    n: nat,
)
    ensures
        enc_u8(b) == seq![b],
        enc_i8(i) == seq![i as u8],
        enc_uint(v) == varint_bytes(v),
        enc_f32_bits(f32_bits) == le_bytes(f32_bits as nat, 4),
        enc_f64_bits(f64_bits) == le_bytes(f64_bits as nat, 8),
        s.len() > 0 ==> dec_byte(s) == Ok::<(u8, nat), Error>((s[0], 1)),
        dec_uint(s, max_tag) == decode_varint(s, max_tag),
        s.len() >= n ==> dec_fixed(s, n) == Ok::<(nat, nat), Error>((le_value(s.take(n as int)), n)),
        s.len() < n ==> dec_fixed(s, n) == Err::<(nat, nat), Error>(Error::UnexpectedEnd),
{
}

/// Signed integers are written as the varint of their zigzag image:
/// `2 v` for `v >= 0` and `-2 v - 1` for `v < 0`. Reading a varint `u`
/// gives the one integer whose image `u` is.
pub proof fn lemma_int_wire(v: int, s: Seq<u8>, max_tag: u8)
    ensures
        enc_int(v) == varint_bytes((if v >= 0 {
            2 * v
        } else {
            -2 * v - 1
        }) as nat),
        decode_varint(s, max_tag) matches Err(e) ==> dec_int(s, max_tag) == Err::<(int, nat), Error>(e),
        decode_varint(s, max_tag) matches Ok((u, n)) ==> (dec_int(s, max_tag) matches Ok((x, m))
            && m == n && u == (if x >= 0 {
            2 * x
        } else {
            -2 * x - 1
        })),
{
}

/// `char` is the varint of its code point. Reading a `u32`-range varint
/// gives that code point when it is a Unicode scalar value, and is refused
/// with `InvalidChar` otherwise.
pub proof fn lemma_char_wire(c: char, s: Seq<u8>)
    ensures
        enc_char(c) == varint_bytes(c as u32 as nat),
        decode_varint(s, 252) matches Err(e) ==> dec_char(s) == Err::<(u32, nat), Error>(e),
        decode_varint(s, 252) matches Ok((v, n)) ==> v < 0x1_0000_0000 && (is_scalar(v as u32)
            ==> dec_char(s) == Ok::<(u32, nat), Error>((v as u32, n))) && (!is_scalar(v as u32)
            ==> dec_char(s) == Err::<(u32, nat), Error>(Error::InvalidChar)),
{
    lemma_decode_varint_range(s, 252);
}

/// Sequence and map lengths are the varint of the element count itself.
/// Reading a `u64`-range varint gives that count when it fits in `usize`,
/// and is refused with `InvalidLength` otherwise.
pub proof fn lemma_len_wire(len: usize, s: Seq<u8>)
    ensures
        enc_len(len) == varint_bytes(len as nat),
        decode_varint(s, 253) matches Err(e) ==> dec_len(s) == Err::<(nat, nat), Error>(e),
        decode_varint(s, 253) matches Ok((v, n)) ==> (v <= usize::MAX ==> dec_len(s) == Ok::<
            (nat, nat),
            Error,
        >((v, n))) && (v > usize::MAX ==> dec_len(s) == Err::<(nat, nat), Error>(
            Error::InvalidLength,
        )),
{
}

/// Enum variants are the varint of the variant index itself; reading one
/// is reading a `u32`-range varint.
pub proof fn lemma_variant_wire(index: u32, s: Seq<u8>)
    ensures
        enc_variant(index) == varint_bytes(index as nat),
        dec_variant(s) == decode_varint(s, 252),
{
}

/// Byte strings are the varint of their length, then the bytes; strings
/// are their UTF-8 bytes as a byte string. Reading a byte string whose
/// length fits takes exactly that many bytes after the prefix.
pub proof fn lemma_bytes_wire(b: Seq<u8>, text: Seq<char>, rest: Seq<u8>)
    requires
        b.len() <= usize::MAX,
    ensures
        enc_bytes(b) == varint_bytes(b.len()) + b,
        enc_str(text) == varint_bytes(encode_utf8(text).len()) + encode_utf8(text),
        dec_bytes(varint_bytes(b.len()) + b + rest) == Ok::<(Seq<u8>, nat), Error>(
            (b, varint_bytes(b.len()).len() + b.len()),
        ),
{
    lemma_bytes_roundtrip(b, rest);
}


/// Reading a byte string: after a length prefix `len` that took `n` bytes,
/// exactly the next `len` bytes, refused with `UnexpectedEnd` when fewer
/// remain. Reading a string: those bytes when they are valid UTF-8, as the
/// characters they encode, refused with `InvalidUtf8` otherwise.
pub proof fn lemma_dec_bytes_wire(s: Seq<u8>)
    ensures
        dec_len(s) matches Err(e) ==> dec_bytes(s) == Err::<(Seq<u8>, nat), Error>(e),
        dec_len(s) matches Ok((len, n)) ==> (s.len() < n + len ==> dec_bytes(s) == Err::<
            (Seq<u8>, nat),
            Error,
        >(Error::UnexpectedEnd)) && (s.len() >= n + len ==> dec_bytes(s) == Ok::<
            (Seq<u8>, nat),
            Error,
        >((s.subrange(n as int, (n + len) as int), n + len))),
        dec_bytes(s) matches Err(e) ==> dec_str(s) == Err::<(Seq<char>, nat), Error>(e),
        dec_bytes(s) matches Ok((b, n)) ==> (valid_utf8(b) ==> dec_str(s) == Ok::<
            (Seq<char>, nat),
            Error,
        >((decode_utf8(b), n))) && (!valid_utf8(b) ==> dec_str(s) == Err::<
            (Seq<char>, nat),
            Error,
        >(Error::InvalidUtf8)),
{
}

} // verus!
