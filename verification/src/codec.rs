//! Values of the core scalar types, written and read on their own.
use vstd::prelude::*;

use crate::de::{read_as, Deserializer};
use crate::error::Error;
use crate::format::{
    dec_bool, dec_byte, dec_char, dec_int, dec_uint, enc_bool, enc_char, enc_i8, enc_int,
    enc_u8, enc_uint, lemma_bool_roundtrip, lemma_char_roundtrip, lemma_i8_roundtrip,
    lemma_int_roundtrip, lemma_u8_roundtrip, lemma_uint_roundtrip,
};
use crate::ser::Ser;
use crate::varint::{
    decode_varint, lemma_pow256_values, lemma_varint_len, lemma_varint_prefix_truncated,
    tag_range, varint_bytes, zigzag, U128_TAG, U16_TAG, U32_TAG, U64_TAG,
};
use crate::write::{appends, Writer};

verus! {

/// A value that can be written in the wire format.
pub trait Encode {
    /// The bytes the value is written as.
    spec fn encoding(&self) -> Seq<u8>;

    /// Writes the value, as one write.
    fn encode<W: Writer>(&self, s: &mut Ser<W>) -> (res: Result<(), Error>)
        ensures
            final(s).limit() == old(s).limit(),
            old(s).inv() ==> final(s).inv(),
            old(s).failed() ==> final(s).failed(),
            res == Err::<(), Error>(Error::NotSupported) ==> final(s).failed(),
            final(s).reliable() == old(s).reliable(),
            appends(
                old(s).output(),
                final(s).output(),
                old(s).limit(),
                old(s).reliable(),
                self.encoding(),
                res,
            ),
    ;
}

/// A value that can be read from the wire format.
pub trait Decode: Sized {
    /// Reading a value from the front of `input`: the value and the number
    /// of bytes it took, or the error.
    spec fn decoding(input: Seq<u8>) -> Result<(Self, nat), Error>;

    /// Reads a value.
    fn decode(d: &mut Deserializer<'_>) -> (res: Result<Self, Error>)
        ensures
            read_as(old(d).r, final(d).r, Self::decoding(old(d).r.rest()), res),
    ;
}

/// A value whose encoding reads back as the value.
pub trait RoundTrip: Encode + Decode {
    /// Reading the encoding of `v`, followed by any bytes at all, gives `v`
    /// and consumes exactly the encoding.
    proof fn lemma_roundtrip(v: Self, rest: Seq<u8>)
        ensures
            Self::decoding(v.encoding() + rest) == Ok::<(Self, nat), Error>(
                (v, v.encoding().len()),
            ),
    ;

    /// Every strict prefix of an encoding is refused as truncated input.
    proof fn lemma_truncated(v: Self)
        ensures
            forall|k: int|
                0 <= k < v.encoding().len() ==> #[trigger] Self::decoding(v.encoding().take(k))
                    == Err::<(Self, nat), Error>(Error::UnexpectedEnd),
    ;
}

impl Encode for bool {
    open spec fn encoding(&self) -> Seq<u8> {
        enc_bool(*self)
    }

    fn encode<W: Writer>(&self, s: &mut Ser<W>) -> (res: Result<(), Error>) {
        s.serialize_bool(*self)
    }
}

impl Encode for u8 {
    open spec fn encoding(&self) -> Seq<u8> {
        enc_u8(*self)
    }

    fn encode<W: Writer>(&self, s: &mut Ser<W>) -> (res: Result<(), Error>) {
        s.serialize_u8(*self)
    }
}

impl Encode for i8 {
    open spec fn encoding(&self) -> Seq<u8> {
        enc_i8(*self)
    }

    fn encode<W: Writer>(&self, s: &mut Ser<W>) -> (res: Result<(), Error>) {
        s.serialize_i8(*self)
    }
}

impl Encode for u16 {
    open spec fn encoding(&self) -> Seq<u8> {
        enc_uint(*self as nat)
    }

    fn encode<W: Writer>(&self, s: &mut Ser<W>) -> (res: Result<(), Error>) {
        s.serialize_u16(*self)
    }
}

impl Encode for u32 {
    open spec fn encoding(&self) -> Seq<u8> {
        enc_uint(*self as nat)
    }

    fn encode<W: Writer>(&self, s: &mut Ser<W>) -> (res: Result<(), Error>) {
        s.serialize_u32(*self)
    }
}

impl Encode for u64 {
    open spec fn encoding(&self) -> Seq<u8> {
        enc_uint(*self as nat)
    }

    fn encode<W: Writer>(&self, s: &mut Ser<W>) -> (res: Result<(), Error>) {
        s.serialize_u64(*self)
    }
}

impl Encode for u128 {
    open spec fn encoding(&self) -> Seq<u8> {
        enc_uint(*self as nat)
    }

    fn encode<W: Writer>(&self, s: &mut Ser<W>) -> (res: Result<(), Error>) {
        s.serialize_u128(*self)
    }
}

impl Encode for i16 {
    open spec fn encoding(&self) -> Seq<u8> {
        enc_int(*self as int)
    }

    fn encode<W: Writer>(&self, s: &mut Ser<W>) -> (res: Result<(), Error>) {
        s.serialize_i16(*self)
    }
}

impl Encode for i32 {
    open spec fn encoding(&self) -> Seq<u8> {
        enc_int(*self as int)
    }

    fn encode<W: Writer>(&self, s: &mut Ser<W>) -> (res: Result<(), Error>) {
        s.serialize_i32(*self)
    }
}

impl Encode for i64 {
    open spec fn encoding(&self) -> Seq<u8> {
        enc_int(*self as int)
    }

    fn encode<W: Writer>(&self, s: &mut Ser<W>) -> (res: Result<(), Error>) {
        s.serialize_i64(*self)
    }
}

impl Encode for i128 {
    open spec fn encoding(&self) -> Seq<u8> {
        enc_int(*self as int)
    }

    fn encode<W: Writer>(&self, s: &mut Ser<W>) -> (res: Result<(), Error>) {
        s.serialize_i128(*self)
    }
}

impl Encode for char {
    open spec fn encoding(&self) -> Seq<u8> {
        enc_char(*self)
    }

    fn encode<W: Writer>(&self, s: &mut Ser<W>) -> (res: Result<(), Error>) {
        s.serialize_char(*self)
    }
}

impl Encode for () {
    open spec fn encoding(&self) -> Seq<u8> {
        Seq::empty()
    }

    fn encode<W: Writer>(&self, s: &mut Ser<W>) -> (res: Result<(), Error>) {
        s.serialize_unit()
    }
}

impl Decode for bool {
    open spec fn decoding(input: Seq<u8>) -> Result<(bool, nat), Error> {
        dec_bool(input)
    }

    fn decode(d: &mut Deserializer<'_>) -> (res: Result<bool, Error>) {
        d.take_bool()
    }
}

impl Decode for u8 {
    open spec fn decoding(input: Seq<u8>) -> Result<(u8, nat), Error> {
        dec_byte(input)
    }

    fn decode(d: &mut Deserializer<'_>) -> (res: Result<u8, Error>) {
        d.take_u8()
    }
}

impl Decode for i8 {
    open spec fn decoding(input: Seq<u8>) -> Result<(i8, nat), Error> {
        match dec_byte(input) {
            Ok((b, n)) => Ok((b as i8, n)),
            Err(e) => Err(e),
        }
    }

    fn decode(d: &mut Deserializer<'_>) -> (res: Result<i8, Error>) {
        d.take_i8()
    }
}

impl Decode for u16 {
    open spec fn decoding(input: Seq<u8>) -> Result<(u16, nat), Error> {
        match dec_uint(input, U16_TAG) {
            Ok((v, k)) => Ok((v as u16, k)),
            Err(e) => Err(e),
        }
    }

    fn decode(d: &mut Deserializer<'_>) -> (res: Result<u16, Error>) {
        d.take_u16()
    }
}

impl Decode for i16 {
    open spec fn decoding(input: Seq<u8>) -> Result<(i16, nat), Error> {
        match dec_int(input, U16_TAG) {
            Ok((v, k)) => Ok((v as i16, k)),
            Err(e) => Err(e),
        }
    }

    fn decode(d: &mut Deserializer<'_>) -> (res: Result<i16, Error>) {
        d.take_i16()
    }
}

impl RoundTrip for u16 {
    proof fn lemma_roundtrip(v: u16, rest: Seq<u8>) {
        lemma_pow256_values();
        lemma_uint_roundtrip(v as nat, U16_TAG, rest);
    }

    proof fn lemma_truncated(v: u16) {
        assert forall|k: int| 0 <= k < v.encoding().len() implies #[trigger] Self::decoding(
            v.encoding().take(k),
        ) == Err::<(u16, nat), Error>(Error::UnexpectedEnd) by {
            lemma_pow256_values();
            lemma_varint_len(v as nat);
            lemma_varint_prefix_truncated(v as nat, U16_TAG, k as nat);
        }
    }
}

impl RoundTrip for i16 {
    proof fn lemma_roundtrip(v: i16, rest: Seq<u8>) {
        lemma_pow256_values();
        assert(zigzag(v as int) < tag_range(U16_TAG));
        lemma_int_roundtrip(v as int, U16_TAG, rest);
    }

    proof fn lemma_truncated(v: i16) {
        assert forall|k: int| 0 <= k < v.encoding().len() implies #[trigger] Self::decoding(
            v.encoding().take(k),
        ) == Err::<(i16, nat), Error>(Error::UnexpectedEnd) by {
            lemma_pow256_values();
            assert(zigzag(v as int) < tag_range(U16_TAG));
            lemma_varint_len(zigzag(v as int) as nat);
            lemma_varint_prefix_truncated(zigzag(v as int) as nat, U16_TAG, k as nat);
        }
    }
}

impl Decode for u32 {
    open spec fn decoding(input: Seq<u8>) -> Result<(u32, nat), Error> {
        match dec_uint(input, U32_TAG) {
            Ok((v, k)) => Ok((v as u32, k)),
            Err(e) => Err(e),
        }
    }

    fn decode(d: &mut Deserializer<'_>) -> (res: Result<u32, Error>) {
        d.take_u32()
    }
}

impl Decode for i32 {
    open spec fn decoding(input: Seq<u8>) -> Result<(i32, nat), Error> {
        match dec_int(input, U32_TAG) {
            Ok((v, k)) => Ok((v as i32, k)),
            Err(e) => Err(e),
        }
    }

    fn decode(d: &mut Deserializer<'_>) -> (res: Result<i32, Error>) {
        d.take_i32()
    }
}

impl RoundTrip for u32 {
    proof fn lemma_roundtrip(v: u32, rest: Seq<u8>) {
        lemma_pow256_values();
        lemma_uint_roundtrip(v as nat, U32_TAG, rest);
    }

    proof fn lemma_truncated(v: u32) {
        assert forall|k: int| 0 <= k < v.encoding().len() implies #[trigger] Self::decoding(
            v.encoding().take(k),
        ) == Err::<(u32, nat), Error>(Error::UnexpectedEnd) by {
            lemma_pow256_values();
            lemma_varint_len(v as nat);
            lemma_varint_prefix_truncated(v as nat, U32_TAG, k as nat);
        }
    }
}

impl RoundTrip for i32 {
    proof fn lemma_roundtrip(v: i32, rest: Seq<u8>) {
        lemma_pow256_values();
        assert(zigzag(v as int) < tag_range(U32_TAG));
        lemma_int_roundtrip(v as int, U32_TAG, rest);
    }

    proof fn lemma_truncated(v: i32) {
        assert forall|k: int| 0 <= k < v.encoding().len() implies #[trigger] Self::decoding(
            v.encoding().take(k),
        ) == Err::<(i32, nat), Error>(Error::UnexpectedEnd) by {
            lemma_pow256_values();
            assert(zigzag(v as int) < tag_range(U32_TAG));
            lemma_varint_len(zigzag(v as int) as nat);
            lemma_varint_prefix_truncated(zigzag(v as int) as nat, U32_TAG, k as nat);
        }
    }
}

impl Decode for u64 {
    open spec fn decoding(input: Seq<u8>) -> Result<(u64, nat), Error> {
        match dec_uint(input, U64_TAG) {
            Ok((v, k)) => Ok((v as u64, k)),
            Err(e) => Err(e),
        }
    }

    fn decode(d: &mut Deserializer<'_>) -> (res: Result<u64, Error>) {
        d.take_u64()
    }
}

impl Decode for i64 {
    open spec fn decoding(input: Seq<u8>) -> Result<(i64, nat), Error> {
        match dec_int(input, U64_TAG) {
            Ok((v, k)) => Ok((v as i64, k)),
            Err(e) => Err(e),
        }
    }

    fn decode(d: &mut Deserializer<'_>) -> (res: Result<i64, Error>) {
        d.take_i64()
    }
}

impl RoundTrip for u64 {
    proof fn lemma_roundtrip(v: u64, rest: Seq<u8>) {
        lemma_pow256_values();
        lemma_uint_roundtrip(v as nat, U64_TAG, rest);
    }

    proof fn lemma_truncated(v: u64) {
        assert forall|k: int| 0 <= k < v.encoding().len() implies #[trigger] Self::decoding(
            v.encoding().take(k),
        ) == Err::<(u64, nat), Error>(Error::UnexpectedEnd) by {
            lemma_pow256_values();
            lemma_varint_len(v as nat);
            lemma_varint_prefix_truncated(v as nat, U64_TAG, k as nat);
        }
    }
}

impl RoundTrip for i64 {
    proof fn lemma_roundtrip(v: i64, rest: Seq<u8>) {
        lemma_pow256_values();
        assert(zigzag(v as int) < tag_range(U64_TAG));
        lemma_int_roundtrip(v as int, U64_TAG, rest);
    }

    proof fn lemma_truncated(v: i64) {
        assert forall|k: int| 0 <= k < v.encoding().len() implies #[trigger] Self::decoding(
            v.encoding().take(k),
        ) == Err::<(i64, nat), Error>(Error::UnexpectedEnd) by {
            lemma_pow256_values();
            assert(zigzag(v as int) < tag_range(U64_TAG));
            lemma_varint_len(zigzag(v as int) as nat);
            lemma_varint_prefix_truncated(zigzag(v as int) as nat, U64_TAG, k as nat);
        }
    }
}

impl Decode for u128 {
    open spec fn decoding(input: Seq<u8>) -> Result<(u128, nat), Error> {
        match dec_uint(input, U128_TAG) {
            Ok((v, k)) => Ok((v as u128, k)),
            Err(e) => Err(e),
        }
    }

    fn decode(d: &mut Deserializer<'_>) -> (res: Result<u128, Error>) {
        d.take_u128()
    }
}

impl Decode for i128 {
    open spec fn decoding(input: Seq<u8>) -> Result<(i128, nat), Error> {
        match dec_int(input, U128_TAG) {
            Ok((v, k)) => Ok((v as i128, k)),
            Err(e) => Err(e),
        }
    }

    fn decode(d: &mut Deserializer<'_>) -> (res: Result<i128, Error>) {
        d.take_i128()
    }
}

impl RoundTrip for u128 {
    proof fn lemma_roundtrip(v: u128, rest: Seq<u8>) {
        lemma_pow256_values();
        lemma_uint_roundtrip(v as nat, U128_TAG, rest);
    }

    proof fn lemma_truncated(v: u128) {
        assert forall|k: int| 0 <= k < v.encoding().len() implies #[trigger] Self::decoding(
            v.encoding().take(k),
        ) == Err::<(u128, nat), Error>(Error::UnexpectedEnd) by {
            lemma_pow256_values();
            lemma_varint_len(v as nat);
            lemma_varint_prefix_truncated(v as nat, U128_TAG, k as nat);
        }
    }
}

impl RoundTrip for i128 {
    proof fn lemma_roundtrip(v: i128, rest: Seq<u8>) {
        lemma_pow256_values();
        assert(zigzag(v as int) < tag_range(U128_TAG));
        lemma_int_roundtrip(v as int, U128_TAG, rest);
    }

    proof fn lemma_truncated(v: i128) {
        assert forall|k: int| 0 <= k < v.encoding().len() implies #[trigger] Self::decoding(
            v.encoding().take(k),
        ) == Err::<(i128, nat), Error>(Error::UnexpectedEnd) by {
            lemma_pow256_values();
            assert(zigzag(v as int) < tag_range(U128_TAG));
            lemma_varint_len(zigzag(v as int) as nat);
            lemma_varint_prefix_truncated(zigzag(v as int) as nat, U128_TAG, k as nat);
        }
    }
}

impl Decode for char {
    open spec fn decoding(input: Seq<u8>) -> Result<(char, nat), Error> {
        match dec_char(input) {
            Ok((v, k)) => Ok((v as char, k)),
            Err(e) => Err(e),
        }
    }

    fn decode(d: &mut Deserializer<'_>) -> (res: Result<char, Error>) {
        let res = d.take_char();
        proof {
            if let Ok(c) = res {
                vstd::utf8::char_u32_cast(c, c as u32);
            }
        }
        res
    }
}

impl Decode for () {
    open spec fn decoding(input: Seq<u8>) -> Result<((), nat), Error> {
        Ok(((), 0))
    }

    fn decode(d: &mut Deserializer<'_>) -> (res: Result<(), Error>) {
        assert(d.r.rest().skip(0) =~= d.r.rest());
        Ok(())
    }
}

impl RoundTrip for bool {
    proof fn lemma_roundtrip(v: bool, rest: Seq<u8>) {
        lemma_bool_roundtrip(v, rest);
    }

    proof fn lemma_truncated(v: bool) {
        assert forall|k: int| 0 <= k < v.encoding().len() implies #[trigger] Self::decoding(
            v.encoding().take(k),
        ) == Err::<(bool, nat), Error>(Error::UnexpectedEnd) by {
        }
    }
}

impl RoundTrip for u8 {
    proof fn lemma_roundtrip(v: u8, rest: Seq<u8>) {
        lemma_u8_roundtrip(v, rest);
    }

    proof fn lemma_truncated(v: u8) {
        assert forall|k: int| 0 <= k < v.encoding().len() implies #[trigger] Self::decoding(
            v.encoding().take(k),
        ) == Err::<(u8, nat), Error>(Error::UnexpectedEnd) by {
        }
    }
}

impl RoundTrip for i8 {
    proof fn lemma_roundtrip(v: i8, rest: Seq<u8>) {
        lemma_i8_roundtrip(v, rest);
    }

    proof fn lemma_truncated(v: i8) {
        assert forall|k: int| 0 <= k < v.encoding().len() implies #[trigger] Self::decoding(
            v.encoding().take(k),
        ) == Err::<(i8, nat), Error>(Error::UnexpectedEnd) by {
        }
    }
}

impl RoundTrip for char {
    proof fn lemma_roundtrip(v: char, rest: Seq<u8>) {
        lemma_char_roundtrip(v, rest);
        vstd::utf8::char_u32_cast(v, v as u32);
    }

    proof fn lemma_truncated(v: char) {
        assert forall|k: int| 0 <= k < v.encoding().len() implies #[trigger] Self::decoding(
            v.encoding().take(k),
        ) == Err::<(char, nat), Error>(Error::UnexpectedEnd) by {
            lemma_char_roundtrip(v, Seq::empty());
            lemma_pow256_values();
            vstd::utf8::char_is_scalar(v);
            lemma_varint_len(v as nat);
            lemma_varint_prefix_truncated(v as nat, U32_TAG, k as nat);
        }
    }
}

impl RoundTrip for () {
    proof fn lemma_roundtrip(v: (), rest: Seq<u8>) {
        assert(Seq::<u8>::empty() + rest =~= rest);
    }

    proof fn lemma_truncated(v: ()) {
        assert forall|k: int| 0 <= k < v.encoding().len() implies #[trigger] Self::decoding(
            v.encoding().take(k),
        ) == Err::<((), nat), Error>(Error::UnexpectedEnd) by {
        }
    }
}


/// What each scalar type is written as: the byte of a `bool` (0 or 1), of
/// a `u8`, or of an `i8`'s two's complement; the varint of an unsigned
/// value; the varint of a signed value's zigzag image (`2 v` for `v >= 0`,
/// `-2 v - 1` below); the varint of a `char`'s code point; nothing for `()`.
pub proof fn lemma_scalar_encodings(
    b: bool,
    x8: u8,
    y8: i8,
    x16: u16,
    y16: i16,
    x32: u32,
    y32: i32,
    x64: u64,
    y64: i64,
    x128: u128,
    y128: i128,
    c: char,
)
    ensures
        b.encoding() == seq![if b { 1u8 } else { 0u8 }],
        x8.encoding() == seq![x8],
        y8.encoding() == seq![y8 as u8],
        x16.encoding() == varint_bytes(x16 as nat),
        x32.encoding() == varint_bytes(x32 as nat),
        x64.encoding() == varint_bytes(x64 as nat),
        x128.encoding() == varint_bytes(x128 as nat),
        y16.encoding() == varint_bytes((if y16 >= 0 {
            2 * y16
        } else {
            -2 * y16 - 1
        }) as nat),
        y32.encoding() == varint_bytes((if y32 >= 0 {
            2 * y32
        } else {
            -2 * y32 - 1
        }) as nat),
        y64.encoding() == varint_bytes((if y64 >= 0 {
            2 * y64
        } else {
            -2 * y64 - 1
        }) as nat),
        y128.encoding() == varint_bytes((if y128 >= 0 {
            2 * y128
        } else {
            -2 * y128 - 1
        }) as nat),
        c.encoding() == varint_bytes(c as u32 as nat),
        <() as Encode>::encoding(&()) == Seq::<u8>::empty(),
{
}

/// What reading each scalar type is: a `bool` byte; one byte, as is or as
/// two's complement; a varint of the type's width (tags up to 251, 252,
/// 253, 254 for 16, 32, 64, 128 bits); the zigzag preimage of such a
/// varint; a `u32`-range code point; nothing for `()`.
pub proof fn lemma_scalar_decodings(s: Seq<u8>)
    ensures
        <bool as Decode>::decoding(s) == dec_bool(s),
        <u8 as Decode>::decoding(s) == dec_byte(s),
        <i8 as Decode>::decoding(s) == match dec_byte(s) {
            Ok((v, k)) => Ok::<(i8, nat), Error>((v as i8, k)),
            Err(e) => Err::<(i8, nat), Error>(e),
        },
        <u16 as Decode>::decoding(s) == match decode_varint(s, 251) {
            Ok((v, k)) => Ok::<(u16, nat), Error>((v as u16, k)),
            Err(e) => Err::<(u16, nat), Error>(e),
        },
        <u32 as Decode>::decoding(s) == match decode_varint(s, 252) {
            Ok((v, k)) => Ok::<(u32, nat), Error>((v as u32, k)),
            Err(e) => Err::<(u32, nat), Error>(e),
        },
        <u64 as Decode>::decoding(s) == match decode_varint(s, 253) {
            Ok((v, k)) => Ok::<(u64, nat), Error>((v as u64, k)),
            Err(e) => Err::<(u64, nat), Error>(e),
        },
        <u128 as Decode>::decoding(s) == match decode_varint(s, 254) {
            Ok((v, k)) => Ok::<(u128, nat), Error>((v as u128, k)),
            Err(e) => Err::<(u128, nat), Error>(e),
        },
        <i16 as Decode>::decoding(s) == match dec_int(s, 251) {
            Ok((v, k)) => Ok::<(i16, nat), Error>((v as i16, k)),
            Err(e) => Err::<(i16, nat), Error>(e),
        },
        <i32 as Decode>::decoding(s) == match dec_int(s, 252) {
            Ok((v, k)) => Ok::<(i32, nat), Error>((v as i32, k)),
            Err(e) => Err::<(i32, nat), Error>(e),
        },
        <i64 as Decode>::decoding(s) == match dec_int(s, 253) {
            Ok((v, k)) => Ok::<(i64, nat), Error>((v as i64, k)),
            Err(e) => Err::<(i64, nat), Error>(e),
        },
        <i128 as Decode>::decoding(s) == match dec_int(s, 254) {
            Ok((v, k)) => Ok::<(i128, nat), Error>((v as i128, k)),
            Err(e) => Err::<(i128, nat), Error>(e),
        },
        <char as Decode>::decoding(s) == match dec_char(s) {
            Ok((v, k)) => Ok::<(char, nat), Error>((v as char, k)),
            Err(e) => Err::<(char, nat), Error>(e),
        },
        <() as Decode>::decoding(s) == Ok::<((), nat), Error>(((), 0)),
{
}

} // verus!
