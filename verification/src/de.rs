//! The deserializer: reads each kind of value of the wire format from the
//! front of the input, borrowing strings and byte strings zero-copy.
use vstd::prelude::*;
use vstd::string::StringSliceAdditionalSpecFns;
use vstd::utf8::{is_scalar, valid_utf8};

use crate::error::Error;
use crate::format::{
    dec_bool, dec_byte, dec_bytes, dec_char, dec_fixed, dec_int, dec_len, dec_option_tag,
    dec_str, dec_uint, dec_variant,
};
use crate::read::Reader;
use crate::varint::{
    le_decode, lemma_decode_varint_range, lemma_le_value_bound, lemma_pow256_values,
    unzigzag_i128, unzigzag_i16, unzigzag_i32, unzigzag_i64, U128_TAG, U16_TAG,
    U32_TAG, U64_TAG,
};

verus! {

/// `core::str::from_utf8`: the string that the bytes encode, when they are
/// valid UTF-8 (as vstd's `valid_utf8` defines it), viewing the same bytes;
/// `None` when they are not.
#[verifier::external_body]
fn str_from_utf8<'a>(bytes: &'a [u8]) -> (res: Option<&'a str>)
    ensures
        res is Some <==> valid_utf8(bytes@),
        res matches Some(s) ==> s.spec_bytes() == bytes@,
{
    core::str::from_utf8(bytes).ok()
}

/// `char::from_u32`: the character with code point `v`, when `v` is a
/// Unicode scalar value; `None` otherwise.
#[verifier::external_body]
fn char_from_u32(v: u32) -> (res: Option<char>)
    ensures
        res is Some <==> is_scalar(v),
        res matches Some(c) ==> c as u32 == v,
{
    char::from_u32(v)
}

/// What a read with outcome `spec` did to the reader `before`, leaving
/// `after`: on success the value was read and `n` bytes consumed.
pub open spec fn read_as<T>(
    before: Reader,
    after: Reader,
    spec: Result<(T, nat), Error>,
    res: Result<T, Error>,
) -> bool {
    &&& after.input() == before.input()
    &&& after.position() >= before.position()
    &&& match spec {
        Ok((v, n)) => res == Ok::<T, Error>(v) && after.rest() == before.rest().skip(n as int),
        Err(e) => res == Err::<T, Error>(e),
    }
}

pub struct Deserializer<'de> {
    pub r: Reader<'de>,
}

impl<'de> Deserializer<'de> {
    pub fn new(buf: &'de [u8]) -> (d: Self)
        ensures
            d.r.input() == buf@,
            d.r.rest() == buf@,
            d.r.position() == 0,
    {
        Deserializer { r: Reader::new(buf) }
    }

    /// Reads a length prefix.
    pub fn take_len(&mut self) -> (res: Result<usize, Error>)
        ensures
            final(self).r.input() == old(self).r.input(),
            final(self).r.position() >= old(self).r.position(),
            match dec_len(old(self).r.rest()) {
                Ok((v, n)) => res == Ok::<usize, Error>(v as usize) && final(self).r.rest() == old(
                    self).r.rest().skip(n as int),
                Err(e) => res == Err::<usize, Error>(e),
            },
    {
        proof {
            lemma_decode_varint_range(old(self).r.rest(), U64_TAG);
        }
        let n = match self.r.read_varint_u64() {
            Ok(n) => n,
            Err(e) => return Err(e),
        };
        if n > usize::MAX as u64 {
            return Err(Error::InvalidLength);
        }
        Ok(n as usize)
    }

    /// Reads a byte string, borrowed from the input.
    pub fn take_bytes(&mut self) -> (res: Result<&'de [u8], Error>)
        ensures
            final(self).r.input() == old(self).r.input(),
            final(self).r.position() >= old(self).r.position(),
            match dec_bytes(old(self).r.rest()) {
                Ok((b, n)) => res is Ok && res->Ok_0@ == b && final(self).r.rest() == old(
                    self).r.rest().skip(n as int),
                Err(e) => res == Err::<&'de [u8], Error>(e),
            },
    {
        let ghost s = old(self).r.rest();
        let len = match self.take_len() {
            Ok(len) => len,
            Err(e) => return Err(e),
        };
        let ghost n = s.len() - self.r.rest().len();
        let res = self.r.read_slice(len);
        proof {
            if res is Ok {
                assert(res->Ok_0@ =~= s.subrange(n, n + len));
                assert(self.r.rest() =~= s.skip(n + len));
            }
        }
        res
    }

    /// Reads a string, borrowed from the input.
    pub fn take_borrowed_str(&mut self) -> (res: Result<&'de str, Error>)
        ensures
            final(self).r.input() == old(self).r.input(),
            final(self).r.position() >= old(self).r.position(),
            match dec_str(old(self).r.rest()) {
                Ok((c, n)) => res is Ok && res->Ok_0@ == c && final(self).r.rest() == old(
                    self).r.rest().skip(n as int),
                Err(e) => res == Err::<&'de str, Error>(e),
            },
    {
        let bytes = match self.take_bytes() {
            Ok(b) => b,
            Err(e) => return Err(e),
        };
        match str_from_utf8(bytes) {
            Some(s) => {
                proof {
                    vstd::utf8::encode_utf8_decode_utf8(s@);
                }
                Ok(s)
            },
            None => Err(Error::InvalidUtf8),
        }
    }

    pub fn take_bool(&mut self) -> (res: Result<bool, Error>)
        ensures
            read_as(old(self).r, final(self).r, dec_bool(old(self).r.rest()), res),
    {
        match self.r.read_byte() {
            Ok(0) => Ok(false),
            Ok(1) => Ok(true),
            Ok(_) => Err(Error::InvalidBool),
            Err(e) => Err(e),
        }
    }

    pub fn take_u8(&mut self) -> (res: Result<u8, Error>)
        ensures
            read_as(old(self).r, final(self).r, dec_byte(old(self).r.rest()), res),
    {
        self.r.read_byte()
    }

    pub fn take_i8(&mut self) -> (res: Result<i8, Error>)
        ensures
            final(self).r.input() == old(self).r.input(),
            final(self).r.position() >= old(self).r.position(),
            match dec_byte(old(self).r.rest()) {
                Ok((b, n)) => res == Ok::<i8, Error>(b as i8) && final(self).r.rest() == old(
                    self).r.rest().skip(n as int),
                Err(e) => res == Err::<i8, Error>(e),
            },
    {
        match self.r.read_byte() {
            Ok(b) => Ok(b as i8),
            Err(e) => Err(e),
        }
    }

    pub fn take_u16(&mut self) -> (res: Result<u16, Error>)
        ensures
            final(self).r.input() == old(self).r.input(),
            final(self).r.position() >= old(self).r.position(),
            match dec_uint(old(self).r.rest(), U16_TAG) {
                Ok((v, k)) => res == Ok::<u16, Error>(v as u16) && final(self).r.rest() == old(
                    self).r.rest().skip(k as int),
                Err(e) => res == Err::<u16, Error>(e),
            },
    {
        self.r.read_varint_u16()
    }

    pub fn take_i16(&mut self) -> (res: Result<i16, Error>)
        ensures
            final(self).r.input() == old(self).r.input(),
            final(self).r.position() >= old(self).r.position(),
            match dec_int(old(self).r.rest(), U16_TAG) {
                Ok((v, k)) => res == Ok::<i16, Error>(v as i16) && final(self).r.rest() == old(
                    self).r.rest().skip(k as int),
                Err(e) => res == Err::<i16, Error>(e),
            },
    {
        proof {
            lemma_decode_varint_range(old(self).r.rest(), U16_TAG);
        }
        match self.r.read_varint_u16() {
            Ok(u) => Ok(unzigzag_i16(u)),
            Err(e) => Err(e),
        }
    }

    pub fn take_u32(&mut self) -> (res: Result<u32, Error>)
        ensures
            final(self).r.input() == old(self).r.input(),
            final(self).r.position() >= old(self).r.position(),
            match dec_uint(old(self).r.rest(), U32_TAG) {
                Ok((v, k)) => res == Ok::<u32, Error>(v as u32) && final(self).r.rest() == old(
                    self).r.rest().skip(k as int),
                Err(e) => res == Err::<u32, Error>(e),
            },
    {
        self.r.read_varint_u32()
    }

    pub fn take_i32(&mut self) -> (res: Result<i32, Error>)
        ensures
            final(self).r.input() == old(self).r.input(),
            final(self).r.position() >= old(self).r.position(),
            match dec_int(old(self).r.rest(), U32_TAG) {
                Ok((v, k)) => res == Ok::<i32, Error>(v as i32) && final(self).r.rest() == old(
                    self).r.rest().skip(k as int),
                Err(e) => res == Err::<i32, Error>(e),
            },
    {
        proof {
            lemma_decode_varint_range(old(self).r.rest(), U32_TAG);
        }
        match self.r.read_varint_u32() {
            Ok(u) => Ok(unzigzag_i32(u)),
            Err(e) => Err(e),
        }
    }

    pub fn take_u64(&mut self) -> (res: Result<u64, Error>)
        ensures
            final(self).r.input() == old(self).r.input(),
            final(self).r.position() >= old(self).r.position(),
            match dec_uint(old(self).r.rest(), U64_TAG) {
                Ok((v, k)) => res == Ok::<u64, Error>(v as u64) && final(self).r.rest() == old(
                    self).r.rest().skip(k as int),
                Err(e) => res == Err::<u64, Error>(e),
            },
    {
        self.r.read_varint_u64()
    }

    pub fn take_i64(&mut self) -> (res: Result<i64, Error>)
        ensures
            final(self).r.input() == old(self).r.input(),
            final(self).r.position() >= old(self).r.position(),
            match dec_int(old(self).r.rest(), U64_TAG) {
                Ok((v, k)) => res == Ok::<i64, Error>(v as i64) && final(self).r.rest() == old(
                    self).r.rest().skip(k as int),
                Err(e) => res == Err::<i64, Error>(e),
            },
    {
        proof {
            lemma_decode_varint_range(old(self).r.rest(), U64_TAG);
        }
        match self.r.read_varint_u64() {
            Ok(u) => Ok(unzigzag_i64(u)),
            Err(e) => Err(e),
        }
    }

    pub fn take_u128(&mut self) -> (res: Result<u128, Error>)
        ensures
            final(self).r.input() == old(self).r.input(),
            final(self).r.position() >= old(self).r.position(),
            match dec_uint(old(self).r.rest(), U128_TAG) {
                Ok((v, k)) => res == Ok::<u128, Error>(v as u128) && final(self).r.rest() == old(
                    self).r.rest().skip(k as int),
                Err(e) => res == Err::<u128, Error>(e),
            },
    {
        self.r.read_varint_u128()
    }

    pub fn take_i128(&mut self) -> (res: Result<i128, Error>)
        ensures
            final(self).r.input() == old(self).r.input(),
            final(self).r.position() >= old(self).r.position(),
            match dec_int(old(self).r.rest(), U128_TAG) {
                Ok((v, k)) => res == Ok::<i128, Error>(v as i128) && final(self).r.rest() == old(
                    self).r.rest().skip(k as int),
                Err(e) => res == Err::<i128, Error>(e),
            },
    {
        proof {
            lemma_decode_varint_range(old(self).r.rest(), U128_TAG);
        }
        match self.r.read_varint_u128() {
            Ok(u) => Ok(unzigzag_i128(u)),
            Err(e) => Err(e),
        }
    }

    /// Reads the bit pattern of an `f32`: 4 little-endian bytes.
    pub fn take_f32_bits(&mut self) -> (res: Result<u32, Error>)
        ensures
            final(self).r.input() == old(self).r.input(),
            final(self).r.position() >= old(self).r.position(),
            match dec_fixed(old(self).r.rest(), 4) {
                Ok((v, k)) => res == Ok::<u32, Error>(v as u32) && final(self).r.rest() == old(
                    self).r.rest().skip(k as int),
                Err(e) => res == Err::<u32, Error>(e),
            },
    {
        match self.r.read_slice(4) {
            Ok(b) => {
                proof {
                    lemma_le_value_bound(b@);
                    lemma_pow256_values();
                }
                Ok(le_decode(b) as u32)
            },
            Err(e) => Err(e),
        }
    }

    /// Reads the bit pattern of an `f64`: 8 little-endian bytes.
    pub fn take_f64_bits(&mut self) -> (res: Result<u64, Error>)
        ensures
            final(self).r.input() == old(self).r.input(),
            final(self).r.position() >= old(self).r.position(),
            match dec_fixed(old(self).r.rest(), 8) {
                Ok((v, k)) => res == Ok::<u64, Error>(v as u64) && final(self).r.rest() == old(
                    self).r.rest().skip(k as int),
                Err(e) => res == Err::<u64, Error>(e),
            },
    {
        match self.r.read_slice(8) {
            Ok(b) => {
                proof {
                    lemma_le_value_bound(b@);
                    lemma_pow256_values();
                }
                Ok(le_decode(b) as u64)
            },
            Err(e) => Err(e),
        }
    }

    pub fn take_char(&mut self) -> (res: Result<char, Error>)
        ensures
            final(self).r.input() == old(self).r.input(),
            final(self).r.position() >= old(self).r.position(),
            match dec_char(old(self).r.rest()) {
                Ok((v, k)) => res is Ok && res->Ok_0 as u32 == v && final(self).r.rest() == old(
                    self).r.rest().skip(k as int),
                Err(e) => res == Err::<char, Error>(e),
            },
    {
        proof {
            lemma_decode_varint_range(old(self).r.rest(), U32_TAG);
        }
        let v = match self.r.read_varint_u32() {
            Ok(v) => v,
            Err(e) => return Err(e),
        };
        match char_from_u32(v) {
            Some(c) => Ok(c),
            None => Err(Error::InvalidChar),
        }
    }

    /// Reads the tag of an `Option`: whether a value follows.
    pub fn take_option_tag(&mut self) -> (res: Result<bool, Error>)
        ensures
            read_as(old(self).r, final(self).r, dec_option_tag(old(self).r.rest()), res),
    {
        match self.r.read_byte() {
            Ok(0) => Ok(false),
            Ok(1) => Ok(true),
            Ok(_) => Err(Error::InvalidOption),
            Err(e) => Err(e),
        }
    }

    /// Reads the variant index of an enum value.
    pub fn take_variant(&mut self) -> (res: Result<u32, Error>)
        ensures
            final(self).r.input() == old(self).r.input(),
            final(self).r.position() >= old(self).r.position(),
            match dec_variant(old(self).r.rest()) {
                Ok((v, k)) => res == Ok::<u32, Error>(v as u32) && final(self).r.rest() == old(
                    self).r.rest().skip(k as int),
                Err(e) => res == Err::<u32, Error>(e),
            },
    {
        self.r.read_varint_u32()
    }
}


/// The number of elements (or map entries) of a sequence that have not
/// been read yet.
pub struct ElementCount {
    remaining: usize,
}

impl ElementCount {
    pub closed spec fn remaining(self) -> nat {
        self.remaining as nat
    }

    pub fn new(len: usize) -> (c: Self)
        ensures
            c.remaining() == len,
    {
        ElementCount { remaining: len }
    }

    /// Whether another element follows; if so, it is counted as read.
    pub fn next_element(&mut self) -> (more: bool)
        ensures
            more == (old(self).remaining() > 0),
            more ==> final(self).remaining() == old(self).remaining() - 1,
            !more ==> final(self).remaining() == old(self).remaining(),
    {
        if self.remaining == 0 {
            return false;
        }
        self.remaining = self.remaining - 1;
        true
    }

    /// Whether another map entry follows (its key is next).
    pub fn has_next(&self) -> (more: bool)
        ensures
            more == (self.remaining() > 0),
    {
        self.remaining > 0
    }

    /// Counts one map entry as read, once its value has been read.
    pub fn entry_done(&mut self)
        requires
            old(self).remaining() > 0,
        ensures
            final(self).remaining() == old(self).remaining() - 1,
    {
        self.remaining = self.remaining - 1;
    }

    /// The element count to preallocate for, given how many input bytes
    /// are left. A count above the remaining input bytes cannot be genuine
    /// for elements of non-zero size, so no hint is given then: a bogus
    /// length prefix cannot force a huge allocation.
    pub fn size_hint(&self, input_remaining: usize) -> (hint: Option<usize>)
        ensures
            self.remaining() > input_remaining ==> hint is None,
            self.remaining() <= input_remaining ==> hint == Some(self.remaining() as usize),
    {
        if self.remaining > input_remaining {
            None
        } else {
            Some(self.remaining)
        }
    }
}

} // verus!
