//! The serializer: writes each kind of value in the wire format.
use vstd::prelude::*;

use vstd::utf8::encode_utf8;

use crate::error::Error;
use crate::format::{
    enc_bool, enc_bytes, enc_char, enc_f32_bits, enc_f64_bits, enc_i8, enc_int, enc_len,
    enc_option_tag, enc_u8, enc_uint, enc_variant,
};
use crate::varint::{
    push_le, varint_bytes, varint_encode, zigzag_i128, zigzag_i16,
    zigzag_i32, zigzag_i64, SINGLE_BYTE_MAX,
};
use crate::write::{appends, refusal, Writer};

verus! {

/// What a write of the byte string `b` leaves in a sink that has no room
/// for all of it: nothing for a short string, which is one write; for a
/// longer one, its length prefix when that alone still fits.
pub open spec fn partial_prefix(before: Seq<u8>, limit: nat, b: Seq<u8>) -> Seq<u8> {
    if b.len() > SINGLE_BYTE_MAX && before.len() + varint_bytes(b.len()).len() <= limit {
        before + varint_bytes(b.len())
    } else {
        before
    }
}

/// What a write of the byte string `b` with its length prefix did to a
/// sink: as [`appends`] for its whole encoding, except that a refused long
/// string (prefix of more than one byte, written separately) may leave its
/// prefix behind, and does so on a reliable sink exactly when the prefix
/// alone fits.
pub open spec fn appends_prefixed(
    before: Seq<u8>,
    after: Seq<u8>,
    limit: nat,
    reliable: bool,
    b: Seq<u8>,
    res: Result<(), Error>,
) -> bool {
    &&& res is Ok ==> after == before + enc_bytes(b)
    &&& res is Err ==> refusal(reliable, res) && (after == before || (
    b.len() > SINGLE_BYTE_MAX && after == before + varint_bytes(b.len())))
    &&& before.len() + enc_bytes(b).len() > limit ==> res is Err
    &&& res == Err::<(), Error>(Error::ExceedsBuffer) ==> before.len() + enc_bytes(b).len() > limit
    &&& reliable && before.len() + enc_bytes(b).len() <= limit ==> res is Ok
    &&& reliable && before.len() + enc_bytes(b).len() > limit ==> after == partial_prefix(
        before,
        limit,
        b,
    )
}

pub struct Ser<W: Writer> {
    w: W,
}

impl<W: Writer> Ser<W> {
    /// The bytes the underlying sink holds.
    pub closed spec fn output(&self) -> Seq<u8> {
        self.w.output()
    }

    /// The capacity of the underlying sink.
    pub closed spec fn limit(&self) -> nat {
        self.w.limit()
    }

    /// Whether the underlying sink refuses only what passes its limit.
    pub closed spec fn reliable(&self) -> bool {
        self.w.reliable()
    }

    /// The underlying sink's invariant.
    pub closed spec fn inv(&self) -> bool {
        self.w.inv()
    }

    /// Whether the stream behind the underlying sink has failed.
    pub closed spec fn failed(&self) -> bool {
        self.w.failed()
    }

    /// A serializer writing into `w`; pass `&mut w` to keep the sink.
    pub fn new(w: W) -> (s: Self)
        ensures
            s.output() == w.output(),
            s.limit() == w.limit(),
            s.reliable() == w.reliable(),
            s.inv() == w.inv(),
            s.failed() == w.failed(),
    {
        Ser { w }
    }

    /// The sink, with everything written.
    pub fn into_writer(self) -> (w: W)
        ensures
            w.output() == self.output(),
            w.limit() == self.limit(),
            w.reliable() == self.reliable(),
            w.inv() == self.inv(),
            w.failed() == self.failed(),
    {
        self.w
    }

    /// Writes `bytes` as one write: all of them or none.
    fn put(&mut self, bytes: &[u8]) -> (res: Result<(), Error>)
        ensures
            final(self).limit() == old(self).limit(),
            old(self).inv() ==> final(self).inv(),
            old(self).failed() ==> final(self).failed(),
            res == Err::<(), Error>(Error::NotSupported) ==> final(self).failed(),
            final(self).reliable() == old(self).reliable(),
            appends(
                old(self).output(),
                final(self).output(),
                old(self).limit(),
                old(self).reliable(),
                bytes@,
                res,
            ),
    {
        self.w.write_all(bytes)
    }

    /// Writes one byte.
    fn put_byte(&mut self, b: u8) -> (res: Result<(), Error>)
        ensures
            final(self).limit() == old(self).limit(),
            old(self).inv() ==> final(self).inv(),
            old(self).failed() ==> final(self).failed(),
            res == Err::<(), Error>(Error::NotSupported) ==> final(self).failed(),
            final(self).reliable() == old(self).reliable(),
            appends(
                old(self).output(),
                final(self).output(),
                old(self).limit(),
                old(self).reliable(),
                seq![b],
                res,
            ),
    {
        self.w.write_byte(b)
    }

    /// Writes a `u64`-range varint; each width is one write of exactly its
    /// bytes, so exact-fit buffers work.
    pub fn put_varint_u64(&mut self, v: u64) -> (res: Result<(), Error>)
        ensures
            final(self).limit() == old(self).limit(),
            old(self).inv() ==> final(self).inv(),
            old(self).failed() ==> final(self).failed(),
            res == Err::<(), Error>(Error::NotSupported) ==> final(self).failed(),
            final(self).reliable() == old(self).reliable(),
            appends(
                old(self).output(),
                final(self).output(),
                old(self).limit(),
                old(self).reliable(),
                varint_bytes(v as nat),
                res,
            ),
    {
        if v <= SINGLE_BYTE_MAX as u64 {
            return self.put_byte(v as u8);
        }
        let bytes = varint_encode(v as u128);
        self.put(bytes.as_slice())
    }

    /// Writes a varint of any `u128`: the `u64`-range form when the value
    /// fits in a `u64`, else the 128-bit tag and 16 little-endian bytes;
    /// one write either way.
    pub fn put_varint_u128(&mut self, v: u128) -> (res: Result<(), Error>)
        ensures
            final(self).limit() == old(self).limit(),
            old(self).inv() ==> final(self).inv(),
            old(self).failed() ==> final(self).failed(),
            res == Err::<(), Error>(Error::NotSupported) ==> final(self).failed(),
            final(self).reliable() == old(self).reliable(),
            appends(
                old(self).output(),
                final(self).output(),
                old(self).limit(),
                old(self).reliable(),
                varint_bytes(v as nat),
                res,
            ),
    {
        if v <= u64::MAX as u128 {
            return self.put_varint_u64(v as u64);
        }
        let bytes = varint_encode(v);
        self.put(bytes.as_slice())
    }

    fn put_len(&mut self, len: usize) -> (res: Result<(), Error>)
        ensures
            final(self).limit() == old(self).limit(),
            old(self).inv() ==> final(self).inv(),
            old(self).failed() ==> final(self).failed(),
            res == Err::<(), Error>(Error::NotSupported) ==> final(self).failed(),
            final(self).reliable() == old(self).reliable(),
            appends(
                old(self).output(),
                final(self).output(),
                old(self).limit(),
                old(self).reliable(),
                enc_len(len),
                res,
            ),
    {
        self.put_varint_u64(len as u64)
    }

    fn put_variant_index(&mut self, index: u32) -> (res: Result<(), Error>)
        ensures
            final(self).limit() == old(self).limit(),
            old(self).inv() ==> final(self).inv(),
            old(self).failed() ==> final(self).failed(),
            res == Err::<(), Error>(Error::NotSupported) ==> final(self).failed(),
            final(self).reliable() == old(self).reliable(),
            appends(
                old(self).output(),
                final(self).output(),
                old(self).limit(),
                old(self).reliable(),
                enc_variant(index),
                res,
            ),
    {
        self.put_varint_u64(index as u64)
    }

    /// Writes a length-prefixed byte string. A short string (single-byte
    /// prefix) is one write; a longer one is the prefix, then the bytes,
    /// so that on a full sink the prefix alone may have been written.
    pub fn put_len_prefixed_bytes(&mut self, bytes: &[u8]) -> (res: Result<(), Error>)
        ensures
            final(self).limit() == old(self).limit(),
            old(self).inv() ==> final(self).inv(),
            old(self).failed() ==> final(self).failed(),
            res == Err::<(), Error>(Error::NotSupported) ==> final(self).failed(),
            final(self).reliable() == old(self).reliable(),
            appends_prefixed(
                old(self).output(),
                final(self).output(),
                old(self).limit(),
                old(self).reliable(),
                bytes@,
                res,
            ),
    {
        let len = bytes.len();
        if len <= SINGLE_BYTE_MAX as usize {
            let mut buf: Vec<u8> = Vec::with_capacity(1 + len);
            buf.push(len as u8);
            buf.extend_from_slice(bytes);
            assert(buf@ =~= enc_bytes(bytes@));
            return self.put(buf.as_slice());
        }
        match self.put_len(len) {
            Ok(()) => {},
            Err(e) => {
                return Err(e);
            },
        }
        let res = self.put(bytes);
        assert(old(self).output() + varint_bytes(len as nat) + bytes@ =~= old(self).output()
            + enc_bytes(bytes@));
        res
    }

    pub fn serialize_bool(&mut self, v: bool) -> (res: Result<(), Error>)
        ensures
            final(self).limit() == old(self).limit(),
            old(self).inv() ==> final(self).inv(),
            old(self).failed() ==> final(self).failed(),
            res == Err::<(), Error>(Error::NotSupported) ==> final(self).failed(),
            final(self).reliable() == old(self).reliable(),
            appends(
                old(self).output(),
                final(self).output(),
                old(self).limit(),
                old(self).reliable(),
                enc_bool(v),
                res,
            ),
    {
        self.put_byte(if v { 1 } else { 0 })
    }

    pub fn serialize_i8(&mut self, v: i8) -> (res: Result<(), Error>)
        ensures
            final(self).limit() == old(self).limit(),
            old(self).inv() ==> final(self).inv(),
            old(self).failed() ==> final(self).failed(),
            res == Err::<(), Error>(Error::NotSupported) ==> final(self).failed(),
            final(self).reliable() == old(self).reliable(),
            appends(
                old(self).output(),
                final(self).output(),
                old(self).limit(),
                old(self).reliable(),
                enc_i8(v),
                res,
            ),
    {
        self.put_byte(v as u8)
    }

    pub fn serialize_u8(&mut self, v: u8) -> (res: Result<(), Error>)
        ensures
            final(self).limit() == old(self).limit(),
            old(self).inv() ==> final(self).inv(),
            old(self).failed() ==> final(self).failed(),
            res == Err::<(), Error>(Error::NotSupported) ==> final(self).failed(),
            final(self).reliable() == old(self).reliable(),
            appends(
                old(self).output(),
                final(self).output(),
                old(self).limit(),
                old(self).reliable(),
                enc_u8(v),
                res,
            ),
    {
        self.put_byte(v)
    }

    pub fn serialize_i16(&mut self, v: i16) -> (res: Result<(), Error>)
        ensures
            final(self).limit() == old(self).limit(),
            old(self).inv() ==> final(self).inv(),
            old(self).failed() ==> final(self).failed(),
            res == Err::<(), Error>(Error::NotSupported) ==> final(self).failed(),
            final(self).reliable() == old(self).reliable(),
            appends(
                old(self).output(),
                final(self).output(),
                old(self).limit(),
                old(self).reliable(),
                enc_int(v as int),
                res,
            ),
    {
        self.put_varint_u64(zigzag_i16(v) as u64)
    }

    pub fn serialize_i32(&mut self, v: i32) -> (res: Result<(), Error>)
        ensures
            final(self).limit() == old(self).limit(),
            old(self).inv() ==> final(self).inv(),
            old(self).failed() ==> final(self).failed(),
            res == Err::<(), Error>(Error::NotSupported) ==> final(self).failed(),
            final(self).reliable() == old(self).reliable(),
            appends(
                old(self).output(),
                final(self).output(),
                old(self).limit(),
                old(self).reliable(),
                enc_int(v as int),
                res,
            ),
    {
        self.put_varint_u64(zigzag_i32(v) as u64)
    }

    pub fn serialize_i64(&mut self, v: i64) -> (res: Result<(), Error>)
        ensures
            final(self).limit() == old(self).limit(),
            old(self).inv() ==> final(self).inv(),
            old(self).failed() ==> final(self).failed(),
            res == Err::<(), Error>(Error::NotSupported) ==> final(self).failed(),
            final(self).reliable() == old(self).reliable(),
            appends(
                old(self).output(),
                final(self).output(),
                old(self).limit(),
                old(self).reliable(),
                enc_int(v as int),
                res,
            ),
    {
        self.put_varint_u64(zigzag_i64(v))
    }

    pub fn serialize_i128(&mut self, v: i128) -> (res: Result<(), Error>)
        ensures
            final(self).limit() == old(self).limit(),
            old(self).inv() ==> final(self).inv(),
            old(self).failed() ==> final(self).failed(),
            res == Err::<(), Error>(Error::NotSupported) ==> final(self).failed(),
            final(self).reliable() == old(self).reliable(),
            appends(
                old(self).output(),
                final(self).output(),
                old(self).limit(),
                old(self).reliable(),
                enc_int(v as int),
                res,
            ),
    {
        self.put_varint_u128(zigzag_i128(v))
    }

    pub fn serialize_u16(&mut self, v: u16) -> (res: Result<(), Error>)
        ensures
            final(self).limit() == old(self).limit(),
            old(self).inv() ==> final(self).inv(),
            old(self).failed() ==> final(self).failed(),
            res == Err::<(), Error>(Error::NotSupported) ==> final(self).failed(),
            final(self).reliable() == old(self).reliable(),
            appends(
                old(self).output(),
                final(self).output(),
                old(self).limit(),
                old(self).reliable(),
                enc_uint(v as nat),
                res,
            ),
    {
        self.put_varint_u64(v as u64)
    }

    pub fn serialize_u32(&mut self, v: u32) -> (res: Result<(), Error>)
        ensures
            final(self).limit() == old(self).limit(),
            old(self).inv() ==> final(self).inv(),
            old(self).failed() ==> final(self).failed(),
            res == Err::<(), Error>(Error::NotSupported) ==> final(self).failed(),
            final(self).reliable() == old(self).reliable(),
            appends(
                old(self).output(),
                final(self).output(),
                old(self).limit(),
                old(self).reliable(),
                enc_uint(v as nat),
                res,
            ),
    {
        self.put_varint_u64(v as u64)
    }

    pub fn serialize_u64(&mut self, v: u64) -> (res: Result<(), Error>)
        ensures
            final(self).limit() == old(self).limit(),
            old(self).inv() ==> final(self).inv(),
            old(self).failed() ==> final(self).failed(),
            res == Err::<(), Error>(Error::NotSupported) ==> final(self).failed(),
            final(self).reliable() == old(self).reliable(),
            appends(
                old(self).output(),
                final(self).output(),
                old(self).limit(),
                old(self).reliable(),
                enc_uint(v as nat),
                res,
            ),
    {
        self.put_varint_u64(v)
    }

    pub fn serialize_u128(&mut self, v: u128) -> (res: Result<(), Error>)
        ensures
            final(self).limit() == old(self).limit(),
            old(self).inv() ==> final(self).inv(),
            old(self).failed() ==> final(self).failed(),
            res == Err::<(), Error>(Error::NotSupported) ==> final(self).failed(),
            final(self).reliable() == old(self).reliable(),
            appends(
                old(self).output(),
                final(self).output(),
                old(self).limit(),
                old(self).reliable(),
                enc_uint(v as nat),
                res,
            ),
    {
        self.put_varint_u128(v)
    }

    /// Writes an `f32`, given by its bit pattern, as 4 little-endian bytes.
    pub fn serialize_f32_bits(&mut self, bits: u32) -> (res: Result<(), Error>)
        ensures
            final(self).limit() == old(self).limit(),
            old(self).inv() ==> final(self).inv(),
            old(self).failed() ==> final(self).failed(),
            res == Err::<(), Error>(Error::NotSupported) ==> final(self).failed(),
            final(self).reliable() == old(self).reliable(),
            appends(
                old(self).output(),
                final(self).output(),
                old(self).limit(),
                old(self).reliable(),
                enc_f32_bits(bits),
                res,
            ),
    {
        let mut buf: Vec<u8> = Vec::with_capacity(4);
        push_le(&mut buf, bits as u128, 4);
        assert(buf@ =~= enc_f32_bits(bits));
        self.put(buf.as_slice())
    }

    /// Writes an `f64`, given by its bit pattern, as 8 little-endian bytes.
    pub fn serialize_f64_bits(&mut self, bits: u64) -> (res: Result<(), Error>)
        ensures
            final(self).limit() == old(self).limit(),
            old(self).inv() ==> final(self).inv(),
            old(self).failed() ==> final(self).failed(),
            res == Err::<(), Error>(Error::NotSupported) ==> final(self).failed(),
            final(self).reliable() == old(self).reliable(),
            appends(
                old(self).output(),
                final(self).output(),
                old(self).limit(),
                old(self).reliable(),
                enc_f64_bits(bits),
                res,
            ),
    {
        let mut buf: Vec<u8> = Vec::with_capacity(8);
        push_le(&mut buf, bits as u128, 8);
        assert(buf@ =~= enc_f64_bits(bits));
        self.put(buf.as_slice())
    }

    pub fn serialize_char(&mut self, v: char) -> (res: Result<(), Error>)
        ensures
            final(self).limit() == old(self).limit(),
            old(self).inv() ==> final(self).inv(),
            old(self).failed() ==> final(self).failed(),
            res == Err::<(), Error>(Error::NotSupported) ==> final(self).failed(),
            final(self).reliable() == old(self).reliable(),
            appends(
                old(self).output(),
                final(self).output(),
                old(self).limit(),
                old(self).reliable(),
                enc_char(v),
                res,
            ),
    {
        self.put_varint_u64(v as u32 as u64)
    }

    pub fn serialize_str(&mut self, v: &str) -> (res: Result<(), Error>)
        ensures
            final(self).limit() == old(self).limit(),
            old(self).inv() ==> final(self).inv(),
            old(self).failed() ==> final(self).failed(),
            res == Err::<(), Error>(Error::NotSupported) ==> final(self).failed(),
            final(self).reliable() == old(self).reliable(),
            appends_prefixed(
                old(self).output(),
                final(self).output(),
                old(self).limit(),
                old(self).reliable(),
                encode_utf8(v@),
                res,
            ),
    {
        self.put_len_prefixed_bytes(v.as_bytes())
    }

    pub fn serialize_bytes(&mut self, v: &[u8]) -> (res: Result<(), Error>)
        ensures
            final(self).limit() == old(self).limit(),
            old(self).inv() ==> final(self).inv(),
            old(self).failed() ==> final(self).failed(),
            res == Err::<(), Error>(Error::NotSupported) ==> final(self).failed(),
            final(self).reliable() == old(self).reliable(),
            appends_prefixed(
                old(self).output(),
                final(self).output(),
                old(self).limit(),
                old(self).reliable(),
                v@,
                res,
            ),
    {
        self.put_len_prefixed_bytes(v)
    }

    /// Writes the unit value: no bytes at all.
    pub fn serialize_unit(&mut self) -> (res: Result<(), Error>)
        ensures
            final(self).limit() == old(self).limit(),
            old(self).inv() ==> final(self).inv(),
            old(self).failed() ==> final(self).failed(),
            res == Err::<(), Error>(Error::NotSupported) ==> final(self).failed(),
            final(self).reliable() == old(self).reliable(),
            appends(
                old(self).output(),
                final(self).output(),
                old(self).limit(),
                old(self).reliable(),
                Seq::empty(),
                res,
            ),
    {
        let empty: Vec<u8> = Vec::new();
        self.put(empty.as_slice())
    }

    /// Writes the tag of `None`.
    pub fn serialize_none(&mut self) -> (res: Result<(), Error>)
        ensures
            final(self).limit() == old(self).limit(),
            old(self).inv() ==> final(self).inv(),
            old(self).failed() ==> final(self).failed(),
            res == Err::<(), Error>(Error::NotSupported) ==> final(self).failed(),
            final(self).reliable() == old(self).reliable(),
            appends(
                old(self).output(),
                final(self).output(),
                old(self).limit(),
                old(self).reliable(),
                enc_option_tag(false),
                res,
            ),
    {
        self.put_byte(0)
    }

    /// Writes the tag of `Some`; the value follows.
    pub fn serialize_some(&mut self) -> (res: Result<(), Error>)
        ensures
            final(self).limit() == old(self).limit(),
            old(self).inv() ==> final(self).inv(),
            old(self).failed() ==> final(self).failed(),
            res == Err::<(), Error>(Error::NotSupported) ==> final(self).failed(),
            final(self).reliable() == old(self).reliable(),
            appends(
                old(self).output(),
                final(self).output(),
                old(self).limit(),
                old(self).reliable(),
                enc_option_tag(true),
                res,
            ),
    {
        self.put_byte(1)
    }

    /// Writes the variant index of an enum value; its payload (unit,
    /// newtype, tuple or struct) follows.
    pub fn serialize_variant(&mut self, variant_index: u32) -> (res: Result<(), Error>)
        ensures
            final(self).limit() == old(self).limit(),
            old(self).inv() ==> final(self).inv(),
            old(self).failed() ==> final(self).failed(),
            res == Err::<(), Error>(Error::NotSupported) ==> final(self).failed(),
            final(self).reliable() == old(self).reliable(),
            appends(
                old(self).output(),
                final(self).output(),
                old(self).limit(),
                old(self).reliable(),
                enc_variant(variant_index),
                res,
            ),
    {
        self.put_variant_index(variant_index)
    }

    /// Starts a sequence: its element count must be known.
    pub fn serialize_seq(&mut self, len: Option<usize>) -> (res: Result<(), Error>)
        ensures
            final(self).limit() == old(self).limit(),
            old(self).inv() ==> final(self).inv(),
            old(self).failed() ==> final(self).failed(),
            res == Err::<(), Error>(Error::NotSupported) ==> final(self).failed(),
            final(self).reliable() == old(self).reliable(),
            len is None ==> res == Err::<(), Error>(Error::SeqLengthUnknown) && *final(self)
                == *old(self),
            len matches Some(n) ==> appends(
                old(self).output(),
                final(self).output(),
                old(self).limit(),
                old(self).reliable(),
                enc_len(n),
                res,
            ),
    {
        match len {
            Some(n) => self.put_len(n),
            None => Err(Error::SeqLengthUnknown),
        }
    }

    /// Starts a map: its entry count must be known.
    pub fn serialize_map(&mut self, len: Option<usize>) -> (res: Result<(), Error>)
        ensures
            final(self).limit() == old(self).limit(),
            old(self).inv() ==> final(self).inv(),
            old(self).failed() ==> final(self).failed(),
            res == Err::<(), Error>(Error::NotSupported) ==> final(self).failed(),
            final(self).reliable() == old(self).reliable(),
            len is None ==> res == Err::<(), Error>(Error::SeqLengthUnknown) && *final(self)
                == *old(self),
            len matches Some(n) ==> appends(
                old(self).output(),
                final(self).output(),
                old(self).limit(),
                old(self).reliable(),
                enc_len(n),
                res,
            ),
    {
        self.serialize_seq(len)
    }
}

} // verus!
