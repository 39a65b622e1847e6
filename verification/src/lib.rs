//! A compact binary serialization format: tagged-prefix varints,
//! little-endian fixed-width floats, length-prefixed strings and sequences.
//!
//! The modules hold the format itself: [`varint`] the integer encoding,
//! [`format`] the specification of every kind of value, [`write`] the
//! output sinks, [`ser`] the serializer, [`read`] and [`de`] the input
//! cursor and the deserializer, [`stream`] the staging of stream output.
//! The functions below write and read single values of the scalar types
//! ([`codec`]).
use vstd::prelude::*;

pub mod codec;
pub mod de;
pub mod error;
pub mod format;
pub mod pod_vec;
pub mod read;
pub mod ser;
pub mod stream;
pub mod varint;
pub mod write;

pub use error::Error;

use codec::{Decode, Encode};
use de::Deserializer;
use ser::Ser;
use write::{SizeWriter, SliceWriter, VecWriter};

verus! {

/// Serializes `value` into `buf`, returning the written front of it, or
/// `ExceedsBuffer` when `buf` is too small.
pub fn to_slice<'a, T: Encode>(value: &T, buf: &'a mut [u8]) -> (res: Result<&'a mut [u8], Error>)
    ensures
        value.encoding().len() <= old(buf)@.len() ==> res is Ok && res->Ok_0@ == value.encoding(),
        value.encoding().len() > old(buf)@.len() ==> res is Err && res->Err_0
            == Error::ExceedsBuffer,
{
    let mut s = Ser::new(SliceWriter::new(buf));
    match value.encode(&mut s) {
        Ok(()) => {},
        Err(e) => return Err(e),
    }
    let w = s.into_writer();
    Ok(w.into_written())
}

/// Serializes `value` into a fresh vector of exactly its size: the size is
/// computed first, then the bytes are written into one allocation.
pub fn to_vec<T: Encode>(value: &T) -> (res: Result<Vec<u8>, Error>)
    ensures
        value.encoding().len() <= usize::MAX ==> res is Ok && res->Ok_0@ == value.encoding(),
        value.encoding().len() > usize::MAX ==> res == Err::<Vec<u8>, Error>(
            Error::ExceedsBuffer,
        ),
{
    let size = match serialized_size(value) {
        Ok(n) => n,
        Err(e) => return Err(e),
    };
    let mut s = Ser::new(VecWriter::new(Vec::with_capacity(size)));
    match value.encode(&mut s) {
        Ok(()) => {},
        Err(e) => return Err(e),
    }
    Ok(s.into_writer().into_vec())
}

/// The exact serialized size of `value` in bytes.
pub fn serialized_size<T: Encode>(value: &T) -> (res: Result<usize, Error>)
    ensures
        value.encoding().len() <= usize::MAX ==> res == Ok::<usize, Error>(
            value.encoding().len() as usize,
        ),
        value.encoding().len() > usize::MAX ==> res == Err::<usize, Error>(
            Error::ExceedsBuffer,
        ),
{
    let mut s = Ser::new(SizeWriter::new());
    match value.encode(&mut s) {
        Ok(()) => {},
        Err(e) => return Err(e),
    }
    Ok(s.into_writer().size())
}

/// Deserializes a `T` from the beginning of `buf`; trailing bytes are
/// ignored.
pub fn from_bytes<T: Decode>(buf: &[u8]) -> (res: Result<T, Error>)
    ensures
        match T::decoding(buf@) {
            Ok((v, _)) => res == Ok::<T, Error>(v),
            Err(e) => res == Err::<T, Error>(e),
        },
{
    let mut d = Deserializer::new(buf);
    T::decode(&mut d)
}

/// Deserializes a `T` from the beginning of `buf`, returning the value and
/// the unused rest of the input.
pub fn take_from_bytes<'de, T: Decode>(buf: &'de [u8]) -> (res: Result<(T, &'de [u8]), Error>)
    ensures
        match T::decoding(buf@) {
            Ok((v, n)) => res is Ok && res->Ok_0.0 == v && res->Ok_0.1@ == buf@.skip(n as int),
            Err(e) => res is Err && res->Err_0 == e,
        },
        res matches Ok((_, rest)) ==> rest@.len() <= buf@.len() && rest@ == buf@.skip(
            buf@.len() - rest@.len(),
        ),
{
    let mut d = Deserializer::new(buf);
    let t = match T::decode(&mut d) {
        Ok(t) => t,
        Err(e) => return Err(e),
    };
    let ghost unread = d.r.rest();
    let n = d.r.remaining();
    let rest = match d.r.read_slice(n) {
        Ok(rest) => rest,
        Err(e) => return Err(e),
    };
    assert(rest@ =~= unread);
    assert(rest@ =~= buf@.skip(buf@.len() - rest@.len()));
    Ok((t, rest))
}

} // verus!
