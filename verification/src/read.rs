//! Input cursor for the deserializer.
//!
//! A cursor over the input slice: every read is one bounds check, and
//! `read_slice` hands out a `&'de [u8]` borrowed straight from the input,
//! for zero-copy strings and byte buffers.
use vstd::prelude::*;
use vstd::slice::slice_subrange;

use crate::error::Error;
use crate::varint::{
    decode_varint, le_decode, lemma_decode_varint_range, lemma_pow256_values, tag_range,
    SINGLE_BYTE_MAX, U128_TAG, U16_TAG, U32_TAG, U64_TAG,
};

verus! {

/// What is left of `rest` once a refused varint has been looked at: the
/// tag byte, if there was one, has been read.
pub open spec fn past_tag(rest: Seq<u8>) -> Seq<u8> {
    if rest.len() == 0 {
        rest
    } else {
        rest.drop_first()
    }
}

pub struct Reader<'de> {
    buf: &'de [u8],
    pos: usize,
}

impl<'de> Reader<'de> {
    #[verifier::type_invariant]
    spec fn inv(self) -> bool {
        self.pos <= self.buf@.len()
    }

    /// The whole input the reader was made with.
    pub closed spec fn input(self) -> Seq<u8> {
        self.buf@
    }

    /// The number of bytes read so far.
    pub closed spec fn position(self) -> nat {
        self.pos as nat
    }

    /// The input that has not been read yet.
    pub closed spec fn rest(self) -> Seq<u8> {
        self.buf@.subrange(self.pos as int, self.buf@.len() as int)
    }

    pub fn new(buf: &'de [u8]) -> (r: Self)
        ensures
            r.input() == buf@,
            r.rest() == buf@,
            r.position() == 0,
    {
        let r = Reader { buf, pos: 0 };
        assert(r.rest() =~= buf@);
        r
    }

    /// The number of bytes not read yet.
    pub fn remaining(&self) -> (n: usize)
        ensures
            n == self.rest().len(),
            self.position() <= self.input().len(),
            self.rest() == self.input().skip(self.position() as int),
    {
        proof {
            use_type_invariant(self);
        }
        self.buf.len() - self.pos
    }

    /// Reads one byte.
    pub fn read_byte(&mut self) -> (res: Result<u8, Error>)
        ensures
            final(self).input() == old(self).input(),
            final(self).position() >= old(self).position(),
            old(self).rest().len() == 0 ==> res == Err::<u8, Error>(Error::UnexpectedEnd)
                && final(self).rest() == old(self).rest(),
            old(self).rest().len() > 0 ==> res == Ok::<u8, Error>(old(self).rest()[0])
                && final(self).rest() == old(self).rest().drop_first(),
    {
        proof {
            use_type_invariant(&*self);
        }
        if self.pos == self.buf.len() {
            return Err(Error::UnexpectedEnd);
        }
        let b = self.buf[self.pos];
        self.pos = self.pos + 1;
        assert(self.rest() =~= old(self).rest().drop_first());
        Ok(b)
    }

    /// Reads the next `n` bytes, borrowed from the input.
    pub fn read_slice(&mut self, n: usize) -> (res: Result<&'de [u8], Error>)
        ensures
            final(self).input() == old(self).input(),
            final(self).position() >= old(self).position(),
            old(self).rest().len() < n ==> res == Err::<&'de [u8], Error>(Error::UnexpectedEnd)
                && final(self).rest() == old(self).rest(),
            old(self).rest().len() >= n ==> res is Ok && res->Ok_0@ == old(self).rest().take(
                n as int,
            ) && final(self).rest() == old(self).rest().skip(n as int),
    {
        proof {
            use_type_invariant(&*self);
        }
        if self.buf.len() - self.pos < n {
            return Err(Error::UnexpectedEnd);
        }
        let s = slice_subrange(self.buf, self.pos, self.pos + n);
        self.pos = self.pos + n;
        assert(s@ =~= old(self).rest().take(n as int));
        assert(self.rest() =~= old(self).rest().skip(n as int));
        Ok(s)
    }

    /// Reads a varint whose tag is at most `max_tag`.
    fn read_varint(&mut self, max_tag: u8) -> (res: Result<u128, Error>)
        requires
            U16_TAG <= max_tag <= U128_TAG,
        ensures
            final(self).input() == old(self).input(),
            final(self).position() >= old(self).position(),
            match decode_varint(old(self).rest(), max_tag) {
                Ok((v, n)) => res == Ok::<u128, Error>(v as u128) && v < tag_range(max_tag)
                    && final(self).rest() == old(self).rest().skip(n as int),
                Err(e) => res == Err::<u128, Error>(e) && final(self).rest() == past_tag(
                    old(self).rest(),
                ),
            },
    {
        proof {
            lemma_decode_varint_range(old(self).rest(), max_tag);
            lemma_pow256_values();
        }
        let ghost s = old(self).rest();
        let b = match self.read_byte() {
            Ok(b) => b,
            Err(e) => return Err(e),
        };
        if b <= SINGLE_BYTE_MAX {
            assert(self.rest() =~= s.skip(1));
            return Ok(b as u128);
        }
        if b > max_tag {
            return Err(Error::InvalidVarint);
        }
        let w: usize = if b == U16_TAG {
            2
        } else if b == U32_TAG {
            4
        } else if b == U64_TAG {
            8
        } else {
            16
        };
        let payload = match self.read_slice(w) {
            Ok(p) => p,
            Err(e) => return Err(e),
        };
        assert(payload@ =~= s.subrange(1, 1 + w as int));
        assert(self.rest() =~= s.skip(1 + w as int));
        Ok(le_decode(payload))
    }

    pub fn read_varint_u16(&mut self) -> (res: Result<u16, Error>)
        ensures
            final(self).input() == old(self).input(),
            final(self).position() >= old(self).position(),
            match decode_varint(old(self).rest(), U16_TAG) {
                Ok((v, n)) => res == Ok::<u16, Error>(v as u16)
                    && final(self).rest() == old(self).rest().skip(n as int),
                Err(e) => res == Err::<u16, Error>(e) && final(self).rest() == past_tag(
                    old(self).rest(),
                ),
            },
    {
        match self.read_varint(U16_TAG) {
            Ok(v) => Ok(v as u16),
            Err(e) => Err(e),
        }
    }

    pub fn read_varint_u32(&mut self) -> (res: Result<u32, Error>)
        ensures
            final(self).input() == old(self).input(),
            final(self).position() >= old(self).position(),
            match decode_varint(old(self).rest(), U32_TAG) {
                Ok((v, n)) => res == Ok::<u32, Error>(v as u32)
                    && final(self).rest() == old(self).rest().skip(n as int),
                Err(e) => res == Err::<u32, Error>(e) && final(self).rest() == past_tag(
                    old(self).rest(),
                ),
            },
    {
        match self.read_varint(U32_TAG) {
            Ok(v) => Ok(v as u32),
            Err(e) => Err(e),
        }
    }

    pub fn read_varint_u64(&mut self) -> (res: Result<u64, Error>)
        ensures
            final(self).input() == old(self).input(),
            final(self).position() >= old(self).position(),
            match decode_varint(old(self).rest(), U64_TAG) {
                Ok((v, n)) => res == Ok::<u64, Error>(v as u64)
                    && final(self).rest() == old(self).rest().skip(n as int),
                Err(e) => res == Err::<u64, Error>(e) && final(self).rest() == past_tag(
                    old(self).rest(),
                ),
            },
    {
        match self.read_varint(U64_TAG) {
            Ok(v) => Ok(v as u64),
            Err(e) => Err(e),
        }
    }

    pub fn read_varint_u128(&mut self) -> (res: Result<u128, Error>)
        ensures
            final(self).input() == old(self).input(),
            final(self).position() >= old(self).position(),
            match decode_varint(old(self).rest(), U128_TAG) {
                Ok((v, n)) => res == Ok::<u128, Error>(v as u128)
                    && final(self).rest() == old(self).rest().skip(n as int),
                Err(e) => res == Err::<u128, Error>(e) && final(self).rest() == past_tag(
                    old(self).rest(),
                ),
            },
    {
        self.read_varint(U128_TAG)
    }
}

} // verus!
