//! Output sinks for the serializer.
//!
//! A [`Writer`] accepts bytes at its end. Each sink has a limit on the
//! total number of bytes it can hold; a write that would pass it is refused
//! as a whole and leaves the sink unchanged.
use vstd::prelude::*;

use crate::error::Error;

verus! {

/// The errors a sink refuses a write with: `ExceedsBuffer` for bytes past
/// its limit, and, from a sink that is not reliable, `NotSupported` when
/// the stream behind it failed.
pub open spec fn refusal(reliable: bool, res: Result<(), Error>) -> bool {
    res == Err::<(), Error>(Error::ExceedsBuffer) || (!reliable && res == Err::<(), Error>(
        Error::NotSupported,
    ))
}

/// What a write of `bytes` did to a sink holding `before` with the given
/// `limit`, leaving `after`: either all of them were appended, or none and
/// the write was refused. Bytes that pass the limit are refused with
/// `ExceedsBuffer`, and only they; a reliable sink refuses nothing else.
pub open spec fn appends(
    before: Seq<u8>,
    after: Seq<u8>,
    limit: nat,
    reliable: bool,
    bytes: Seq<u8>,
    res: Result<(), Error>,
) -> bool {
    &&& res is Ok ==> after == before + bytes
    &&& res is Err ==> refusal(reliable, res) && after == before
    &&& before.len() + bytes.len() > limit <==> res == Err::<(), Error>(Error::ExceedsBuffer)
    &&& reliable && before.len() + bytes.len() <= limit ==> res is Ok
}

/// A sink for serialized bytes.
pub trait Writer {
    /// The bytes accepted so far.
    spec fn output(&self) -> Seq<u8>;

    /// The total number of bytes the sink can hold.
    spec fn limit(&self) -> nat;

    /// Whether the sink refuses bytes only when they pass its limit, as
    /// in-memory sinks do; a stream may also fail on its own.
    spec fn reliable(&self) -> bool;

    /// The sink's own invariant, which every write keeps.
    spec fn inv(&self) -> bool;

    /// Whether the stream behind the sink has failed; once it has, it stays
    /// failed.
    spec fn failed(&self) -> bool;

    /// Appends `bytes`, or refuses them all.
    fn write_all(&mut self, bytes: &[u8]) -> (res: Result<(), Error>)
        ensures
            final(self).limit() == old(self).limit(),
            final(self).reliable() == old(self).reliable(),
            (*old(self)).inv() ==> (*final(self)).inv(),
            (*old(self)).failed() ==> (*final(self)).failed(),
            res == Err::<(), Error>(Error::NotSupported) ==> (*final(self)).failed(),
            appends(
                old(self).output(),
                final(self).output(),
                old(self).limit(),
                old(self).reliable(),
                bytes@,
                res,
            ),
    ;

    /// Appends one byte, or refuses it.
    fn write_byte(&mut self, b: u8) -> (res: Result<(), Error>)
        ensures
            final(self).limit() == old(self).limit(),
            final(self).reliable() == old(self).reliable(),
            (*old(self)).inv() ==> (*final(self)).inv(),
            (*old(self)).failed() ==> (*final(self)).failed(),
            res == Err::<(), Error>(Error::NotSupported) ==> (*final(self)).failed(),
            appends(
                old(self).output(),
                final(self).output(),
                old(self).limit(),
                old(self).reliable(),
                seq![b],
                res,
            ),
    ;
}

/// Writes into a caller-provided slice, front to back.
pub struct SliceWriter<'a> {
    buf: &'a mut [u8],
    pos: usize,
}

impl<'a> SliceWriter<'a> {
    #[verifier::type_invariant]
    spec fn inv(self) -> bool {
        self.pos <= self.buf@.len()
    }

    /// The slice the writer writes into, as it is now.
    pub closed spec fn buffer(self) -> Seq<u8> {
        self.buf@
    }

    pub fn new(buf: &'a mut [u8]) -> (w: Self)
        ensures
            w.output() == Seq::<u8>::empty(),
            w.limit() == old(buf)@.len(),
            w.reliable(),
            w.buffer() == old(buf)@,
    {
        let w = SliceWriter { buf, pos: 0 };
        assert(w.output() =~= Seq::<u8>::empty());
        w
    }

    /// The front of the slice that holds what was written.
    pub fn into_written(self) -> (out: &'a mut [u8])
        ensures
            out@ == self.output(),
    {
        proof {
            use_type_invariant(&self);
        }
        let SliceWriter { buf, pos } = self;
        let (front, _) = buf.split_at_mut(pos);
        front
    }

    /// The number of bytes written so far, which lie at the front of the
    /// slice.
    pub fn written(&self) -> (n: usize)
        ensures
            n == self.output().len(),
            self.output() == self.buffer().take(n as int),
            n <= self.buffer().len(),
    {
        proof {
            use_type_invariant(self);
        }
        self.pos
    }
}

impl<'a> Writer for SliceWriter<'a> {
    closed spec fn output(&self) -> Seq<u8> {
        self.buf@.take(self.pos as int)
    }

    closed spec fn limit(&self) -> nat {
        self.buf@.len()
    }

    open spec fn reliable(&self) -> bool {
        true
    }

    open spec fn inv(&self) -> bool {
        true
    }

    open spec fn failed(&self) -> bool {
        false
    }


    fn write_all(&mut self, bytes: &[u8]) -> (res: Result<(), Error>) {
        proof {
            use_type_invariant(&*self);
        }
        if self.buf.len() - self.pos < bytes.len() {
            return Err(Error::ExceedsBuffer);
        }
        let start = self.pos;
        let ghost before = self.buf@;
        let mut i: usize = 0;
        while i < bytes.len()
            invariant
                self.pos == start,
                start + bytes.len() <= self.buf.len(),
                self.buf@.len() == before.len(),
                i <= bytes@.len(),
                forall|k: int| 0 <= k < start ==> self.buf@[k] == before[k],
                forall|k: int| 0 <= k < i ==> self.buf@[start + k] == bytes@[k],
            decreases bytes@.len() - i,
        {
            self.buf[start + i] = bytes[i];
            i = i + 1;
        }
        self.pos = self.pos + bytes.len();
        assert(self.buf@.take(self.pos as int) =~= old(self).buf@.take(old(self).pos as int)
            + bytes@);
        Ok(())
    }

    fn write_byte(&mut self, b: u8) -> (res: Result<(), Error>) {
        proof {
            use_type_invariant(&*self);
        }
        if self.pos == self.buf.len() {
            return Err(Error::ExceedsBuffer);
        }
        self.buf[self.pos] = b;
        self.pos = self.pos + 1;
        assert(self.buf@.take(self.pos as int) =~= old(self).buf@.take(old(self).pos as int)
            + seq![b]);
        Ok(())
    }
}

/// A sink reached through a mutable reference is that sink.
impl<'a, W: Writer> Writer for &'a mut W {
    open spec fn output(&self) -> Seq<u8> {
        (**self).output()
    }

    open spec fn limit(&self) -> nat {
        (**self).limit()
    }

    open spec fn reliable(&self) -> bool {
        (**self).reliable()
    }

    open spec fn inv(&self) -> bool {
        (**self).inv()
    }

    open spec fn failed(&self) -> bool {
        (**self).failed()
    }


    fn write_all(&mut self, bytes: &[u8]) -> (res: Result<(), Error>) {
        (**self).write_all(bytes)
    }

    fn write_byte(&mut self, b: u8) -> (res: Result<(), Error>) {
        (**self).write_byte(b)
    }
}

/// Appends to a `Vec<u8>`, growing it on demand.
pub struct VecWriter {
    vec: Vec<u8>,
}

impl VecWriter {
    /// A writer that appends to `vec`.
    pub fn new(vec: Vec<u8>) -> (w: Self)
        ensures
            w.output() == vec@,
            w.limit() == usize::MAX,
            w.reliable(),
    {
        VecWriter { vec }
    }

    /// The vector, with everything written appended.
    pub fn into_vec(self) -> (v: Vec<u8>)
        ensures
            v@ == self.output(),
    {
        self.vec
    }

    /// Makes room for `n` more bytes.
    fn grow(&mut self, n: usize)
        ensures
            final(self).vec@ == old(self).vec@,
    {
        self.vec.reserve(n);
    }
}

impl Writer for VecWriter {
    closed spec fn output(&self) -> Seq<u8> {
        self.vec@
    }

    closed spec fn limit(&self) -> nat {
        usize::MAX as nat
    }

    open spec fn reliable(&self) -> bool {
        true
    }

    open spec fn inv(&self) -> bool {
        true
    }

    open spec fn failed(&self) -> bool {
        false
    }


    fn write_all(&mut self, bytes: &[u8]) -> (res: Result<(), Error>) {
        if usize::MAX - self.vec.len() < bytes.len() {
            return Err(Error::ExceedsBuffer);
        }
        self.grow(bytes.len());
        self.vec.extend_from_slice(bytes);
        assert(self.vec@ =~= old(self).vec@ + bytes@);
        Ok(())
    }

    fn write_byte(&mut self, b: u8) -> (res: Result<(), Error>) {
        if self.vec.len() == usize::MAX {
            return Err(Error::ExceedsBuffer);
        }
        self.vec.push(b);
        assert(self.vec@ =~= old(self).vec@ + seq![b]);
        Ok(())
    }
}

/// Counts the serialized size without storing anything.
pub struct SizeWriter {
    size: usize,
    counted: Ghost<Seq<u8>>,
}

impl SizeWriter {
    #[verifier::type_invariant]
    spec fn inv(self) -> bool {
        self.size == self.counted@.len()
    }

    pub fn new() -> (w: Self)
        ensures
            w.output() == Seq::<u8>::empty(),
            w.limit() == usize::MAX,
            w.reliable(),
    {
        SizeWriter { size: 0, counted: Ghost(Seq::empty()) }
    }

    /// The number of bytes counted so far.
    pub fn size(&self) -> (n: usize)
        ensures
            n == self.output().len(),
    {
        proof {
            use_type_invariant(self);
        }
        self.size
    }
}

impl Writer for SizeWriter {
    closed spec fn output(&self) -> Seq<u8> {
        self.counted@
    }

    closed spec fn limit(&self) -> nat {
        usize::MAX as nat
    }

    open spec fn reliable(&self) -> bool {
        true
    }

    open spec fn inv(&self) -> bool {
        true
    }

    open spec fn failed(&self) -> bool {
        false
    }


    fn write_all(&mut self, bytes: &[u8]) -> (res: Result<(), Error>) {
        proof {
            use_type_invariant(&*self);
        }
        if usize::MAX - self.size < bytes.len() {
            return Err(Error::ExceedsBuffer);
        }
        *self = SizeWriter {
            size: self.size + bytes.len(),
            counted: Ghost(self.counted@ + bytes@),
        };
        Ok(())
    }

    fn write_byte(&mut self, b: u8) -> (res: Result<(), Error>) {
        proof {
            use_type_invariant(&*self);
        }
        if self.size == usize::MAX {
            return Err(Error::ExceedsBuffer);
        }
        *self = SizeWriter { size: self.size + 1, counted: Ghost(self.counted@ + seq![b]) };
        Ok(())
    }
}

} // verus!
