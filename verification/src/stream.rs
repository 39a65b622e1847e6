//! Stream input and output.
//!
//! Output: an [`IoWriter`] stages small writes in a buffer of
//! [`STAGE_SIZE`] bytes that is sent to the underlying stream when it runs
//! full and at the end; a bulk write of at least half a stage is sent
//! straight through, after the stage. The first error the stream reports is
//! kept verbatim and returned at the end. [`to_stream`] writes one value
//! this way. Input: [`from_read_result`] decodes a whole message once it has
//! been read.
use vstd::prelude::*;

use crate::codec::{Decode, Encode};
use crate::error::Error;
use crate::ser::Ser;
use crate::write::Writer;

verus! {

/// `std::io::Error`, carried through as an opaque value.
#[verifier::external_type_specification]
#[verifier::external_body]
pub struct ExIoError(std::io::Error);

/// Why writing to or reading from a stream failed: the stream's own
/// error, verbatim, or the format's error.
#[derive(Debug)]
pub enum StreamError {
    /// The error the stream reported.
    Io(std::io::Error),
    /// The value could not be written, or the bytes could not be read as
    /// one.
    Format(Error),
}

/// A stream that bytes are sent to, such as a wrapped `std::io::Write`.
/// Whether a send succeeds is the stream's affair: nothing is promised of
/// it.
pub trait ByteStream {
    /// Sends all of `bytes`, or reports the error that stopped it.
    fn send(&mut self, bytes: &[u8]) -> Result<(), std::io::Error>;
}

/// Where an [`IoWriter`] delivers its bytes: a destination with a record of
/// what it has received. A delivery that succeeds has added exactly its
/// bytes to that record; one that fails has added nothing to it.
pub trait Recipient {
    /// The bytes received so far.
    spec fn received(&self) -> Seq<u8>;

    /// Whether every delivery succeeds.
    spec fn reliable(&self) -> bool;

    /// The error of the last delivery that failed, if any did.
    spec fn last_error(&self) -> Option<std::io::Error>;

    /// Delivers all of `bytes`, or reports the error that stopped it.
    fn deliver(&mut self, bytes: &[u8]) -> (res: Result<(), std::io::Error>)
        ensures
            res is Ok ==> final(self).received() == old(self).received() + bytes@,
            res is Err ==> final(self).received() == old(self).received(),
            old(self).reliable() ==> res is Ok,
            final(self).reliable() == old(self).reliable(),
            res matches Err(e) ==> final(self).last_error() == Some(e),
            res is Ok ==> final(self).last_error() == old(self).last_error(),
    ;
}

/// A vector receives bytes by appending them; a delivery never fails.
impl Recipient for Vec<u8> {
    open spec fn received(&self) -> Seq<u8> {
        self@
    }

    open spec fn reliable(&self) -> bool {
        true
    }

    open spec fn last_error(&self) -> Option<std::io::Error> {
        None
    }

    fn deliver(&mut self, bytes: &[u8]) -> (res: Result<(), std::io::Error>)
        ensures
            res is Ok,
    {
        self.extend_from_slice(bytes);
        Ok(())
    }
}

/// A stream, with the record of the bytes of the sends it reported done,
/// in order.
pub struct Recorded<S: ByteStream> {
    inner: S,
    log: Ghost<Seq<u8>>,
    last: Ghost<Option<std::io::Error>>,
}

impl<S: ByteStream> Recorded<S> {
    /// The stream.
    pub closed spec fn stream(self) -> S {
        self.inner
    }

    pub fn new(inner: S) -> (r: Self)
        ensures
            r.received() == Seq::<u8>::empty(),
            r.last_error() is None,
            r.stream() == inner,
    {
        Recorded { inner, log: Ghost(Seq::empty()), last: Ghost(None) }
    }

    /// The stream.
    pub fn into_inner(self) -> (s: S)
        ensures
            s == self.stream(),
    {
        self.inner
    }
}

impl<S: ByteStream> Recipient for Recorded<S> {
    closed spec fn received(&self) -> Seq<u8> {
        self.log@
    }

    /// A stream may fail.
    open spec fn reliable(&self) -> bool {
        false
    }

    closed spec fn last_error(&self) -> Option<std::io::Error> {
        self.last@
    }

    fn deliver(&mut self, bytes: &[u8]) -> (res: Result<(), std::io::Error>) {
        let res = self.inner.send(bytes);
        if res.is_ok() {
            proof {
                self.log = Ghost(self.log@ + bytes@);
            }
        } else {
            proof {
                self.last = Ghost(Some(res->Err_0));
            }
        }
        res
    }
}

/// The state of an [`IoWriter`]: the stream, the stage, the first error
/// the stream reported, and what was accepted.
struct Staging<S: Recipient> {
    inner: S,
    stage: Stage,
    failed: bool,
    io_err: Option<std::io::Error>,
    accepted: usize,
    start: Ghost<Seq<u8>>,
    accepted_bytes: Ghost<Seq<u8>>,
    deliveries: Ghost<nat>,
}

impl<S: Recipient> Staging<S> {
    /// The stream's former content, then the accepted bytes.
    spec fn output(self) -> Seq<u8> {
        self.start@ + self.accepted_bytes@
    }

    /// While the stream has not failed, what it received followed by the
    /// stage is exactly the output; in any case what it received is a
    /// prefix of the output. The stage never holds more than `STAGE_SIZE`
    /// bytes.
    spec fn wf(self) -> bool {
        &&& self.accepted == self.accepted_bytes@.len()
        &&& self.stage.staged().len() <= STAGE_SIZE
        &&& self.io_err is Some ==> self.failed && self.io_err == self.inner.last_error()
        &&& !self.failed ==> self.inner.received() + self.stage.staged() == self.output()
        &&& self.inner.received().is_prefix_of(self.output())
    }

    /// The stream is reliable and has not failed: no write is refused but
    /// for the limit.
    spec fn reliable(self) -> bool {
        self.inner.reliable() && !self.failed
    }

    /// While the stream has not failed, the deliveries carried on average
    /// at least a quarter of a stage each.
    spec fn coalesced(self) -> bool {
        !self.failed ==> self.deliveries@ * (STAGE_SIZE / 2) as int <= 2 * (
        self.accepted_bytes@.len() - self.stage.staged().len())
    }

    fn new(inner: S) -> (s: Self)
        ensures
            s.wf(),
            s.output() == inner.received(),
            s.start@ == inner.received(),
            s.inner == inner,
            s.reliable() == inner.reliable(),
            s.stage.staged() == Seq::<u8>::empty(),
            !s.failed,
            s.io_err is None,
            s.deliveries@ == 0,
            s.coalesced(),
    {
        let ghost start = inner.received();
        let s = Staging {
            inner,
            stage: Stage::new(),
            failed: false,
            io_err: None,
            accepted: 0,
            start: Ghost(start),
            accepted_bytes: Ghost(Seq::empty()),
            deliveries: Ghost(0),
        };
        assert(s.output() =~= start);
        assert(s.inner.received() + s.stage.staged() =~= s.output());
        s
    }

    /// Records the stream's error.
    fn fail(&mut self, e: std::io::Error)
        requires
            !old(self).inner.reliable(),
            old(self).inner.last_error() == Some(e),
        ensures
            final(self).deliveries == old(self).deliveries,
            old(self).wf() ==> final(self).wf(),
            final(self).reliable() == old(self).reliable(),
            final(self).accepted == old(self).accepted,
            final(self).failed,
            final(self).io_err == Some(e),
            final(self).inner == old(self).inner,
            final(self).stage == old(self).stage,
            final(self).start == old(self).start,
            final(self).accepted_bytes == old(self).accepted_bytes,
    {
        self.failed = true;
        self.io_err = Some(e);
    }

    /// Accepts `bytes` into the stage.
    fn stage_bytes(&mut self, bytes: &[u8])
        requires
            old(self).accepted + bytes@.len() <= usize::MAX,
            old(self).stage.staged().len() + bytes@.len() <= STAGE_SIZE,
        ensures
            final(self).deliveries == old(self).deliveries,
            old(self).wf() ==> final(self).wf(),
            final(self).reliable() == old(self).reliable(),
            final(self).accepted == old(self).accepted + bytes@.len(),
            final(self).accepted_bytes@ == old(self).accepted_bytes@ + bytes@,
            final(self).stage.staged() == old(self).stage.staged() + bytes@,
            final(self).inner == old(self).inner,
            final(self).failed == old(self).failed,
            final(self).io_err == old(self).io_err,
            final(self).start == old(self).start,
    {
        let _ = self.stage.push(bytes);
        self.accepted = self.accepted + bytes.len();
        proof {
            self.accepted_bytes = Ghost(self.accepted_bytes@ + bytes@);
            assert(self.output() =~= old(self).output() + bytes@);
            if old(self).wf() && !self.failed {
                assert(self.inner.received() + self.stage.staged() =~= self.output());
            }
        }
    }

    /// Sends the staged bytes, unless the stream has already failed.
    fn flush(&mut self) -> (res: Result<(), Error>)
        ensures
            old(self).stage.staged().len() > 0 && res is Ok ==> final(self).deliveries@
                == old(self).deliveries@ + 1,
            !(old(self).stage.staged().len() > 0 && res is Ok) ==> final(self).deliveries
                == old(self).deliveries,
            old(self).wf() ==> final(self).wf(),
            final(self).reliable() == old(self).reliable(),
            final(self).accepted == old(self).accepted,
            final(self).accepted_bytes == old(self).accepted_bytes,
            final(self).start == old(self).start,
            old(self).stage.staged().len() == 0 ==> res is Ok && *final(self) == *old(self),
            res is Ok ==> final(self).stage.staged() == Seq::<u8>::empty(),
            old(self).reliable() ==> res is Ok,
            old(self).stage.staged().len() > 0 && old(self).failed ==> res == Err::<(), Error>(
                Error::NotSupported,
            ) && *final(self) == *old(self),
            old(self).stage.staged().len() > 0 && !old(self).failed ==> (res is Ok
                && final(self).stage.staged() == Seq::<u8>::empty() && !final(self).failed
                && final(self).io_err == old(self).io_err && final(self).inner.received() == old(
                self).inner.received() + old(self).stage.staged()) || (res == Err::<(), Error>(
                Error::NotSupported,
            ) && final(self).failed && final(self).io_err is Some && final(self).stage
                == old(self).stage),
    {
        if self.stage.is_empty() {
            assert(self.stage.staged() =~= Seq::<u8>::empty());
            return Ok(());
        }
        if self.failed {
            return Err(Error::NotSupported);
        }
        match self.inner.deliver(self.stage.contents()) {
            Ok(()) => {},
            Err(e) => {
                self.fail(e);
                return Err(Error::NotSupported);
            },
        }
        self.stage.clear();
        proof {
            self.deliveries = Ghost(self.deliveries@ + 1);
        }
        assert(self.inner.received() + self.stage.staged() =~= self.inner.received());
        Ok(())
    }

    /// Accepts `bytes` after the stage was emptied: sends them straight
    /// through, or drops them once the stream has failed.
    fn write_through(&mut self, bytes: &[u8]) -> (res: Result<(), Error>)
        requires
            old(self).accepted + bytes@.len() <= usize::MAX,
            old(self).stage.staged() == Seq::<u8>::empty(),
        ensures
            !old(self).failed && res is Ok ==> final(self).deliveries@ == old(
                self).deliveries@ + 1,
            !(!old(self).failed && res is Ok) ==> final(self).deliveries == old(self).deliveries,
            old(self).wf() ==> final(self).wf(),
            final(self).reliable() == old(self).reliable(),
            final(self).start == old(self).start,
            final(self).stage.staged() == Seq::<u8>::empty(),
            old(self).reliable() ==> res is Ok,
            old(self).failed ==> res is Ok && final(self).inner == old(self).inner
                && final(self).failed && final(self).io_err == old(self).io_err,
            res is Ok ==> final(self).accepted_bytes@ == old(self).accepted_bytes@ + bytes@
                && final(self).accepted == old(self).accepted + bytes@.len(),
            !old(self).failed ==> (res is Ok && !final(self).failed && final(self).io_err
                == old(self).io_err && final(self).inner.received() == old(
                self).inner.received() + bytes@) || (res == Err::<(), Error>(
                Error::NotSupported,
            ) && final(self).failed && final(self).io_err is Some && final(self).accepted_bytes
                == old(self).accepted_bytes && final(self).accepted == old(self).accepted),
    {
        if !self.failed {
            match self.inner.deliver(bytes) {
                Ok(()) => {},
                Err(e) => {
                    self.fail(e);
                    return Err(Error::NotSupported);
                },
            }
            proof {
                self.deliveries = Ghost(self.deliveries@ + 1);
            }
        }
        self.accepted = self.accepted + bytes.len();
        proof {
            self.accepted_bytes = Ghost(self.accepted_bytes@ + bytes@);
            assert(self.output() =~= old(self).output() + bytes@);
            if old(self).wf() && !self.failed {
                assert(self.inner.received() + self.stage.staged() =~= self.output());
            }
        }
        Ok(())
    }

    /// Takes the kept error out.
    fn take_error(&mut self) -> (e: Option<std::io::Error>)
        ensures
            final(self).deliveries == old(self).deliveries,
            old(self).wf() ==> final(self).wf(),
            final(self).reliable() == old(self).reliable(),
            final(self).accepted == old(self).accepted,
            e == old(self).io_err,
            final(self).io_err is None,
            final(self).failed == old(self).failed,
            final(self).inner == old(self).inner,
            final(self).stage == old(self).stage,
            final(self).start == old(self).start,
            final(self).accepted_bytes == old(self).accepted_bytes,
    {
        self.io_err.take()
    }
}

/// A sink that stages small writes and sends them to a stream.
///
/// Writes that fit are copied into a stage of [`STAGE_SIZE`] bytes; when a
/// write does not fit, the stage is sent first, and a write of at least
/// half a stage is then sent straight through. The first error the stream
/// reports is kept verbatim; from then on nothing more is sent, writes that
/// would need a send are refused with `NotSupported`, and the error is what
/// [`Self::finish`] returns.
pub struct IoWriter<S: Recipient> {
    s: Staging<S>,
}

impl<S: Recipient> IoWriter<S> {
    /// The error the stream reported, while it is kept.
    pub closed spec fn failure(self) -> Option<std::io::Error> {
        self.s.io_err
    }

    /// Whether the stream has reported an error.
    pub closed spec fn stream_failed(self) -> bool {
        self.s.failed
    }

    /// The accepted bytes not sent yet.
    pub closed spec fn pending(self) -> Seq<u8> {
        self.s.stage.staged()
    }

    /// Where the bytes are delivered.
    pub closed spec fn recipient(self) -> S {
        self.s.inner
    }

    /// What the recipient has received, including what it held before.
    pub open spec fn received(self) -> Seq<u8> {
        self.recipient().received()
    }

    /// What the recipient held when the writer was made.
    pub closed spec fn initial(self) -> Seq<u8> {
        self.s.start@
    }

    /// The number of deliveries that succeeded.
    pub closed spec fn deliveries(self) -> nat {
        self.s.deliveries@
    }

    /// A writer that sends to `inner`, after what it already holds.
    pub fn new(inner: S) -> (w: Self)
        ensures
            w.recipient() == inner,
            w.output() == inner.received(),
            w.limit() == inner.received().len() + usize::MAX,
            w.received() == inner.received(),
            w.pending() == Seq::<u8>::empty(),
            !w.stream_failed(),
            w.failure() is None,
            w.inv(),
            w.reliable() == inner.reliable(),
            w.initial() == inner.received(),
            w.deliveries() == 0,
    {
        IoWriter { s: Staging::new(inner) }
    }

    /// The stream, with what it received.
    pub fn into_inner(self) -> (inner: S)
        ensures
            inner == self.recipient(),
    {
        let IoWriter { s } = self;
        let Staging { inner, .. } = s;
        inner
    }

    /// Sends the staged bytes. With bytes staged, this fails with
    /// `NotSupported` if the stream has failed before or fails now.
    fn flush(&mut self) -> (res: Result<(), Error>)
        requires
            (*old(self)).inv(),
        ensures
            final(self).s.wf(),
            final(self).initial() == old(self).initial(),
            old(self).pending().len() > 0 && res is Ok ==> final(self).deliveries() == old(
                self).deliveries() + 1,
            !(old(self).pending().len() > 0 && res is Ok) ==> final(self).deliveries() == old(
                self).deliveries(),
            (*final(self)).output() == (*old(self)).output(),
            (*final(self)).limit() == (*old(self)).limit(),
            (*final(self)).reliable() == (*old(self)).reliable(),
            (*old(self)).reliable() ==> res is Ok,
            final(self).pending().len() <= STAGE_SIZE,
            !final(self).stream_failed() ==> final(self).received() + final(self).pending()
                == (*final(self)).output(),
            final(self).received().is_prefix_of((*final(self)).output()),
            old(self).pending().len() == 0 ==> res is Ok && final(self).received() == old(
                self).received() && final(self).pending() == old(self).pending()
                && final(self).stream_failed() == old(self).stream_failed() && final(
                self).failure() == old(self).failure(),
            old(self).pending().len() > 0 && old(self).stream_failed() ==> res == Err::<
                (),
                Error,
            >(Error::NotSupported) && final(self).received() == old(self).received() && final(
                self).pending() == old(self).pending() && final(self).stream_failed() && final(
                self).failure() == old(self).failure(),
            old(self).pending().len() > 0 && !old(self).stream_failed() ==> (res is Ok && final(
                self).received() == old(self).received() + old(self).pending() && final(
                self).pending() == Seq::<u8>::empty() && !final(self).stream_failed() && final(
                self).failure() == old(self).failure()) || (res == Err::<(), Error>(
                Error::NotSupported,
            ) && final(self).stream_failed() && final(self).failure() is Some && final(
                self).pending() == old(self).pending()),
    {
        self.s.flush()
    }

    /// Ends the output after serialization ended with `outcome`.
    ///
    /// If the stream has failed, the error it reported is returned
    /// verbatim (once; a later call gives `Format(NotSupported)`). Else a
    /// failed serialization gives its error, and nothing more is sent; a
    /// successful one has the stage sent, and a failure of that send gives
    /// the error the stream reported.
    pub fn finish(&mut self, outcome: Result<(), Error>) -> (res: Result<(), StreamError>)
        requires
            (*old(self)).inv(),
        ensures
            final(self).initial() == old(self).initial(),
            final(self).initial().len() + usize::MAX == (*old(self)).limit(),
            res is Ok ==> final(self).deliveries() * (STAGE_SIZE / 2) as int <= 2 * (
            (*final(self)).output().len() - final(self).initial().len()) + STAGE_SIZE / 2,
            (*final(self)).output() == (*old(self)).output(),
            (*final(self)).limit() == (*old(self)).limit(),
            final(self).failure() is None,
            old(self).failure() is Some ==> old(self).failure() == old(
                self).recipient().last_error() && final(self).recipient() == old(self).recipient()
                && res == Err::<(), StreamError>(
                StreamError::Io(old(self).failure()->Some_0),
            ),
            old(self).stream_failed() && old(self).failure() is None ==> res == Err::<
                (),
                StreamError,
            >(StreamError::Format(Error::NotSupported)),
            old(self).stream_failed() ==> final(self).received() == old(self).received()
                && final(self).stream_failed(),
            !old(self).stream_failed() && outcome is Err ==> res == Err::<(), StreamError>(
                StreamError::Format(outcome->Err_0),
            ) && final(self).received() == old(self).received() && !final(
                self).stream_failed(),
            !old(self).stream_failed() && outcome is Ok ==> (res is Ok && final(self).received()
                == old(self).received() + old(self).pending() && final(self).pending()
                == Seq::<u8>::empty()) || (old(self).pending().len() > 0 && final(
                self).stream_failed() && final(self).recipient().last_error() is Some && res
                == Err::<(), StreamError>(
                StreamError::Io(final(self).recipient().last_error()->Some_0),
            )),
            res is Ok ==> final(self).received() == (*final(self)).output(),
            final(self).received().is_prefix_of((*final(self)).output()),
            (*old(self)).reliable() && outcome is Ok ==> res is Ok,
    {
        if self.s.failed {
            return match self.s.take_error() {
                Some(e) => Err(StreamError::Io(e)),
                None => Err(StreamError::Format(Error::NotSupported)),
            };
        }
        let res = match outcome {
            Err(e) => Err(StreamError::Format(e)),
            Ok(()) => match self.flush() {
                Ok(()) => Ok(()),
                Err(_) => match self.s.take_error() {
                    Some(e) => Err(StreamError::Io(e)),
                    None => Err(StreamError::Format(Error::NotSupported)),
                },
            },
        };
        proof {
            if res is Ok {
                assert(self.received() + Seq::<u8>::empty() =~= self.received());
            }
        }
        res
    }
}

impl<S: Recipient> Writer for IoWriter<S> {
    closed spec fn output(&self) -> Seq<u8> {
        self.s.output()
    }

    closed spec fn limit(&self) -> nat {
        self.s.start@.len() + self.s.accepted_bytes@.len() + (usize::MAX - self.s.accepted) as nat
    }

    /// Reliable while the recipient is and no delivery has failed.
    closed spec fn reliable(&self) -> bool {
        self.s.reliable()
    }

    /// Well formed, coalescing, and holding the stream's error if it
    /// failed: `finish` has not handed the error out yet.
    closed spec fn inv(&self) -> bool {
        &&& self.s.wf()
        &&& self.s.coalesced()
        &&& self.s.failed ==> self.s.io_err is Some
    }

    closed spec fn failed(&self) -> bool {
        self.s.failed
    }

    fn write_all(&mut self, bytes: &[u8]) -> (res: Result<(), Error>)
        ensures
            (*old(self)).inv() ==> final(self).pending().len() <= STAGE_SIZE,
            (*old(self)).inv() ==> final(self).received().is_prefix_of((*final(self)).output()),
            (*old(self)).inv() && !final(self).stream_failed() ==> final(self).received() + final(
                self).pending() == (*final(self)).output(),
            (*old(self)).inv() && old(self).stream_failed() ==> final(self).stream_failed() && final(
                self).failure() == old(self).failure() && final(self).recipient() == old(
                self).recipient() && final(self).deliveries() == old(self).deliveries(),
            (*old(self)).inv() && final(self).failure() is Some ==> final(self).failure() == final(
                self).recipient().last_error(),
            (*old(self)).inv() && res is Err && (*old(self)).output().len() + bytes@.len() <= (*old(
                self)).limit() ==> final(self).stream_failed(),
            // Bytes that fit in the stage are staged; nothing is sent.
            (*old(self)).inv() && (*old(self)).output().len() + bytes@.len() <= (*old(
                self)).limit() && old(self).pending().len() + bytes@.len() <= STAGE_SIZE ==> res is Ok
                && final(self).pending() == old(self).pending() + bytes@ && final(self).received()
                == old(self).received() && final(self).stream_failed() == old(self).stream_failed()
                && final(self).failure() == old(self).failure() && final(self).deliveries() == old(
                self).deliveries(),
            // After a failure, a write that needs a send of staged bytes is refused;
            // one sent straight through is dropped.
            (*old(self)).inv() && (*old(self)).output().len() + bytes@.len() <= (*old(
                self)).limit() && old(self).pending().len() + bytes@.len() > STAGE_SIZE && old(
                self).stream_failed() && old(self).pending().len() > 0 ==> res == Err::<(), Error>(
                Error::NotSupported,
            ) && final(self).pending() == old(self).pending(),
            (*old(self)).inv() && (*old(self)).output().len() + bytes@.len() <= (*old(
                self)).limit() && old(self).pending().len() + bytes@.len() > STAGE_SIZE && old(
                self).stream_failed() && old(self).pending().len() == 0 ==> res is Ok && final(
                self).pending() == Seq::<u8>::empty(),
            // A small write that does not fit: the stage is sent, then they are staged.
            (*old(self)).inv() && (*old(self)).output().len() + bytes@.len() <= (*old(
                self)).limit() && old(self).pending().len() + bytes@.len() > STAGE_SIZE && !old(
                self).stream_failed() && bytes@.len() < STAGE_SIZE / 2 ==> (res is Ok && !final(
                self).stream_failed() && final(self).received() == old(self).received() + old(
                self).pending() && final(self).pending() == bytes@ && final(self).deliveries()
                == old(self).deliveries() + 1) || (res == Err::<(), Error>(
                Error::NotSupported,
            ) && final(self).stream_failed() && final(self).failure() is Some),
            // A large write that does not fit: the stage is sent, then they are sent.
            (*old(self)).inv() && (*old(self)).output().len() + bytes@.len() <= (*old(
                self)).limit() && old(self).pending().len() + bytes@.len() > STAGE_SIZE && !old(
                self).stream_failed() && bytes@.len() >= STAGE_SIZE / 2 ==> (res is Ok && !final(
                self).stream_failed() && final(self).received() == old(self).received() + old(
                self).pending() + bytes@ && final(self).pending() == Seq::<u8>::empty() && final(
                self).deliveries() == old(self).deliveries() + 1 + (if old(self).pending().len()
                > 0 {
                1int
            } else {
                0int
            })) || (res
                == Err::<(), Error>(Error::NotSupported) && final(self).stream_failed() && final(
                self).failure() is Some),
    {
        if usize::MAX - self.s.accepted < bytes.len() {
            return Err(Error::ExceedsBuffer);
        }
        let res = match self.s.stage.plan(bytes.len()) {
            StageAction::Stage => {
                self.s.stage_bytes(bytes);
                Ok(())
            },
            StageAction::FlushThenStage => match self.s.flush() {
                Ok(()) => {
                    self.s.stage_bytes(bytes);
                    Ok(())
                },
                Err(e) => Err(e),
            },
            StageAction::FlushThenWriteThrough => match self.s.flush() {
                Ok(()) => self.s.write_through(bytes),
                Err(e) => Err(e),
            },
        };
        proof {
            assert(old(self).s.output() + bytes@ =~= old(self).s.start@ + (old(
                self).s.accepted_bytes@ + bytes@));
        }
        res
    }

    fn write_byte(&mut self, b: u8) -> (res: Result<(), Error>) {
        let one: Vec<u8> = vec![b];
        assert(one@ =~= seq![b]);
        self.write_all(one.as_slice())
    }
}

/// Writes `value` to `stream` through an [`IoWriter`], then ends the
/// output, and gives back the writer with the outcome. On success the
/// stream has received exactly the encoding, after what it held, in few
/// deliveries: on average at least a quarter of a stage each, but for the
/// last. In any case what it received is a prefix of that. A reliable
/// stream always succeeds.
pub fn to_stream<T: Encode, S: Recipient>(value: &T, stream: S) -> (res: (
    IoWriter<S>,
    Result<(), StreamError>,
))
    ensures
        res.1 matches Err(StreamError::Io(e)) ==> res.0.recipient().last_error() == Some(e),
        value.encoding().len() <= usize::MAX && res.1 is Err ==> (res.1 matches Err(
            StreamError::Io(e),
        ) && res.0.recipient().last_error() == Some(e)),
        res.1 is Ok ==> res.0.received() == stream.received() + value.encoding(),
        res.1 is Ok ==> res.0.deliveries() * (STAGE_SIZE / 2) as int <= 2 * value.encoding().len()
            + STAGE_SIZE / 2,
        res.0.received().is_prefix_of(stream.received() + value.encoding()),
        stream.reliable() && value.encoding().len() <= usize::MAX ==> res.1 is Ok,
{
    let mut s = Ser::new(IoWriter::new(stream));
    let outcome = value.encode(&mut s);
    let mut w = s.into_writer();
    let r = w.finish(outcome);
    (w, r)
}

/// What reading a whole message gives: the read error verbatim, else the
/// value decoded from the bytes read (trailing bytes ignored), else the
/// decoding error.
pub fn from_read_result<T: Decode>(read: Result<Vec<u8>, std::io::Error>) -> (res: Result<
    T,
    StreamError,
>)
    ensures
        read matches Err(e) ==> res == Err::<T, StreamError>(StreamError::Io(e)),
        read matches Ok(buf) ==> match T::decoding(buf@) {
            Ok((v, _)) => res == Ok::<T, StreamError>(v),
            Err(e) => res == Err::<T, StreamError>(StreamError::Format(e)),
        },
{
    match read {
        Err(e) => Err(StreamError::Io(e)),
        Ok(buf) => match crate::from_bytes::<T>(buf.as_slice()) {
            Ok(v) => Ok(v),
            Err(e) => Err(StreamError::Format(e)),
        },
    }
}

/// Size of the stage.
pub const STAGE_SIZE: usize = 8192;

/// What to do with a write of some bytes.
#[derive(Debug, Clone, Copy, PartialEq, Eq, Structural)]
pub enum StageAction {
    /// They fit in the stage: copy them in.
    Stage,
    /// They do not fit but are small: send the stage, then copy them in.
    FlushThenStage,
    /// They do not fit and are large: send the stage, then send them.
    FlushThenWriteThrough,
}

/// The stage: bytes written but not yet sent; it never holds more than
/// [`STAGE_SIZE`] of them.
pub struct Stage {
    buf: Vec<u8>,
}

impl Stage {
    #[verifier::type_invariant]
    spec fn inv(self) -> bool {
        self.buf@.len() <= STAGE_SIZE
    }

    /// The staged bytes, in order.
    pub closed spec fn staged(self) -> Seq<u8> {
        self.buf@
    }

    pub fn new() -> (s: Self)
        ensures
            s.staged() == Seq::<u8>::empty(),
    {
        Stage { buf: Vec::with_capacity(STAGE_SIZE) }
    }

    pub fn len(&self) -> (n: usize)
        ensures
            n == self.staged().len(),
            n <= STAGE_SIZE,
    {
        proof {
            use_type_invariant(self);
        }
        self.buf.len()
    }

    pub fn is_empty(&self) -> (b: bool)
        ensures
            b == (self.staged().len() == 0),
    {
        self.buf.len() == 0
    }

    /// The staged bytes, to be sent.
    pub fn contents(&self) -> (s: &[u8])
        ensures
            s@ == self.staged(),
    {
        self.buf.as_slice()
    }

    /// Forgets the staged bytes, once they have been sent.
    pub fn clear(&mut self)
        ensures
            final(self).staged() == Seq::<u8>::empty(),
    {
        let mut buf: Vec<u8> = Vec::new();
        std::mem::swap(&mut buf, &mut self.buf);
        buf.clear();
        self.buf = buf;
    }

    /// How a write of `len` bytes is to be carried out.
    pub fn plan(&self, len: usize) -> (a: StageAction)
        ensures
            a == StageAction::Stage <==> self.staged().len() + len <= STAGE_SIZE,
            a == StageAction::FlushThenStage <==> self.staged().len() + len > STAGE_SIZE && len
                < STAGE_SIZE / 2,
            a == StageAction::FlushThenWriteThrough <==> self.staged().len() + len > STAGE_SIZE
                && len >= STAGE_SIZE / 2,
    {
        if self.buf.len() <= STAGE_SIZE && len <= STAGE_SIZE - self.buf.len() {
            StageAction::Stage
        } else if len >= STAGE_SIZE / 2 {
            StageAction::FlushThenWriteThrough
        } else {
            StageAction::FlushThenStage
        }
    }

    /// Copies `bytes` into the stage if they fit, and says whether they
    /// did; the stage is unchanged when they do not.
    pub fn push(&mut self, bytes: &[u8]) -> (fit: bool)
        ensures
            fit == (old(self).staged().len() + bytes@.len() <= STAGE_SIZE),
            fit ==> final(self).staged() == old(self).staged() + bytes@,
            !fit ==> final(self).staged() == old(self).staged(),
    {
        if self.buf.len() > STAGE_SIZE || bytes.len() > STAGE_SIZE - self.buf.len() {
            return false;
        }
        let mut buf: Vec<u8> = Vec::new();
        std::mem::swap(&mut buf, &mut self.buf);
        buf.extend_from_slice(bytes);
        assert(buf@ =~= old(self).staged() + bytes@);
        self.buf = buf;
        true
    }
}

} // verus!
