use std::io::{self, Cursor, Read};

use serde_zap::stream::{from_read_result, StreamError};

/// Reads the whole message, as a reader of messages does before decoding.
fn read_all<R: Read>(reader: &mut R) -> io::Result<Vec<u8>> {
    let mut buf = Vec::new();
    reader.read_to_end(&mut buf)?;
    Ok(buf)
}

/// The stream's own error, failing the test on a format error.
fn io_error(e: StreamError) -> io::Error {
    match e {
        StreamError::Io(e) => e,
        StreamError::Format(e) => panic!("expected a stream error, got {e:?}"),
    }
}

#[test]
fn from_reader_truncated_is_invalid_data() {
    let buf = serde_zap::to_vec(&u64::MAX).unwrap();
    let err = from_read_result::<u64>(read_all(&mut Cursor::new(&buf[..2]))).unwrap_err();
    assert!(matches!(err, StreamError::Format(Error::UnexpectedEnd)));
}

/// Trailing bytes are ignored, matching `from_bytes`.
#[test]
fn from_reader_ignores_trailing_bytes() {
    let mut buf = serde_zap::to_vec(&70_000u64).unwrap();
    buf.extend_from_slice(&[9, 9, 9]);
    let v: u64 = from_read_result(read_all(&mut Cursor::new(&buf))).unwrap();
    assert_eq!(v, 70_000);
}

struct FailingReader;

impl Read for FailingReader {
    fn read(&mut self, _buf: &mut [u8]) -> io::Result<usize> {
        Err(io::Error::new(io::ErrorKind::ConnectionReset, "net down"))
    }
}

#[test]
fn read_error_returned_verbatim() {
    let err = io_error(from_read_result::<u64>(read_all(&mut FailingReader)).unwrap_err());
    assert_eq!(err.kind(), io::ErrorKind::ConnectionReset);
    assert_eq!(err.to_string(), "net down");
}

#[test]
fn unit_roundtrip_zero_bytes() {
    let (w, res) = to_stream(&(), Vec::new());
    res.unwrap();
    let out = w.into_inner();
    assert!(out.is_empty());
    let back: () = from_read_result(read_all(&mut Cursor::new(&out))).unwrap();
    assert_eq!(back, ());
}

#[test]
fn from_reader_invalid_tag_is_invalid_data() {
    let err = from_read_result::<bool>(read_all(&mut Cursor::new(&[7u8]))).unwrap_err();
    assert!(matches!(err, StreamError::Format(Error::InvalidBool)));
}

use serde_zap::ser::Ser;
use serde_zap::stream::{to_stream, ByteStream, IoWriter, Recorded};
use serde_zap::write::{VecWriter, Writer};
use serde_zap::Error;

/// Collects what is sent, counting the sends.
struct Collect {
    buf: Vec<u8>,
    calls: usize,
}

impl ByteStream for &mut Collect {
    fn send(&mut self, bytes: &[u8]) -> io::Result<()> {
        self.buf.extend_from_slice(bytes);
        self.calls += 1;
        Ok(())
    }
}

/// Fails every send after `fail_after` bytes.
struct Failing {
    fail_after: usize,
    written: usize,
}

impl ByteStream for &mut Failing {
    fn send(&mut self, bytes: &[u8]) -> io::Result<()> {
        if self.written >= self.fail_after {
            return Err(io::Error::new(io::ErrorKind::BrokenPipe, "boom"));
        }
        self.written += bytes.len();
        Ok(())
    }
}

/// One serializer call.
enum Item {
    U64(u64),
    Str(String),
    Bytes(Vec<u8>),
    SeqLen(Option<usize>),
}

fn put<W: Writer>(s: &mut Ser<W>, items: &[Item]) -> Result<(), Error> {
    for item in items {
        match item {
            Item::U64(v) => s.serialize_u64(*v)?,
            Item::Str(v) => s.serialize_str(v)?,
            Item::Bytes(v) => s.serialize_bytes(v)?,
            Item::SeqLen(n) => s.serialize_seq(*n)?,
        }
    }
    Ok(())
}

fn in_memory(items: &[Item]) -> Vec<u8> {
    let mut s = Ser::new(VecWriter::new(Vec::new()));
    put(&mut s, items).unwrap();
    s.into_writer().into_vec()
}

fn streamed(items: &[Item]) -> (Vec<u8>, usize) {
    let mut out = Collect {
        buf: Vec::new(),
        calls: 0,
    };
    let mut w = IoWriter::new(Recorded::new(&mut out));
    let outcome = put(&mut Ser::new(&mut w), items);
    w.finish(outcome).unwrap();
    (out.buf, out.calls)
}

#[test]
fn byte_identity_across_stage_boundaries() {
    for len in [
        0usize, 1, 255, 256, 4095, 4096, 4097, 8191, 8192, 8193, 16384, 20000,
    ] {
        let items = [Item::Str("x".repeat(len))];
        let (out, _) = streamed(&items);
        assert_eq!(out, in_memory(&items), "stream != memory for string len {len}");
        let items = [Item::Bytes(vec![0xABu8; len])];
        let (out, _) = streamed(&items);
        assert_eq!(out, in_memory(&items), "stream != memory for bytes len {len}");
    }
}

/// Stage content is sent before a write-through bulk write, and small
/// writes resume correctly afterwards.
#[test]
fn stage_flush_ordering() {
    let mut items = vec![Item::SeqLen(Some(1000))];
    items.extend((0..1000u64).map(Item::U64));
    items.push(Item::Str("b".repeat(9000)));
    items.push(Item::SeqLen(Some(1000)));
    items.extend((0..1000u64).map(Item::U64));
    let (out, _) = streamed(&items);
    assert_eq!(out, in_memory(&items));
}

/// ~20 KB of varints must not become 10k separate sends.
#[test]
fn staging_coalesces_small_writes() {
    let mut items = vec![Item::SeqLen(Some(10_000))];
    items.extend((0..10_000u64).map(Item::U64));
    let (out, calls) = streamed(&items);
    assert_eq!(out, in_memory(&items));
    assert!(calls < 50, "expected coalesced writes, got {calls}");
}

/// Stream errors surface verbatim, both mid-stream and at the final flush.
#[test]
fn io_error_returned_verbatim() {
    let mut items = vec![Item::SeqLen(Some(10_000))];
    items.extend((0..10_000u64).map(Item::U64));
    let mut f = Failing {
        fail_after: 0,
        written: 0,
    };
    let mut w = IoWriter::new(Recorded::new(&mut f));
    let outcome = put(&mut Ser::new(&mut w), &items);
    assert_eq!(outcome, Err(Error::NotSupported));
    let err = io_error(w.finish(outcome).unwrap_err());
    assert_eq!(err.kind(), io::ErrorKind::BrokenPipe);
    assert_eq!(err.to_string(), "boom");

    // Failure at the final flush (value fits in the stage).
    let mut f = Failing {
        fail_after: 0,
        written: 0,
    };
    let mut w = IoWriter::new(Recorded::new(&mut f));
    let outcome = put(&mut Ser::new(&mut w), &[Item::U64(42)]);
    assert_eq!(outcome, Ok(()));
    let err = io_error(w.finish(outcome).unwrap_err());
    assert_eq!(err.kind(), io::ErrorKind::BrokenPipe);
    assert_eq!(err.to_string(), "boom");

    // Nothing written, nothing sent, nothing fails.
    let mut f = Failing {
        fail_after: 0,
        written: 0,
    };
    let mut w = IoWriter::new(Recorded::new(&mut f));
    w.finish(Ok(())).unwrap();
}

/// A serialization failure becomes InvalidData carrying its message.
#[test]
fn serde_error_becomes_invalid_data() {
    let mut out = Collect {
        buf: Vec::new(),
        calls: 0,
    };
    let mut w = IoWriter::new(Recorded::new(&mut out));
    let outcome = put(&mut Ser::new(&mut w), &[Item::SeqLen(None)]);
    assert_eq!(outcome, Err(Error::SeqLengthUnknown));
    let err = w.finish(outcome).unwrap_err();
    assert!(matches!(err, StreamError::Format(Error::SeqLengthUnknown)));
    assert!(Error::SeqLengthUnknown.message().contains("length"));
}

/// A failed write that the caller ignores still surfaces at the end: once
/// the stream has failed, `finish` never reports success.
#[test]
fn ignored_failure_still_reported() {
    let mut f = Failing {
        fail_after: 0,
        written: 0,
    };
    let mut w = IoWriter::new(Recorded::new(&mut f));
    let mut s = Ser::new(&mut w);
    assert_eq!(s.serialize_str(&"b".repeat(9000)), Err(Error::NotSupported));
    assert_eq!(s.serialize_u64(42), Ok(()));
    let err = io_error(w.finish(Ok(())).unwrap_err());
    assert_eq!(err.kind(), io::ErrorKind::BrokenPipe);
    assert_eq!(err.to_string(), "boom");
}

/// After a failure, a write that needs the staged bytes sent is refused
/// and keeps them; one that fits the stage is still accepted.
#[test]
fn write_after_failure_is_refused() {
    let mut f = Failing {
        fail_after: 0,
        written: 0,
    };
    let mut w = IoWriter::new(Recorded::new(&mut f));
    assert_eq!(w.write_all(&[1, 2, 3]), Ok(()));
    assert_eq!(w.write_all(&[5u8; 8190]), Err(Error::NotSupported));
    assert_eq!(w.write_all(&[5u8; 8190]), Err(Error::NotSupported));
    assert_eq!(w.write_all(&[4]), Ok(()));
    let err = io_error(w.finish(Ok(())).unwrap_err());
    assert_eq!(err.kind(), io::ErrorKind::BrokenPipe);
}

/// A write of at least half a stage that does not fit goes straight
/// through, after the stage; a small one is staged after the stage is sent.
#[test]
fn write_through_after_stage() {
    let mut out = Collect {
        buf: Vec::new(),
        calls: 0,
    };
    let mut w = IoWriter::new(Recorded::new(&mut out));
    w.write_all(&[7u8; 5000]).unwrap();
    w.write_all(&[8u8; 5000]).unwrap();
    w.write_all(&[9u8; 100]).unwrap();
    w.finish(Ok(())).unwrap();
    let mut expected = vec![7u8; 5000];
    expected.extend(vec![8u8; 5000]);
    expected.extend(vec![9u8; 100]);
    assert_eq!(out.buf, expected);
    // The first stage, the bulk write, the final stage.
    assert_eq!(out.calls, 3);
}

/// `to_stream` gives a stream exactly what `to_vec` gives, after what the
/// stream already held.
#[test]
fn to_stream_matches_to_vec() {
    for v in [0u64, 250, 65_536, u64::MAX] {
        let (w, res) = to_stream(&v, vec![0xEEu8]);
        res.unwrap();
        let out = w.into_inner();
        let mut expected = vec![0xEEu8];
        expected.extend(serde_zap::to_vec(&v).unwrap());
        assert_eq!(out, expected);
    }
    let (w, res) = to_stream(&'x', Vec::new());
    res.unwrap();
    let out = w.into_inner();
    assert_eq!(out, serde_zap::to_vec(&'x').unwrap());
}

/// Through a recorded stream, `to_stream` sends exactly the encoding.
#[test]
fn to_stream_through_recorded_stream() {
    let mut out = Collect {
        buf: Vec::new(),
        calls: 0,
    };
    let (w, res) = to_stream(&-12345i64, Recorded::new(&mut out));
    res.unwrap();
    drop(w);
    assert_eq!(out.buf, serde_zap::to_vec(&-12345i64).unwrap());
    assert_eq!(out.calls, 1);
}

/// A bulk write into an empty stage reaches the stream in one send.
#[test]
fn bulk_write_is_one_send() {
    let mut out = Collect {
        buf: Vec::new(),
        calls: 0,
    };
    let mut w = IoWriter::new(Recorded::new(&mut out));
    w.write_all(&[3u8; 9000]).unwrap();
    w.finish(Ok(())).unwrap();
    assert_eq!(out.calls, 1);
    assert_eq!(out.buf, vec![3u8; 9000]);
}

/// A value that fits can fail only through the stream, and then the error
/// is the one the stream reported.
#[test]
fn to_stream_failure_is_the_stream_error() {
    let mut f = Failing {
        fail_after: 0,
        written: 0,
    };
    let (_w, res) = to_stream(&42u64, Recorded::new(&mut f));
    let err = io_error(res.unwrap_err());
    assert_eq!(err.kind(), io::ErrorKind::BrokenPipe);
    assert_eq!(err.to_string(), "boom");
}
