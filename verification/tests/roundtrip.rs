use serde_zap::de::{Deserializer, ElementCount};
use serde_zap::pod_vec::element_count;
use serde_zap::ser::Ser;
use serde_zap::write::{SizeWriter, SliceWriter, VecWriter, Writer};
use serde_zap::Error;

/// One call of the serializer.
#[derive(Clone, Debug)]
enum Op {
    Bool(bool),
    U8(u8),
    I8(i8),
    U16(u16),
    U32(u32),
    U64(u64),
    U128(u128),
    I16(i16),
    I32(i32),
    I64(i64),
    I128(i128),
    F32(u32),
    F64(u64),
    Char(char),
    Str(String),
    Bytes(Vec<u8>),
    NoneTag,
    SomeTag,
    Variant(u32),
    SeqLen(Option<usize>),
    MapLen(Option<usize>),
}

fn apply<W: Writer>(s: &mut Ser<W>, op: &Op) -> Result<(), Error> {
    match op {
        Op::Bool(v) => s.serialize_bool(*v),
        Op::U8(v) => s.serialize_u8(*v),
        Op::I8(v) => s.serialize_i8(*v),
        Op::U16(v) => s.serialize_u16(*v),
        Op::U32(v) => s.serialize_u32(*v),
        Op::U64(v) => s.serialize_u64(*v),
        Op::U128(v) => s.serialize_u128(*v),
        Op::I16(v) => s.serialize_i16(*v),
        Op::I32(v) => s.serialize_i32(*v),
        Op::I64(v) => s.serialize_i64(*v),
        Op::I128(v) => s.serialize_i128(*v),
        Op::F32(v) => s.serialize_f32_bits(*v),
        Op::F64(v) => s.serialize_f64_bits(*v),
        Op::Char(v) => s.serialize_char(*v),
        Op::Str(v) => s.serialize_str(v),
        Op::Bytes(v) => s.serialize_bytes(v),
        Op::NoneTag => s.serialize_none(),
        Op::SomeTag => s.serialize_some(),
        Op::Variant(i) => s.serialize_variant(*i),
        Op::SeqLen(n) => s.serialize_seq(*n),
        Op::MapLen(n) => s.serialize_map(*n),
    }
}

fn run<W: Writer>(w: W, ops: &[Op]) -> Result<(), Error> {
    let mut s = Ser::new(w);
    for op in ops {
        apply(&mut s, op)?;
    }
    Ok(())
}

/// Serializes `ops` into a fresh vector, and checks that the size counter
/// and an exact-fit slice agree with it, and that one byte less fails.
fn encode_all(ops: &[Op]) -> Vec<u8> {
    let mut vw = VecWriter::new(Vec::new());
    run(&mut vw, ops).unwrap();
    let vec = vw.into_vec();
    let mut sw = SizeWriter::new();
    run(&mut sw, ops).unwrap();
    assert_eq!(sw.size(), vec.len(), "size mismatch");
    let mut buf = vec![0u8; vec.len()];
    let n = {
        let mut w = SliceWriter::new(&mut buf);
        run(&mut w, ops).unwrap();
        w.written()
    };
    assert_eq!(&buf[..n], vec.as_slice());
    if !vec.is_empty() {
        let mut small = vec![0u8; vec.len() - 1];
        assert_eq!(
            run(SliceWriter::new(&mut small), ops),
            Err(Error::ExceedsBuffer)
        );
    }
    vec
}

fn encode(op: Op) -> Vec<u8> {
    encode_all(&[op])
}

#[test]
fn primitives() {
    for b in [false, true] {
        let buf = encode(Op::Bool(b));
        assert_eq!(Deserializer::new(&buf).take_bool(), Ok(b));
    }
    for v in [0u8, 255] {
        let buf = encode(Op::U8(v));
        assert_eq!(buf, vec![v]);
        assert_eq!(Deserializer::new(&buf).take_u8(), Ok(v));
    }
    for v in [0i8, -128, 127] {
        let buf = encode(Op::I8(v));
        assert_eq!(Deserializer::new(&buf).take_i8(), Ok(v));
    }
    for v in [0.0f32, -1.5, f32::INFINITY] {
        let buf = encode(Op::F32(v.to_bits()));
        assert_eq!(buf, v.to_le_bytes().to_vec());
        let back = f32::from_bits(Deserializer::new(&buf).take_f32_bits().unwrap());
        assert_eq!(back, v);
    }
    for v in [0.0f64, 1.0e300] {
        let buf = encode(Op::F64(v.to_bits()));
        let back = f64::from_bits(Deserializer::new(&buf).take_f64_bits().unwrap());
        assert_eq!(back, v);
    }
    // NaN payloads round-trip bit-exactly.
    let nan = -f64::NAN;
    let buf = encode(Op::F64(nan.to_bits()));
    assert_eq!(Deserializer::new(&buf).take_f64_bits(), Ok(nan.to_bits()));
    for c in ['a', 'é', '\u{10FFFF}', '🦀'] {
        let buf = encode(Op::Char(c));
        assert_eq!(Deserializer::new(&buf).take_char(), Ok(c));
    }
}

#[test]
fn integer_edges() {
    for v in [
        0u64,
        1,
        250,
        251,
        255,
        65535,
        65536,
        u32::MAX as u64,
        u32::MAX as u64 + 1,
        u64::MAX,
    ] {
        let buf = encode(Op::U64(v));
        let mut d = Deserializer::new(&buf);
        assert_eq!(d.take_u64(), Ok(v));
        assert_eq!(d.r.remaining(), 0);
    }
    for v in [0u16, 250, 251, u16::MAX] {
        let buf = encode(Op::U16(v));
        assert_eq!(Deserializer::new(&buf).take_u16(), Ok(v));
    }
    for v in [0u32, 250, 251, 65535, 65536, u32::MAX] {
        let buf = encode(Op::U32(v));
        assert_eq!(Deserializer::new(&buf).take_u32(), Ok(v));
    }
    for v in [0u128, u64::MAX as u128 + 1, u128::MAX] {
        let buf = encode(Op::U128(v));
        assert_eq!(Deserializer::new(&buf).take_u128(), Ok(v));
    }
    for v in [0i16, i16::MIN, i16::MAX] {
        let buf = encode(Op::I16(v));
        assert_eq!(Deserializer::new(&buf).take_i16(), Ok(v));
    }
    for v in [i32::MIN, i32::MAX] {
        let buf = encode(Op::I32(v));
        assert_eq!(Deserializer::new(&buf).take_i32(), Ok(v));
    }
    for v in [i64::MIN, i64::MAX, -1, 1] {
        let buf = encode(Op::I64(v));
        assert_eq!(Deserializer::new(&buf).take_i64(), Ok(v));
    }
    for v in [i128::MIN, i128::MAX] {
        let buf = encode(Op::I128(v));
        assert_eq!(Deserializer::new(&buf).take_i128(), Ok(v));
    }
    // usize and isize travel as u64 and i64.
    let buf = encode(Op::U64(usize::MAX as u64));
    assert_eq!(Deserializer::new(&buf).take_u64(), Ok(usize::MAX as u64));
    let buf = encode(Op::I64(isize::MIN as i64));
    assert_eq!(Deserializer::new(&buf).take_i64(), Ok(isize::MIN as i64));
}

#[test]
fn varint_encoded_sizes() {
    // Tagged varint: 1 byte <= 250, tag+u16 = 3, tag+u32 = 5, tag+u64 = 9.
    let cases: [(u64, usize); 10] = [
        (0, 1),
        (1, 1),
        (250, 1),
        (251, 3),
        (255, 3),
        (65535, 3),
        (65536, 5),
        (u32::MAX as u64, 5),
        (u32::MAX as u64 + 1, 9),
        (u64::MAX, 9),
    ];
    for (v, len) in cases {
        assert_eq!(encode(Op::U64(v)).len(), len, "u64 {v}");
    }
    // u16 values never take more than tag+u16.
    assert_eq!(encode(Op::U16(u16::MAX)).len(), 3);
    // zigzag: -1 -> 1, small magnitudes stay small.
    assert_eq!(encode(Op::I64(-1i64)).len(), 1);
    assert_eq!(encode(Op::I64(63i64)).len(), 1);
    assert_eq!(encode(Op::I64(64i64)).len(), 1); // zigzag(64) = 128 <= 250
    assert_eq!(encode(Op::I64(i64::MIN)).len(), 9);
    assert_eq!(encode(Op::U128(u128::MAX)).len(), 17);
}

#[test]
fn varint_exact_bytes() {
    assert_eq!(encode(Op::U64(250)), vec![250]);
    assert_eq!(encode(Op::U64(251)), vec![251, 251, 0]);
    assert_eq!(encode(Op::U64(0x1234)), vec![251, 0x34, 0x12]);
    assert_eq!(encode(Op::U64(65536)), vec![252, 0, 0, 1, 0]);
    assert_eq!(
        encode(Op::U64(0x0102_0304_0506_0708)),
        vec![253, 8, 7, 6, 5, 4, 3, 2, 1]
    );
    let mut expected = vec![254];
    expected.extend_from_slice(&u128::MAX.to_le_bytes());
    assert_eq!(encode(Op::U128(u128::MAX)), expected);
    assert_eq!(encode(Op::Char('é')), vec![233]);
    assert_eq!(encode(Op::Char('🦀')), vec![252, 0x80, 0xF9, 0x01, 0x00]);
}

#[test]
fn strings() {
    let long = "x".repeat(300);
    let very_long = "y".repeat(70_000);
    for s in ["", "hello", "🦀 rust 言語", long.as_str(), very_long.as_str()] {
        let buf = encode(Op::Str(s.to_string()));
        let mut d = Deserializer::new(&buf);
        assert_eq!(d.take_borrowed_str(), Ok(s));
        assert_eq!(d.r.remaining(), 0);
    }
    // 300 bytes: tag 251 + u16 length.
    let buf = encode(Op::Str(long.as_str().to_string()));
    assert_eq!(&buf[..3], &[251, 44, 1]);
    assert_eq!(buf.len(), 303);
    let s = "borrowed";
    let buf = encode(Op::Str(s.to_string()));
    assert_eq!(buf[0], 8);
    let back: &str = Deserializer::new(&buf).take_borrowed_str().unwrap();
    assert_eq!(back, s);
}

#[test]
fn byte_strings() {
    let data: Vec<u8> = (0..=255u8).collect();
    let buf = encode(Op::Bytes(data.to_vec()));
    assert_eq!(&buf[..3], &[251, 0, 1]);
    let mut d = Deserializer::new(&buf);
    assert_eq!(d.take_bytes(), Ok(data.as_slice()));
    let buf = encode(Op::Bytes([1, 2, 3].to_vec()));
    assert_eq!(buf, vec![3, 1, 2, 3]);
}

#[test]
fn collections() {
    // A sequence: element count, then the elements.
    let items = [0u32, 250, 251, 65536];
    let mut ops = vec![Op::SeqLen(Some(items.len()))];
    ops.extend(items.iter().map(|v| Op::U32(*v)));
    let buf = encode_all(&ops);
    assert_eq!(buf, vec![4, 0, 250, 251, 251, 0, 252, 0, 0, 1, 0]);
    let mut d = Deserializer::new(&buf);
    let n = d.take_len().unwrap();
    let mut count = ElementCount::new(n);
    let mut back = Vec::new();
    while count.next_element() {
        back.push(d.take_u32().unwrap());
    }
    assert_eq!(back, items);
    // Unknown lengths are refused and write nothing.
    let mut s = Ser::new(VecWriter::new(Vec::new()));
    assert_eq!(s.serialize_seq(None), Err(Error::SeqLengthUnknown));
    assert_eq!(s.serialize_map(None), Err(Error::SeqLengthUnknown));
    assert!(s.into_writer().into_vec().is_empty());
    // A map of two entries.
    let buf = encode_all(&[
        Op::MapLen(Some(2)),
        Op::Str("one".to_string()),
        Op::U64(1),
        Op::Str("two".to_string()),
        Op::U64(2),
    ]);
    let mut d = Deserializer::new(&buf);
    let mut count = ElementCount::new(d.take_len().unwrap());
    let mut entries = Vec::new();
    while count.has_next() {
        let k = d.take_borrowed_str().unwrap();
        let v = d.take_u64().unwrap();
        count.entry_done();
        entries.push((k, v));
    }
    assert_eq!(entries, vec![("one", 1), ("two", 2)]);
}

#[test]
fn enums_and_options() {
    let buf = encode_all(&[Op::Variant(3), Op::I64(-42), Op::SomeTag, Op::Bool(true)]);
    assert_eq!(buf, vec![3, 83, 1, 1]);
    let mut d = Deserializer::new(&buf);
    assert_eq!(d.take_variant(), Ok(3));
    assert_eq!(d.take_i64(), Ok(-42));
    assert_eq!(d.take_option_tag(), Ok(true));
    assert_eq!(d.take_bool(), Ok(true));
    let buf = encode(Op::Variant(65536));
    assert_eq!(Deserializer::new(&buf).take_variant(), Ok(65536));
    let buf = encode(Op::NoneTag);
    assert_eq!(buf, vec![0]);
    assert_eq!(Deserializer::new(&buf).take_option_tag(), Ok(false));
}

#[test]
fn error_cases() {
    // Truncated input.
    let buf = encode(Op::Str("hello".to_string()));
    assert_eq!(
        Deserializer::new(&buf[..buf.len() - 1]).take_borrowed_str(),
        Err(Error::UnexpectedEnd)
    );
    // Invalid bool.
    assert_eq!(Deserializer::new(&[2]).take_bool(), Err(Error::InvalidBool));
    // Invalid option tag.
    assert_eq!(
        Deserializer::new(&[3]).take_option_tag(),
        Err(Error::InvalidOption)
    );
    // Invalid varint tag for u16 (tag 252 is u32-width).
    assert_eq!(
        Deserializer::new(&[252, 0, 0, 0, 0]).take_u16(),
        Err(Error::InvalidVarint)
    );
    // Invalid char (surrogate).
    assert_eq!(
        Deserializer::new(&[251, 0x00, 0xD8]).take_char(),
        Err(Error::InvalidChar)
    );
    // Invalid UTF-8.
    assert_eq!(
        Deserializer::new(&[1, 0xFF]).take_borrowed_str(),
        Err(Error::InvalidUtf8)
    );
    // Writing into a too-small buffer.
    let mut tiny = [0u8; 2];
    let mut w = SliceWriter::new(&mut tiny);
    let mut s = Ser::new(&mut w);
    assert_eq!(s.serialize_str("hello"), Err(Error::ExceedsBuffer));
    assert_eq!(w.written(), 0);
    // Empty input.
    assert_eq!(Deserializer::new(&[]).take_u8(), Err(Error::UnexpectedEnd));
    assert_eq!(Deserializer::new(&[]).take_u64(), Err(Error::UnexpectedEnd));
    // Tag 255 is never valid; a tag with a short payload is truncated input.
    assert_eq!(
        Deserializer::new(&[255]).take_u128(),
        Err(Error::InvalidVarint)
    );
    assert_eq!(
        Deserializer::new(&[253, 1, 2]).take_u64(),
        Err(Error::UnexpectedEnd)
    );
    assert_eq!(
        Deserializer::new(&[1, 2, 3]).take_f32_bits(),
        Err(Error::UnexpectedEnd)
    );
}

#[test]
fn take_from_bytes_rest() {
    let mut buf = encode(Op::U64(42));
    buf.extend_from_slice(&[9, 9, 9]);
    let mut d = Deserializer::new(&buf);
    assert_eq!(d.take_u64(), Ok(42));
    let n = d.r.remaining();
    let rest = d.r.read_slice(n).unwrap();
    assert_eq!(rest, &[9, 9, 9]);
}

#[test]
fn dos_length_guard() {
    // A u64::MAX length prefix yields no preallocation hint.
    let evil = [253, 0xFF, 0xFF, 0xFF, 0xFF, 0xFF, 0xFF, 0xFF, 0xFF];
    let mut d = Deserializer::new(&evil);
    match d.take_len() {
        Ok(n) => {
            let count = ElementCount::new(n);
            assert_eq!(count.size_hint(d.r.remaining()), None);
        }
        Err(e) => assert_eq!(e, Error::InvalidLength),
    }
    // Genuine counts are hinted in full.
    assert_eq!(ElementCount::new(3).size_hint(3), Some(3));
    assert_eq!(ElementCount::new(100).size_hint(0), None);
}

#[test]
fn pod_vec_adapter() {
    // Layout: byte-length varint (800 > 250 -> 3 bytes) + len * 8 raw bytes.
    let raw = vec![0u8; 800];
    let buf = encode(Op::Bytes(raw.to_vec()));
    assert_eq!(buf.len(), 3 + 100 * 8);
    assert_eq!(element_count(800, 8), Some(100));
    // A byte length that is not a multiple of the element size is refused.
    assert_eq!(element_count(7, 8), None);
    assert_eq!(element_count(8, 0), None);
    assert_eq!(element_count(0, 12), Some(0));
}
