use serde_zap::read::Reader;
use serde_zap::stream::{Stage, StageAction, STAGE_SIZE};
use serde_zap::varint::{
    unzigzag_i128, unzigzag_i16, unzigzag_i32, unzigzag_i64, varint_encode, zigzag_i128,
    zigzag_i16, zigzag_i32, zigzag_i64, SINGLE_BYTE_MAX, U128_TAG, U16_TAG, U32_TAG, U64_TAG,
};
use serde_zap::write::{SizeWriter, SliceWriter, VecWriter, Writer};
use serde_zap::Error;

#[test]
fn zigzag_values() {
    assert_eq!(zigzag_i16(0), 0);
    assert_eq!(zigzag_i16(-1), 1);
    assert_eq!(zigzag_i16(1), 2);
    assert_eq!(zigzag_i16(-2), 3);
    assert_eq!(zigzag_i16(i16::MAX), u16::MAX - 1);
    assert_eq!(zigzag_i16(i16::MIN), u16::MAX);
    assert_eq!(zigzag_i32(64), 128);
    assert_eq!(zigzag_i32(i32::MIN), u32::MAX);
    assert_eq!(zigzag_i64(-64), 127);
    assert_eq!(zigzag_i64(i64::MIN), u64::MAX);
    assert_eq!(zigzag_i128(i128::MIN), u128::MAX);
    assert_eq!(zigzag_i128(5), 10);
}

#[test]
fn zigzag_roundtrip() {
    for v in [0i16, 1, -1, 300, -300, i16::MIN, i16::MAX] {
        assert_eq!(unzigzag_i16(zigzag_i16(v)), v);
    }
    for v in [0i32, 7, -7, i32::MIN, i32::MAX] {
        assert_eq!(unzigzag_i32(zigzag_i32(v)), v);
    }
    for v in [0i64, 123_456_789, -987_654_321, i64::MIN, i64::MAX] {
        assert_eq!(unzigzag_i64(zigzag_i64(v)), v);
    }
    for v in [0i128, -1, i128::MIN, i128::MAX] {
        assert_eq!(unzigzag_i128(zigzag_i128(v)), v);
    }
    for u in [0u16, 1, 2, 3, u16::MAX] {
        assert_eq!(zigzag_i16(unzigzag_i16(u)), u);
    }
    assert_eq!(unzigzag_i64(3), -2);
    assert_eq!(unzigzag_i64(4), 2);
}

#[test]
fn varint_tags() {
    assert_eq!(SINGLE_BYTE_MAX, 250);
    assert_eq!((U16_TAG, U32_TAG, U64_TAG, U128_TAG), (251, 252, 253, 254));
    assert_eq!(varint_encode(7), vec![7]);
    assert_eq!(varint_encode(u16::MAX as u128), vec![251, 0xFF, 0xFF]);
    assert_eq!(varint_encode(u64::MAX as u128 + 1).len(), 17);
}

#[test]
fn reader_varints() {
    let buf = [7u8, 251, 0x34, 0x12, 252, 1, 0, 0, 0, 253, 2, 0, 0, 0, 0, 0, 0, 0];
    let mut r = Reader::new(&buf);
    assert_eq!(r.read_varint_u16(), Ok(7));
    assert_eq!(r.read_varint_u16(), Ok(0x1234));
    assert_eq!(r.read_varint_u32(), Ok(1));
    assert_eq!(r.read_varint_u64(), Ok(2));
    assert_eq!(r.remaining(), 0);
    assert_eq!(r.read_byte(), Err(Error::UnexpectedEnd));
    // Narrower targets refuse wider tags.
    assert_eq!(Reader::new(&[252, 0, 0, 0, 0]).read_varint_u16(), Err(Error::InvalidVarint));
    assert_eq!(Reader::new(&[253, 0, 0, 0, 0, 0, 0, 0, 0]).read_varint_u32(), Err(Error::InvalidVarint));
    assert_eq!(Reader::new(&[254]).read_varint_u64(), Err(Error::InvalidVarint));
    // A non-minimal encoding is accepted.
    assert_eq!(Reader::new(&[251, 5, 0]).read_varint_u64(), Ok(5));
    let mut wide = vec![254u8];
    wide.extend_from_slice(&(u128::MAX - 1).to_le_bytes());
    assert_eq!(Reader::new(&wide).read_varint_u128(), Ok(u128::MAX - 1));
}

#[test]
fn reader_slices() {
    let buf = [1u8, 2, 3, 4, 5];
    let mut r = Reader::new(&buf);
    assert_eq!(r.read_slice(2), Ok(&buf[..2]));
    assert_eq!(r.remaining(), 3);
    assert_eq!(r.read_slice(4), Err(Error::UnexpectedEnd));
    assert_eq!(r.remaining(), 3);
    assert_eq!(r.read_byte(), Ok(3));
    assert_eq!(r.read_slice(2), Ok(&buf[3..]));
}

#[test]
fn writers_agree() {
    let mut w = VecWriter::new(vec![1u8]);
    w.write_byte(2).unwrap();
    w.write_all(&[3, 4]).unwrap();
    assert_eq!(w.into_vec(), vec![1, 2, 3, 4]);

    let mut sw = SizeWriter::new();
    sw.write_byte(2).unwrap();
    sw.write_all(&[3, 4]).unwrap();
    sw.write_all(&[]).unwrap();
    assert_eq!(sw.size(), 3);

    let mut buf = [0u8; 3];
    let mut w = SliceWriter::new(&mut buf);
    w.write_all(&[9, 8]).unwrap();
    assert_eq!(w.write_all(&[7, 6]), Err(Error::ExceedsBuffer));
    assert_eq!(w.written(), 2);
    w.write_byte(7).unwrap();
    assert_eq!(w.write_byte(1), Err(Error::ExceedsBuffer));
    assert_eq!(w.written(), 3);
    assert_eq!(w.into_written(), &[9, 8, 7]);
    assert_eq!(buf, [9, 8, 7]);
}

#[test]
fn stage_plans() {
    let mut st = Stage::new();
    assert!(st.is_empty());
    assert_eq!(st.plan(10), StageAction::Stage);
    assert_eq!(st.plan(STAGE_SIZE), StageAction::Stage);
    assert!(st.push(&[1, 2, 3]));
    assert_eq!(st.len(), 3);
    assert_eq!(st.contents(), &[1, 2, 3]);
    assert_eq!(st.plan(STAGE_SIZE - 3), StageAction::Stage);
    assert_eq!(st.plan(STAGE_SIZE - 2), StageAction::FlushThenWriteThrough);
    let big = vec![0u8; STAGE_SIZE - 3];
    assert!(st.push(&big));
    assert_eq!(st.len(), STAGE_SIZE);
    assert_eq!(st.plan(1), StageAction::FlushThenStage);
    assert_eq!(st.plan(STAGE_SIZE / 2 - 1), StageAction::FlushThenStage);
    assert_eq!(st.plan(STAGE_SIZE / 2), StageAction::FlushThenWriteThrough);
    assert!(!st.push(&[1]));
    assert_eq!(st.len(), STAGE_SIZE);
    st.clear();
    assert!(st.is_empty());
}

#[test]
fn error_messages() {
    assert_eq!(Error::ExceedsBuffer.message(), "output buffer too small");
    assert_eq!(Error::SeqLengthUnknown.message(), "sequence length must be known");
    assert_eq!(Error::InvalidLength.message(), "length does not fit in usize");
    assert_eq!(Error::Custom.message(), "custom error");
}
