use serde_zap::{from_bytes, serialized_size, take_from_bytes, to_slice, to_vec, Error};

/// `to_vec` (size first, then one exact allocation) gives what a single
/// pass into a growing vector gives.
#[test]
fn to_vec_two_pass_matches_to_vec() {
    fn single_pass<T: serde_zap::codec::Encode>(v: &T) -> Vec<u8> {
        let mut s = serde_zap::ser::Ser::new(serde_zap::write::VecWriter::new(Vec::new()));
        v.encode(&mut s).unwrap();
        s.into_writer().into_vec()
    }
    let v = 1_000_000_007u64;
    let two = to_vec(&v).unwrap();
    assert_eq!(two, single_pass(&v));
    assert_eq!(two, vec![252, 0x07, 0xCA, 0x9A, 0x3B]);
    assert_eq!(two.len(), two.capacity(), "exact capacity");
    assert_eq!(serialized_size(&v), Ok(5));
    for v in [0u128, 250, 251, 65_535, 1 << 40, u128::MAX] {
        assert_eq!(to_vec(&v).unwrap(), single_pass(&v));
    }
    assert_eq!(to_vec(&'\u{1F600}').unwrap(), single_pass(&'\u{1F600}'));
}

#[test]
fn scalar_roundtrips() {
    fn check<T>(v: T)
    where
        T: serde_zap::codec::Encode + serde_zap::codec::Decode + PartialEq + std::fmt::Debug,
    {
        let buf = to_vec(&v).unwrap();
        assert_eq!(serialized_size(&v), Ok(buf.len()));
        let mut exact = vec![0u8; buf.len()];
        assert_eq!(to_slice(&v, &mut exact).unwrap(), buf.as_slice());
        if !buf.is_empty() {
            let mut small = vec![0u8; buf.len() - 1];
            assert_eq!(to_slice(&v, &mut small), Err(Error::ExceedsBuffer));
            // A strict prefix never decodes.
            assert!(from_bytes::<T>(&buf[..buf.len() - 1]).is_err());
        }
        assert_eq!(from_bytes::<T>(&buf), Ok(v));
    }
    check(true);
    check(false);
    check(0u8);
    check(255u8);
    check(-128i8);
    check(u16::MAX);
    check(65536u32);
    check(u64::MAX);
    check(u128::MAX);
    check(i16::MIN);
    check(i32::MIN);
    check(-1i64);
    check(i128::MIN);
    check('é');
    check('\u{10FFFF}');
    check(());
}

#[test]
fn take_from_bytes_leaves_rest() {
    let mut buf = to_vec(&'🦀').unwrap();
    buf.extend_from_slice(&[1, 2]);
    let (c, rest) = take_from_bytes::<char>(&buf).unwrap();
    assert_eq!(c, '🦀');
    assert_eq!(rest, &[1, 2]);
    let (u, rest) = take_from_bytes::<()>(&buf).unwrap();
    assert_eq!(u, ());
    assert_eq!(rest, buf.as_slice());
    assert_eq!(take_from_bytes::<u16>(&[252]), Err(Error::InvalidVarint));
}

#[test]
fn to_slice_writes_front() {
    let mut buf = [0xEEu8; 8];
    let out = to_slice(&300u16, &mut buf).unwrap();
    assert_eq!(out, &[251, 44, 1]);
    assert_eq!(buf, [251, 44, 1, 0xEE, 0xEE, 0xEE, 0xEE, 0xEE]);
    let mut tiny = [0u8; 2];
    assert_eq!(to_slice(&300u16, &mut tiny), Err(Error::ExceedsBuffer));
}
