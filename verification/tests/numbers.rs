use fake::Fake;
use recode::bytes::{Buf, BytesMut};
use recode::codec::endian::{max_raw, read_be, write_be};
use recode::codec::number::{from_len, to_len};
use recode::util::EncoderExt;
use recode::{Decoder, Encoder, Error, RawDecoder};

#[test]
fn test_i8() {
    const LEN: usize = std::mem::size_of::<i8>();
    const MAX: i8 = <i8>::MAX;

    let value: i8 = (0..MAX).fake();

    assert_eq!(MAX.trailing_ones() as usize, LEN * 8 - 1);
    assert_eq!(value & !MAX, 0);

    let mut bytes = BytesMut::new();

    assert_eq!(LEN, value.size());

    value.encode_to(&mut bytes).unwrap();

    assert_eq!(LEN, bytes.len());
    assert_eq!(&value.to_be_bytes()[..], &bytes[..]);

    let (peek, rx): (i8, usize) = <i8>::raw_decode(bytes.chunk()).unwrap();

    assert_eq!(rx, LEN);
    assert_eq!(peek, value);

    let decoded: i8 = <i8>::decode(&mut bytes).unwrap();

    assert_eq!(decoded, value);
    assert!(!bytes.has_remaining());
}

#[test]
fn test_u8() {
    const LEN: usize = std::mem::size_of::<u8>();
    const MAX: u8 = <u8>::MAX;

    let value: u8 = (0..MAX).fake();

    assert_eq!(MAX.trailing_ones() as usize, LEN * 8);
    assert_eq!(value & !MAX, 0);

    let mut bytes = BytesMut::new();

    assert_eq!(LEN, value.size());

    value.encode_to(&mut bytes).unwrap();

    assert_eq!(LEN, bytes.len());
    assert_eq!(&value.to_be_bytes()[..], &bytes[..]);

    let (peek, rx): (u8, usize) = <u8>::raw_decode(bytes.chunk()).unwrap();

    assert_eq!(rx, LEN);
    assert_eq!(peek, value);

    let decoded: u8 = <u8>::decode(&mut bytes).unwrap();

    assert_eq!(decoded, value);
    assert!(!bytes.has_remaining());
}

#[test]
fn test_i16() {
    const LEN: usize = std::mem::size_of::<i16>();
    const MAX: i16 = <i16>::MAX;

    let value: i16 = (0..MAX).fake();

    assert_eq!(MAX.trailing_ones() as usize, LEN * 8 - 1);
    assert_eq!(value & !MAX, 0);

    let mut bytes = BytesMut::new();

    assert_eq!(LEN, value.size());

    value.encode_to(&mut bytes).unwrap();

    assert_eq!(LEN, bytes.len());
    assert_eq!(&value.to_be_bytes()[..], &bytes[..]);

    let (peek, rx): (i16, usize) = <i16>::raw_decode(bytes.chunk()).unwrap();

    assert_eq!(rx, LEN);
    assert_eq!(peek, value);

    let decoded: i16 = <i16>::decode(&mut bytes).unwrap();

    assert_eq!(decoded, value);
    assert!(!bytes.has_remaining());
}

#[test]
fn test_u16() {
    const LEN: usize = std::mem::size_of::<u16>();
    const MAX: u16 = <u16>::MAX;

    let value: u16 = (0..MAX).fake();

    assert_eq!(MAX.trailing_ones() as usize, LEN * 8);
    assert_eq!(value & !MAX, 0);

    let mut bytes = BytesMut::new();

    assert_eq!(LEN, value.size());

    value.encode_to(&mut bytes).unwrap();

    assert_eq!(LEN, bytes.len());
    assert_eq!(&value.to_be_bytes()[..], &bytes[..]);

    let (peek, rx): (u16, usize) = <u16>::raw_decode(bytes.chunk()).unwrap();

    assert_eq!(rx, LEN);
    assert_eq!(peek, value);

    let decoded: u16 = <u16>::decode(&mut bytes).unwrap();

    assert_eq!(decoded, value);
    assert!(!bytes.has_remaining());
}

#[test]
fn test_i32() {
    const LEN: usize = std::mem::size_of::<i32>();
    const MAX: i32 = <i32>::MAX;

    let value: i32 = (0..MAX).fake();

    assert_eq!(MAX.trailing_ones() as usize, LEN * 8 - 1);
    assert_eq!(value & !MAX, 0);

    let mut bytes = BytesMut::new();

    assert_eq!(LEN, value.size());

    value.encode_to(&mut bytes).unwrap();

    assert_eq!(LEN, bytes.len());
    assert_eq!(&value.to_be_bytes()[..], &bytes[..]);

    let (peek, rx): (i32, usize) = <i32>::raw_decode(bytes.chunk()).unwrap();

    assert_eq!(rx, LEN);
    assert_eq!(peek, value);

    let decoded: i32 = <i32>::decode(&mut bytes).unwrap();

    assert_eq!(decoded, value);
    assert!(!bytes.has_remaining());
}

#[test]
fn test_u32() {
    const LEN: usize = std::mem::size_of::<u32>();
    const MAX: u32 = <u32>::MAX;

    let value: u32 = (0..MAX).fake();

    assert_eq!(MAX.trailing_ones() as usize, LEN * 8);
    assert_eq!(value & !MAX, 0);

    let mut bytes = BytesMut::new();

    assert_eq!(LEN, value.size());

    value.encode_to(&mut bytes).unwrap();

    assert_eq!(LEN, bytes.len());
    assert_eq!(&value.to_be_bytes()[..], &bytes[..]);

    let (peek, rx): (u32, usize) = <u32>::raw_decode(bytes.chunk()).unwrap();

    assert_eq!(rx, LEN);
    assert_eq!(peek, value);

    let decoded: u32 = <u32>::decode(&mut bytes).unwrap();

    assert_eq!(decoded, value);
    assert!(!bytes.has_remaining());
}

#[test]
fn test_i64() {
    const LEN: usize = std::mem::size_of::<i64>();
    const MAX: i64 = <i64>::MAX;

    let value: i64 = (0..MAX).fake();

    assert_eq!(MAX.trailing_ones() as usize, LEN * 8 - 1);
    assert_eq!(value & !MAX, 0);

    let mut bytes = BytesMut::new();

    assert_eq!(LEN, value.size());

    value.encode_to(&mut bytes).unwrap();

    assert_eq!(LEN, bytes.len());
    assert_eq!(&value.to_be_bytes()[..], &bytes[..]);

    let (peek, rx): (i64, usize) = <i64>::raw_decode(bytes.chunk()).unwrap();

    assert_eq!(rx, LEN);
    assert_eq!(peek, value);

    let decoded: i64 = <i64>::decode(&mut bytes).unwrap();

    assert_eq!(decoded, value);
    assert!(!bytes.has_remaining());
}

#[test]
fn test_u64() {
    const LEN: usize = std::mem::size_of::<u64>();
    const MAX: u64 = <u64>::MAX;

    let value: u64 = (0..MAX).fake();

    assert_eq!(MAX.trailing_ones() as usize, LEN * 8);
    assert_eq!(value & !MAX, 0);

    let mut bytes = BytesMut::new();

    assert_eq!(LEN, value.size());

    value.encode_to(&mut bytes).unwrap();

    assert_eq!(LEN, bytes.len());
    assert_eq!(&value.to_be_bytes()[..], &bytes[..]);

    let (peek, rx): (u64, usize) = <u64>::raw_decode(bytes.chunk()).unwrap();

    assert_eq!(rx, LEN);
    assert_eq!(peek, value);

    let decoded: u64 = <u64>::decode(&mut bytes).unwrap();

    assert_eq!(decoded, value);
    assert!(!bytes.has_remaining());
}

#[test]
fn test_i128() {
    const LEN: usize = std::mem::size_of::<i128>();
    const MAX: i128 = <i128>::MAX;

    let value: i128 = (0..MAX).fake();

    assert_eq!(MAX.trailing_ones() as usize, LEN * 8 - 1);
    assert_eq!(value & !MAX, 0);

    let mut bytes = BytesMut::new();

    assert_eq!(LEN, value.size());

    value.encode_to(&mut bytes).unwrap();

    assert_eq!(LEN, bytes.len());
    assert_eq!(&value.to_be_bytes()[..], &bytes[..]);

    let (peek, rx): (i128, usize) = <i128>::raw_decode(bytes.chunk()).unwrap();

    assert_eq!(rx, LEN);
    assert_eq!(peek, value);

    let decoded: i128 = <i128>::decode(&mut bytes).unwrap();

    assert_eq!(decoded, value);
    assert!(!bytes.has_remaining());
}

#[test]
fn test_u128() {
    const LEN: usize = std::mem::size_of::<u128>();
    const MAX: u128 = <u128>::MAX;

    let value: u128 = (0..MAX).fake();

    assert_eq!(MAX.trailing_ones() as usize, LEN * 8);
    assert_eq!(value & !MAX, 0);

    let mut bytes = BytesMut::new();

    assert_eq!(LEN, value.size());

    value.encode_to(&mut bytes).unwrap();

    assert_eq!(LEN, bytes.len());
    assert_eq!(&value.to_be_bytes()[..], &bytes[..]);

    let (peek, rx): (u128, usize) = <u128>::raw_decode(bytes.chunk()).unwrap();

    assert_eq!(rx, LEN);
    assert_eq!(peek, value);

    let decoded: u128 = <u128>::decode(&mut bytes).unwrap();

    assert_eq!(decoded, value);
    assert!(!bytes.has_remaining());
}

#[test]
fn round_trip_extremes_i8() {
    for value in [<i8>::MIN, -1, 0, 1, <i8>::MAX] {
        let mut bytes = BytesMut::from(&b"head"[..]);
        value.encode_to(&mut bytes).unwrap();
        bytes.extend_from_slice(b"tail");
        assert_eq!(&b"head"[..], &bytes[..4]);
        assert_eq!(&value.to_be_bytes()[..], &bytes[4..4 + 1]);
        bytes.advance(4);
        let decoded: i8 = <i8>::decode(&mut bytes).unwrap();
        assert_eq!(value, decoded);
        assert_eq!(&b"tail"[..], &bytes[..]);
    }
}

#[test]
fn round_trip_extremes_u8() {
    for value in [0, 1, <u8>::MAX / 2 + 1, <u8>::MAX] {
        let mut bytes = BytesMut::from(&b"head"[..]);
        value.encode_to(&mut bytes).unwrap();
        bytes.extend_from_slice(b"tail");
        assert_eq!(&b"head"[..], &bytes[..4]);
        assert_eq!(&value.to_be_bytes()[..], &bytes[4..4 + 1]);
        bytes.advance(4);
        let decoded: u8 = <u8>::decode(&mut bytes).unwrap();
        assert_eq!(value, decoded);
        assert_eq!(&b"tail"[..], &bytes[..]);
    }
}

#[test]
fn round_trip_extremes_i16() {
    for value in [<i16>::MIN, -1, 0, 1, <i16>::MAX] {
        let mut bytes = BytesMut::from(&b"head"[..]);
        value.encode_to(&mut bytes).unwrap();
        bytes.extend_from_slice(b"tail");
        assert_eq!(&b"head"[..], &bytes[..4]);
        assert_eq!(&value.to_be_bytes()[..], &bytes[4..4 + 2]);
        bytes.advance(4);
        let decoded: i16 = <i16>::decode(&mut bytes).unwrap();
        assert_eq!(value, decoded);
        assert_eq!(&b"tail"[..], &bytes[..]);
    }
}

#[test]
fn round_trip_extremes_u16() {
    for value in [0, 1, <u16>::MAX / 2 + 1, <u16>::MAX] {
        let mut bytes = BytesMut::from(&b"head"[..]);
        value.encode_to(&mut bytes).unwrap();
        bytes.extend_from_slice(b"tail");
        assert_eq!(&b"head"[..], &bytes[..4]);
        assert_eq!(&value.to_be_bytes()[..], &bytes[4..4 + 2]);
        bytes.advance(4);
        let decoded: u16 = <u16>::decode(&mut bytes).unwrap();
        assert_eq!(value, decoded);
        assert_eq!(&b"tail"[..], &bytes[..]);
    }
}

#[test]
fn round_trip_extremes_i32() {
    for value in [<i32>::MIN, -1, 0, 1, <i32>::MAX] {
        let mut bytes = BytesMut::from(&b"head"[..]);
        value.encode_to(&mut bytes).unwrap();
        bytes.extend_from_slice(b"tail");
        assert_eq!(&b"head"[..], &bytes[..4]);
        assert_eq!(&value.to_be_bytes()[..], &bytes[4..4 + 4]);
        bytes.advance(4);
        let decoded: i32 = <i32>::decode(&mut bytes).unwrap();
        assert_eq!(value, decoded);
        assert_eq!(&b"tail"[..], &bytes[..]);
    }
}

#[test]
fn round_trip_extremes_u32() {
    for value in [0, 1, <u32>::MAX / 2 + 1, <u32>::MAX] {
        let mut bytes = BytesMut::from(&b"head"[..]);
        value.encode_to(&mut bytes).unwrap();
        bytes.extend_from_slice(b"tail");
        assert_eq!(&b"head"[..], &bytes[..4]);
        assert_eq!(&value.to_be_bytes()[..], &bytes[4..4 + 4]);
        bytes.advance(4);
        let decoded: u32 = <u32>::decode(&mut bytes).unwrap();
        assert_eq!(value, decoded);
        assert_eq!(&b"tail"[..], &bytes[..]);
    }
}

#[test]
fn round_trip_extremes_i64() {
    for value in [<i64>::MIN, -1, 0, 1, <i64>::MAX] {
        let mut bytes = BytesMut::from(&b"head"[..]);
        value.encode_to(&mut bytes).unwrap();
        bytes.extend_from_slice(b"tail");
        assert_eq!(&b"head"[..], &bytes[..4]);
        assert_eq!(&value.to_be_bytes()[..], &bytes[4..4 + 8]);
        bytes.advance(4);
        let decoded: i64 = <i64>::decode(&mut bytes).unwrap();
        assert_eq!(value, decoded);
        assert_eq!(&b"tail"[..], &bytes[..]);
    }
}

#[test]
fn round_trip_extremes_u64() {
    for value in [0, 1, <u64>::MAX / 2 + 1, <u64>::MAX] {
        let mut bytes = BytesMut::from(&b"head"[..]);
        value.encode_to(&mut bytes).unwrap();
        bytes.extend_from_slice(b"tail");
        assert_eq!(&b"head"[..], &bytes[..4]);
        assert_eq!(&value.to_be_bytes()[..], &bytes[4..4 + 8]);
        bytes.advance(4);
        let decoded: u64 = <u64>::decode(&mut bytes).unwrap();
        assert_eq!(value, decoded);
        assert_eq!(&b"tail"[..], &bytes[..]);
    }
}

#[test]
fn round_trip_extremes_i128() {
    for value in [<i128>::MIN, -1, 0, 1, <i128>::MAX] {
        let mut bytes = BytesMut::from(&b"head"[..]);
        value.encode_to(&mut bytes).unwrap();
        bytes.extend_from_slice(b"tail");
        assert_eq!(&b"head"[..], &bytes[..4]);
        assert_eq!(&value.to_be_bytes()[..], &bytes[4..4 + 16]);
        bytes.advance(4);
        let decoded: i128 = <i128>::decode(&mut bytes).unwrap();
        assert_eq!(value, decoded);
        assert_eq!(&b"tail"[..], &bytes[..]);
    }
}

#[test]
fn round_trip_extremes_u128() {
    for value in [0, 1, <u128>::MAX / 2 + 1, <u128>::MAX] {
        let mut bytes = BytesMut::from(&b"head"[..]);
        value.encode_to(&mut bytes).unwrap();
        bytes.extend_from_slice(b"tail");
        assert_eq!(&b"head"[..], &bytes[..4]);
        assert_eq!(&value.to_be_bytes()[..], &bytes[4..4 + 16]);
        bytes.advance(4);
        let decoded: u128 = <u128>::decode(&mut bytes).unwrap();
        assert_eq!(value, decoded);
        assert_eq!(&b"tail"[..], &bytes[..]);
    }
}

#[test]
fn bytes_needed_i8() {
    for k in 0..1usize {
        let held = vec![0xa5u8; k];
        let mut bytes = BytesMut::from(&held[..]);
        assert!(!<i8 as Decoder>::has_enough_bytes(&bytes));
        match <i8 as Decoder>::decode(&mut bytes) {
            Err(Error::BytesNeeded { needed, full_len, available }) => {
                assert_eq!((1 - k, 1, k), (needed, full_len, available));
            }
            other => panic!("unexpected {:?}", other),
        }
        assert_eq!(&held[..], &bytes[..]);
        match <i8 as RawDecoder>::raw_decode(&held) {
            Err(Error::BytesNeeded { needed, full_len, available }) => {
                assert_eq!((1 - k, 1, k), (needed, full_len, available));
            }
            other => panic!("unexpected {:?}", other),
        }
        match <i8 as Decoder<usize>>::decode(&mut bytes) {
            Err(Error::BytesNeeded { needed, full_len, available }) => {
                assert_eq!((1 - k, 1, k), (needed, full_len, available));
            }
            other => panic!("unexpected {:?}", other),
        }
        assert_eq!(&held[..], &bytes[..]);
    }
    let whole = vec![0u8; 1];
    assert!(<i8 as Decoder>::has_enough_bytes(&BytesMut::from(&whole[..])));
}

#[test]
fn bytes_needed_u8() {
    for k in 0..1usize {
        let held = vec![0xa5u8; k];
        let mut bytes = BytesMut::from(&held[..]);
        assert!(!<u8 as Decoder>::has_enough_bytes(&bytes));
        match <u8 as Decoder>::decode(&mut bytes) {
            Err(Error::BytesNeeded { needed, full_len, available }) => {
                assert_eq!((1 - k, 1, k), (needed, full_len, available));
            }
            other => panic!("unexpected {:?}", other),
        }
        assert_eq!(&held[..], &bytes[..]);
        match <u8 as RawDecoder>::raw_decode(&held) {
            Err(Error::BytesNeeded { needed, full_len, available }) => {
                assert_eq!((1 - k, 1, k), (needed, full_len, available));
            }
            other => panic!("unexpected {:?}", other),
        }
        match <u8 as Decoder<usize>>::decode(&mut bytes) {
            Err(Error::BytesNeeded { needed, full_len, available }) => {
                assert_eq!((1 - k, 1, k), (needed, full_len, available));
            }
            other => panic!("unexpected {:?}", other),
        }
        assert_eq!(&held[..], &bytes[..]);
    }
    let whole = vec![0u8; 1];
    assert!(<u8 as Decoder>::has_enough_bytes(&BytesMut::from(&whole[..])));
}

#[test]
fn bytes_needed_i16() {
    for k in 0..2usize {
        let held = vec![0xa5u8; k];
        let mut bytes = BytesMut::from(&held[..]);
        assert!(!<i16 as Decoder>::has_enough_bytes(&bytes));
        match <i16 as Decoder>::decode(&mut bytes) {
            Err(Error::BytesNeeded { needed, full_len, available }) => {
                assert_eq!((2 - k, 2, k), (needed, full_len, available));
            }
            other => panic!("unexpected {:?}", other),
        }
        assert_eq!(&held[..], &bytes[..]);
        match <i16 as RawDecoder>::raw_decode(&held) {
            Err(Error::BytesNeeded { needed, full_len, available }) => {
                assert_eq!((2 - k, 2, k), (needed, full_len, available));
            }
            other => panic!("unexpected {:?}", other),
        }
        match <i16 as Decoder<usize>>::decode(&mut bytes) {
            Err(Error::BytesNeeded { needed, full_len, available }) => {
                assert_eq!((2 - k, 2, k), (needed, full_len, available));
            }
            other => panic!("unexpected {:?}", other),
        }
        assert_eq!(&held[..], &bytes[..]);
    }
    let whole = vec![0u8; 2];
    assert!(<i16 as Decoder>::has_enough_bytes(&BytesMut::from(&whole[..])));
}

#[test]
fn bytes_needed_u16() {
    for k in 0..2usize {
        let held = vec![0xa5u8; k];
        let mut bytes = BytesMut::from(&held[..]);
        assert!(!<u16 as Decoder>::has_enough_bytes(&bytes));
        match <u16 as Decoder>::decode(&mut bytes) {
            Err(Error::BytesNeeded { needed, full_len, available }) => {
                assert_eq!((2 - k, 2, k), (needed, full_len, available));
            }
            other => panic!("unexpected {:?}", other),
        }
        assert_eq!(&held[..], &bytes[..]);
        match <u16 as RawDecoder>::raw_decode(&held) {
            Err(Error::BytesNeeded { needed, full_len, available }) => {
                assert_eq!((2 - k, 2, k), (needed, full_len, available));
            }
            other => panic!("unexpected {:?}", other),
        }
        match <u16 as Decoder<usize>>::decode(&mut bytes) {
            Err(Error::BytesNeeded { needed, full_len, available }) => {
                assert_eq!((2 - k, 2, k), (needed, full_len, available));
            }
            other => panic!("unexpected {:?}", other),
        }
        assert_eq!(&held[..], &bytes[..]);
    }
    let whole = vec![0u8; 2];
    assert!(<u16 as Decoder>::has_enough_bytes(&BytesMut::from(&whole[..])));
}

#[test]
fn bytes_needed_i32() {
    for k in 0..4usize {
        let held = vec![0xa5u8; k];
        let mut bytes = BytesMut::from(&held[..]);
        assert!(!<i32 as Decoder>::has_enough_bytes(&bytes));
        match <i32 as Decoder>::decode(&mut bytes) {
            Err(Error::BytesNeeded { needed, full_len, available }) => {
                assert_eq!((4 - k, 4, k), (needed, full_len, available));
            }
            other => panic!("unexpected {:?}", other),
        }
        assert_eq!(&held[..], &bytes[..]);
        match <i32 as RawDecoder>::raw_decode(&held) {
            Err(Error::BytesNeeded { needed, full_len, available }) => {
                assert_eq!((4 - k, 4, k), (needed, full_len, available));
            }
            other => panic!("unexpected {:?}", other),
        }
        match <i32 as Decoder<usize>>::decode(&mut bytes) {
            Err(Error::BytesNeeded { needed, full_len, available }) => {
                assert_eq!((4 - k, 4, k), (needed, full_len, available));
            }
            other => panic!("unexpected {:?}", other),
        }
        assert_eq!(&held[..], &bytes[..]);
    }
    let whole = vec![0u8; 4];
    assert!(<i32 as Decoder>::has_enough_bytes(&BytesMut::from(&whole[..])));
}

#[test]
fn bytes_needed_u32() {
    for k in 0..4usize {
        let held = vec![0xa5u8; k];
        let mut bytes = BytesMut::from(&held[..]);
        assert!(!<u32 as Decoder>::has_enough_bytes(&bytes));
        match <u32 as Decoder>::decode(&mut bytes) {
            Err(Error::BytesNeeded { needed, full_len, available }) => {
                assert_eq!((4 - k, 4, k), (needed, full_len, available));
            }
            other => panic!("unexpected {:?}", other),
        }
        assert_eq!(&held[..], &bytes[..]);
        match <u32 as RawDecoder>::raw_decode(&held) {
            Err(Error::BytesNeeded { needed, full_len, available }) => {
                assert_eq!((4 - k, 4, k), (needed, full_len, available));
            }
            other => panic!("unexpected {:?}", other),
        }
        match <u32 as Decoder<usize>>::decode(&mut bytes) {
            Err(Error::BytesNeeded { needed, full_len, available }) => {
                assert_eq!((4 - k, 4, k), (needed, full_len, available));
            }
            other => panic!("unexpected {:?}", other),
        }
        assert_eq!(&held[..], &bytes[..]);
    }
    let whole = vec![0u8; 4];
    assert!(<u32 as Decoder>::has_enough_bytes(&BytesMut::from(&whole[..])));
}

#[test]
fn bytes_needed_i64() {
    for k in 0..8usize {
        let held = vec![0xa5u8; k];
        let mut bytes = BytesMut::from(&held[..]);
        assert!(!<i64 as Decoder>::has_enough_bytes(&bytes));
        match <i64 as Decoder>::decode(&mut bytes) {
            Err(Error::BytesNeeded { needed, full_len, available }) => {
                assert_eq!((8 - k, 8, k), (needed, full_len, available));
            }
            other => panic!("unexpected {:?}", other),
        }
        assert_eq!(&held[..], &bytes[..]);
        match <i64 as RawDecoder>::raw_decode(&held) {
            Err(Error::BytesNeeded { needed, full_len, available }) => {
                assert_eq!((8 - k, 8, k), (needed, full_len, available));
            }
            other => panic!("unexpected {:?}", other),
        }
        match <i64 as Decoder<usize>>::decode(&mut bytes) {
            Err(Error::BytesNeeded { needed, full_len, available }) => {
                assert_eq!((8 - k, 8, k), (needed, full_len, available));
            }
            other => panic!("unexpected {:?}", other),
        }
        assert_eq!(&held[..], &bytes[..]);
    }
    let whole = vec![0u8; 8];
    assert!(<i64 as Decoder>::has_enough_bytes(&BytesMut::from(&whole[..])));
}

#[test]
fn bytes_needed_u64() {
    for k in 0..8usize {
        let held = vec![0xa5u8; k];
        let mut bytes = BytesMut::from(&held[..]);
        assert!(!<u64 as Decoder>::has_enough_bytes(&bytes));
        match <u64 as Decoder>::decode(&mut bytes) {
            Err(Error::BytesNeeded { needed, full_len, available }) => {
                assert_eq!((8 - k, 8, k), (needed, full_len, available));
            }
            other => panic!("unexpected {:?}", other),
        }
        assert_eq!(&held[..], &bytes[..]);
        match <u64 as RawDecoder>::raw_decode(&held) {
            Err(Error::BytesNeeded { needed, full_len, available }) => {
                assert_eq!((8 - k, 8, k), (needed, full_len, available));
            }
            other => panic!("unexpected {:?}", other),
        }
        match <u64 as Decoder<usize>>::decode(&mut bytes) {
            Err(Error::BytesNeeded { needed, full_len, available }) => {
                assert_eq!((8 - k, 8, k), (needed, full_len, available));
            }
            other => panic!("unexpected {:?}", other),
        }
        assert_eq!(&held[..], &bytes[..]);
    }
    let whole = vec![0u8; 8];
    assert!(<u64 as Decoder>::has_enough_bytes(&BytesMut::from(&whole[..])));
}

#[test]
fn bytes_needed_i128() {
    for k in 0..16usize {
        let held = vec![0xa5u8; k];
        let mut bytes = BytesMut::from(&held[..]);
        assert!(!<i128 as Decoder>::has_enough_bytes(&bytes));
        match <i128 as Decoder>::decode(&mut bytes) {
            Err(Error::BytesNeeded { needed, full_len, available }) => {
                assert_eq!((16 - k, 16, k), (needed, full_len, available));
            }
            other => panic!("unexpected {:?}", other),
        }
        assert_eq!(&held[..], &bytes[..]);
        match <i128 as RawDecoder>::raw_decode(&held) {
            Err(Error::BytesNeeded { needed, full_len, available }) => {
                assert_eq!((16 - k, 16, k), (needed, full_len, available));
            }
            other => panic!("unexpected {:?}", other),
        }
        match <i128 as Decoder<usize>>::decode(&mut bytes) {
            Err(Error::BytesNeeded { needed, full_len, available }) => {
                assert_eq!((16 - k, 16, k), (needed, full_len, available));
            }
            other => panic!("unexpected {:?}", other),
        }
        assert_eq!(&held[..], &bytes[..]);
    }
    let whole = vec![0u8; 16];
    assert!(<i128 as Decoder>::has_enough_bytes(&BytesMut::from(&whole[..])));
}

#[test]
fn bytes_needed_u128() {
    for k in 0..16usize {
        let held = vec![0xa5u8; k];
        let mut bytes = BytesMut::from(&held[..]);
        assert!(!<u128 as Decoder>::has_enough_bytes(&bytes));
        match <u128 as Decoder>::decode(&mut bytes) {
            Err(Error::BytesNeeded { needed, full_len, available }) => {
                assert_eq!((16 - k, 16, k), (needed, full_len, available));
            }
            other => panic!("unexpected {:?}", other),
        }
        assert_eq!(&held[..], &bytes[..]);
        match <u128 as RawDecoder>::raw_decode(&held) {
            Err(Error::BytesNeeded { needed, full_len, available }) => {
                assert_eq!((16 - k, 16, k), (needed, full_len, available));
            }
            other => panic!("unexpected {:?}", other),
        }
        match <u128 as Decoder<usize>>::decode(&mut bytes) {
            Err(Error::BytesNeeded { needed, full_len, available }) => {
                assert_eq!((16 - k, 16, k), (needed, full_len, available));
            }
            other => panic!("unexpected {:?}", other),
        }
        assert_eq!(&held[..], &bytes[..]);
    }
    let whole = vec![0u8; 16];
    assert!(<u128 as Decoder>::has_enough_bytes(&BytesMut::from(&whole[..])));
}

#[test]
fn u32_encodes_big_endian() {
    let value: u32 = 0x0123_4567;
    let mut bytes = BytesMut::new();
    assert_eq!(4, value.size());
    value.encode_to(&mut bytes).unwrap();
    assert_eq!(&[0x01, 0x23, 0x45, 0x67][..], &bytes[..]);
}

#[test]
fn i32_decodes_negative() {
    let mut bytes = BytesMut::from(&[0xff, 0xff, 0xff, 0xfe, 7][..]);
    let value = <i32 as Decoder>::decode(&mut bytes).unwrap();
    assert_eq!(-2, value);
    assert_eq!(&[7u8][..], &bytes[..]);
    let short = <i32 as Decoder>::decode(&mut bytes);
    assert!(matches!(
        short,
        Err(Error::BytesNeeded { needed: 3, full_len: 4, available: 1 })
    ));
    assert_eq!(&[7u8][..], &bytes[..]);
    let (peek, rx) = <u8 as RawDecoder>::raw_decode(&bytes[..]).unwrap();
    assert_eq!((7, 1), (peek, rx));
    assert_eq!(1, <u8 as Encoder>::size_of(&peek));
}

#[test]
fn i128_two_complement_bytes() {
    let mut bytes = BytesMut::new();
    (-2i128).encode_to(&mut bytes).unwrap();
    let mut expected = [0xffu8; 16];
    expected[15] = 0xfe;
    assert_eq!(&expected[..], &bytes[..]);
    let mut least = BytesMut::new();
    i128::MIN.encode_to(&mut least).unwrap();
    let mut expected = [0u8; 16];
    expected[0] = 0x80;
    assert_eq!(&expected[..], &least[..]);
    assert_eq!(i128::MIN, <i128 as Decoder>::decode(&mut least).unwrap());
}

#[test]
fn length_decodes_from_u16() {
    let mut bytes = BytesMut::from(&[0x01, 0x02, 0x03][..]);
    let len = <u16 as Decoder<usize>>::decode(&mut bytes).unwrap();
    assert_eq!(0x0102, len);
    assert_eq!(&[3u8][..], &bytes[..]);
    let (len, rx) = <u16 as RawDecoder<usize>>::raw_decode(&[0xff, 0xfe, 0]).unwrap();
    assert_eq!((0xfffe, 2), (len, rx));
}

#[test]
fn negative_length_is_conversion_error() {
    let mut bytes = BytesMut::from(&[0xff, 0xff, 9][..]);
    let r = <i16 as Decoder<usize>>::decode(&mut bytes);
    assert!(matches!(r, Err(Error::IntConversion(_))));
    assert_eq!(&[9u8][..], &bytes[..]);
    let r = <i16 as RawDecoder<usize>>::raw_decode(&[0x80, 0x00]);
    assert!(matches!(r, Err(Error::IntConversion(_))));
    let r = <i8 as RawDecoder<usize>>::raw_decode(&[0x7f]);
    assert!(matches!(r, Ok((127, 1))));
}

#[test]
fn length_beyond_usize_is_conversion_error() {
    let mut wide = [0u8; 16];
    wide[0] = 1;
    let r = <u128 as RawDecoder<usize>>::raw_decode(&wide);
    assert!(matches!(r, Err(Error::IntConversion(_))));
    let mut bytes = BytesMut::from(&wide[..]);
    let r = <u128 as Decoder<usize>>::decode(&mut bytes);
    assert!(matches!(r, Err(Error::IntConversion(_))));
    assert!(bytes.is_empty());
    let mut fits = [0u8; 16];
    fits[15] = 5;
    assert!(matches!(<u128 as RawDecoder<usize>>::raw_decode(&fits), Ok((5, 16))));
}

#[test]
fn length_encodes_with_range_check() {
    let mut bytes = BytesMut::new();
    <u8 as Encoder<usize>>::encode(&255, &mut bytes).unwrap();
    assert_eq!(&[0xffu8][..], &bytes[..]);
    let r = <u8 as Encoder<usize>>::encode(&256, &mut bytes);
    assert!(matches!(r, Err(Error::IntConversion(_))));
    assert_eq!(&[0xffu8][..], &bytes[..]);
    let r = <i8 as Encoder<usize>>::encode(&128, &mut bytes);
    assert!(matches!(r, Err(Error::IntConversion(_))));
    <i8 as Encoder<usize>>::encode(&127, &mut bytes).unwrap();
    assert_eq!(&[0xffu8, 0x7f][..], &bytes[..]);
    <u32 as Encoder<usize>>::encode(&0x0102_0304, &mut bytes).unwrap();
    assert_eq!(&[0xffu8, 0x7f, 1, 2, 3, 4][..], &bytes[..]);
    assert_eq!(4, <u32 as Encoder<usize>>::size_of(&7));
    assert_eq!(1, <u8 as Encoder<usize>>::size_of(&70_000));
    assert_eq!(16, <u128 as Encoder<usize>>::size_of(&0));
}

#[test]
fn to_len_and_from_len() {
    assert!(matches!(to_len(&7u16), Ok(7)));
    assert!(matches!(to_len(&-7i64), Err(Error::IntConversion(_))));
    assert!(matches!(to_len(&u64::MAX), Ok(n) if n == u64::MAX as usize));
    assert!(matches!(from_len::<u16>(65_535), Ok(65_535)));
    assert!(matches!(from_len::<u16>(65_536), Err(Error::IntConversion(_))));
    assert!(matches!(from_len::<i16>(32_768), Err(Error::IntConversion(_))));
    assert!(matches!(from_len::<i16>(32_767), Ok(32_767)));
}

#[test]
fn big_endian_digits() {
    assert_eq!(0, read_be(&[9, 9], 0));
    assert_eq!(0x0102_03, read_be(&[1, 2, 3, 4], 3));
    assert_eq!(u128::MAX, read_be(&[0xff; 16], 16));
    assert_eq!(0, max_raw(0));
    assert_eq!(0xff, max_raw(1));
    assert_eq!(0xff_ffff, max_raw(3));
    assert_eq!(u128::MAX, max_raw(16));

    let mut bytes = BytesMut::new();
    write_be(0x0a0b_0c0d, 3, &mut bytes);
    assert_eq!(&[0x0b, 0x0c, 0x0d][..], &bytes[..]);
    write_be(7, 0, &mut bytes);
    assert_eq!(3, bytes.len());
    write_be(1, 16, &mut bytes);
    assert_eq!(19, bytes.len());
    assert_eq!(&[0u8; 15][..], &bytes[3..18]);
    assert_eq!(1, bytes[18]);
}
