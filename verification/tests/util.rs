use recode::bytes::{Bytes, BytesMut};
use recode::codec::length::LengthTraits;
use recode::codec::number::TryFromIntError;
use recode::util::buf::require;
use recode::util::{BufExt, ContextBuffer, EncoderExt, Remaining};
use recode::{Decoder, Encoder, Error, RawDecoder};

#[test]
fn require_n_reports_shortfall() {
    let bytes = BytesMut::from(&b"abc"[..]);
    assert!(bytes.require_n(0).is_ok());
    assert!(bytes.require_n(3).is_ok());
    match bytes.require_n(10) {
        Err(Error::BytesNeeded { needed, full_len, available }) => {
            assert_eq!((7, 10, 3), (needed, full_len, available));
        }
        other => panic!("unexpected {:?}", other),
    }
    let frozen = Bytes::from_static(b"abcd");
    assert!(frozen.require_n(4).is_ok());
    assert!(matches!(
        frozen.require_n(5),
        Err(Error::BytesNeeded { needed: 1, full_len: 5, available: 4 })
    ));
    assert!(require(2, 2).is_ok());
    assert!(matches!(
        require(2, 9),
        Err(Error::BytesNeeded { needed: 7, full_len: 9, available: 2 })
    ));
}

#[test]
fn context_buffer_keeps_both_parts() {
    let wrapped = ContextBuffer::new(BytesMut::from(&b"data"[..]), 42u8);
    assert_eq!(&b"data"[..], &wrapped.inner()[..]);
    assert_eq!(42, *wrapped.context());
    let (inner, context) = wrapped.into_parts();
    assert_eq!(&b"data"[..], &inner[..]);
    assert_eq!(42, context);
}

#[test]
fn remaining_is_the_length_of_what_is_left() {
    let mut bytes = BytesMut::from(&b"seven b"[..]);
    assert!(<Remaining as Decoder<usize>>::has_enough_bytes(&bytes));
    assert_eq!(7, <Remaining as Decoder<usize>>::decode(&mut bytes).unwrap());
    assert_eq!(7, bytes.len());
    assert_eq!((7, 0), <Remaining as RawDecoder<usize>>::raw_decode(&bytes).unwrap());
    assert_eq!(0, <Remaining as Encoder<usize>>::size_of(&7));
    <Remaining as Encoder<usize>>::encode(&7, &mut bytes).unwrap();
    assert_eq!(&b"seven b"[..], &bytes[..]);
    let _copy = Remaining::default();
}

#[test]
fn encoder_ext_is_encode_and_size_of() {
    let value: u16 = 0xbeef;
    let mut by_method = BytesMut::new();
    let mut by_function = BytesMut::new();
    value.encode_to(&mut by_method).unwrap();
    <u16 as Encoder>::encode(&value, &mut by_function).unwrap();
    assert_eq!(by_method, by_function);
    assert_eq!(<u16 as Encoder>::size_of(&value), value.size());
}

#[test]
fn errors_convert_and_describe() {
    let e: Error = TryFromIntError(()).into();
    assert!(matches!(e, Error::IntConversion(_)));
    assert_eq!("integer overflow", TryFromIntError(()).message());
    let narrow = u8::try_from(300u32).unwrap_err();
    assert_eq!(TryFromIntError(()), TryFromIntError::from(narrow));
    let e: Error = recode::codec::text::TextError::Ascii("invalid ascii data").into();
    assert!(matches!(e, Error::Text(_)));
}

#[test]
fn length_traits_decode_a_length() {
    assert_eq!(2, <u16 as LengthTraits>::byte_count());
    assert_eq!(4, <u32 as LengthTraits>::byte_count());
    assert_eq!(8, <u64 as LengthTraits>::byte_count());
    assert_eq!(16, <u128 as LengthTraits>::byte_count());
    let mut bytes = BytesMut::from(&[0x12, 0x34, 0x56][..]);
    assert_eq!(0x1234, <u16 as LengthTraits>::decode_usize(&mut bytes).unwrap());
    assert_eq!(&[0x56u8][..], &bytes[..]);
    assert!(matches!(
        <u32 as LengthTraits>::decode_usize(&mut bytes),
        Err(Error::BytesNeeded { needed: 3, full_len: 4, available: 1 })
    ));
    let mut wide = BytesMut::from(&[0xffu8; 16][..]);
    assert!(matches!(
        <u128 as LengthTraits>::decode_usize(&mut wide),
        Err(Error::IntConversion(_))
    ));
    assert!(wide.is_empty());
}
