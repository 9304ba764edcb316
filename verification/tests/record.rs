use recode::bytes::{Bytes, BytesMut};
use recode::codec::length_prefixed::LengthPrefixed;
use recode::util::EncoderExt;
use recode::{Decoder, Encoder, Error, Modeled};
use std::ops::Deref;

struct TestType {
    age: u32,
    salary: u64,
    first_name: Bytes,
    last_name: Bytes,
    image: Bytes,
}

impl Modeled for TestType {
    type Model = ();
}

impl Decoder for TestType {
    type Error = Error;

    fn decode(buf: &mut BytesMut) -> Result<Self, Self::Error> {
        let age = <u32 as Decoder<u32>>::decode(buf)?;
        let salary = <u64 as Decoder<u64>>::decode(buf)?;
        let first_name = <LengthPrefixed::<u8> as Decoder<Bytes>>::decode(buf)?;
        let last_name = <LengthPrefixed::<u16> as Decoder<Bytes>>::decode(buf)?;
        let image = <LengthPrefixed::<u32> as Decoder<Bytes>>::decode(buf)?;

        Ok(Self { age, salary, first_name, last_name, image })
    }

    fn has_enough_bytes(_buf: &BytesMut) -> bool {
        true
    }
}

impl Encoder for TestType {
    type Error = Error;

    fn encode(input: &Self, buf: &mut BytesMut) -> Result<(), Self::Error> {
        <u32 as Encoder<u32>>::encode(&input.age, buf)?;
        <u64 as Encoder<u64>>::encode(&input.salary, buf)?;
        <LengthPrefixed::<u8> as Encoder<Bytes>>::encode(&input.first_name, buf)?;
        <LengthPrefixed::<u16> as Encoder<Bytes>>::encode(&input.last_name, buf)?;
        <LengthPrefixed::<u32> as Encoder<Bytes>>::encode(&input.image, buf)?;

        Ok(())
    }

    fn size_of(input: &Self) -> usize {
        0 + <u32 as Encoder<u32>>::size_of(&input.age)
            + <u64 as Encoder<u64>>::size_of(&input.salary)
            + <LengthPrefixed::<u8> as Encoder<Bytes>>::size_of(&input.first_name)
            + <LengthPrefixed::<u16> as Encoder<Bytes>>::size_of(&input.last_name)
            + <LengthPrefixed::<u32> as Encoder<Bytes>>::size_of(&input.image)
    }
}

#[test]
fn decode_basic_test() {
    const BUF: [u8; 78] = [
        // age (4 bytes)
        0x01, 0x23, 0x45, 0x67, // salary (8 bytes)
        0x11, 0x22, 0x33, 0x44, 0x55, 0x66, 0x77, 0x88,
        // first name (1 bytes prefixed ascii; 6 bytes)
        0x05, b'a', b'y', b'm', b'a', b'n',
        // last name (2 bytes prefixed utf8; 6 bytes)
        0x00, 0x0C, 0xD8, 0xA7, 0xD9, 0x84, 0xD9, 0x82, 0xD8, 0xA7, 0xD8, 0xB6, 0xD9, 0x8A,
        // image (4 bytes prefixed buffer; 36 bytes)
        0x00, 0x00, 0x00, 0x20, 0xBA, 0x3E, 0x9D, 0x6B, 0xAE, 0xF5, 0x91, 0xCC, 0xE2, 0xF0, 0xCB,
        0x4F, 0xBB, 0x5B, 0x2B, 0xBE, 0xA7, 0xF4, 0x9D, 0xFB, 0x87, 0x43, 0x0E, 0xDF, 0x30, 0x6F,
        0x7D, 0x6E, 0x22, 0xAB, 0xCC, 0x47,
        // leftover bytes (10 bytes ascii text)
        b't', b'o', b' ', b'b', b'e', b' ', b'l', b'e', b'f', b't',
    ];

    let mut bytes = BytesMut::from_iter(BUF.iter());
    let test = TestType::decode(&mut bytes).unwrap();

    assert_eq!(0x01234567, test.age);
    assert_eq!(0x1122334455667788, test.salary);
    assert_eq!(b"ayman", test.first_name.deref());
    assert_eq!("القاضي", std::str::from_utf8(test.last_name.deref()).unwrap());
    assert_eq!(
        &[
            0xBA, 0x3E, 0x9D, 0x6B, 0xAE, 0xF5, 0x91, 0xCC, 0xE2, 0xF0, 0xCB, 0x4F, 0xBB, 0x5B,
            0x2B, 0xBE, 0xA7, 0xF4, 0x9D, 0xFB, 0x87, 0x43, 0x0E, 0xDF, 0x30, 0x6F, 0x7D, 0x6E,
            0x22, 0xAB, 0xCC, 0x47,
        ],
        test.image.as_ref()
    );
    assert_eq!(bytes.as_ref(), b"to be left");
}

#[test]
fn encode_basic_test() {
    const IMAGE_BUF: [u8; 32] = [
        0xBA, 0x3E, 0x9D, 0x6B, 0xAE, 0xF5, 0x91, 0xCC, 0xE2, 0xF0, 0xCB, 0x4F, 0xBB, 0x5B, 0x2B,
        0xBE, 0xA7, 0xF4, 0x9D, 0xFB, 0x87, 0x43, 0x0E, 0xDF, 0x30, 0x6F, 0x7D, 0x6E, 0x22, 0xAB,
        0xCC, 0x47,
    ];

    let test_item = TestType {
        age: 0x01234567,
        salary: 0x1122334455667788,
        first_name: "ayman".into(),
        last_name: "القاضي".into(),
        image: IMAGE_BUF.as_ref().into(),
    };

    let mut buf = BytesMut::new();

    assert_eq!(test_item.age.size(), 4);
    assert_eq!(test_item.salary.size(), 8);
    assert_eq!(LengthPrefixed::<u8>::size_of(&test_item.first_name), 1 + 5);
    assert_eq!(LengthPrefixed::<u16>::size_of(&test_item.last_name), 2 + 12);
    assert_eq!(LengthPrefixed::<u32>::size_of(&test_item.image), 4 + 32);
    assert_eq!(test_item.size(), 4 + 8 + (1 + 5) + (2 + 12) + (4 + 32));

    TestType::encode(&test_item, &mut buf).unwrap();

    const BUF: [u8; 68] = [
        // age (4 bytes)
        0x01, 0x23, 0x45, 0x67, // salary (8 bytes)
        0x11, 0x22, 0x33, 0x44, 0x55, 0x66, 0x77, 0x88,
        // first name (1 bytes prefixed ascii; 6 bytes)
        0x05, b'a', b'y', b'm', b'a', b'n',
        // last name (2 bytes prefixed utf8; 6 bytes)
        0x00, 0x0C, 0xD8, 0xA7, 0xD9, 0x84, 0xD9, 0x82, 0xD8, 0xA7, 0xD8, 0xB6, 0xD9, 0x8A,
        // image (4 bytes prefixed buffer; 36 bytes)
        0x00, 0x00, 0x00, 0x20, 0xBA, 0x3E, 0x9D, 0x6B, 0xAE, 0xF5, 0x91, 0xCC, 0xE2, 0xF0, 0xCB,
        0x4F, 0xBB, 0x5B, 0x2B, 0xBE, 0xA7, 0xF4, 0x9D, 0xFB, 0x87, 0x43, 0x0E, 0xDF, 0x30, 0x6F,
        0x7D, 0x6E, 0x22, 0xAB, 0xCC, 0x47,
    ];

    assert_eq!(buf, BUF.as_ref());
}
