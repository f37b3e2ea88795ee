use mc_networking::error::CodecError;
use mc_networking::traits::McEncodable;
use mc_networking::types::{varint_size, Chat, Identifier, Uuid, Varint, Varlong};

const VARINT_CASES: &[(i32, &[u8])] = &[
    (0, &[0x00]),
    (1, &[0x01]),
    (127, &[0x7f]),
    (128, &[0x80, 1]),
    (255, &[0xff, 0x01]),
    (25565, &[0xdd, 0xc7, 0x01]),
    (2097151, &[0xff, 0xff, 0x7f]),
    (2147483647, &[0xff, 0xff, 0xff, 0xff, 0x07]),
    (-1, &[0xff, 0xff, 0xff, 0xff, 0x0f]),
    (-2147483648, &[0x80, 0x80, 0x80, 0x80, 0x08]),
];

const VARLONG_CASES: &[(i64, &[u8])] = &[
    (0, &[0x00]),
    (1, &[0x01]),
    (2, &[0x02]),
    (127, &[0x7f]),
    (128, &[0x80, 0x01]),
    (255, &[0xff, 0x01]),
    (25565, &[0xdd, 0xc7, 0x01]),
    (2097151, &[0xff, 0xff, 0x7f]),
    (2147483647, &[0xff, 0xff, 0xff, 0xff, 0x07]),
    (
        9223372036854775807,
        &[0xff, 0xff, 0xff, 0xff, 0xff, 0xff, 0xff, 0xff, 0x7f],
    ),
    (
        -1,
        &[0xff, 0xff, 0xff, 0xff, 0xff, 0xff, 0xff, 0xff, 0xff, 0x01],
    ),
    (
        -2147483648,
        &[0x80, 0x80, 0x80, 0x80, 0xf8, 0xff, 0xff, 0xff, 0xff, 0x01],
    ),
    (
        -9223372036854775808,
        &[0x80, 0x80, 0x80, 0x80, 0x80, 0x80, 0x80, 0x80, 0x80, 0x01],
    ),
];

#[test]
fn test_varint_decode() {
    for (expected, bytes) in VARINT_CASES.iter() {
        let (varint, _) = Varint::decode(bytes).unwrap();
        assert_eq!(varint.value(), *expected);
    }
}

#[test]
fn test_varint_encode() {
    for (expected, bytes) in VARINT_CASES.iter() {
        let mut buf = Vec::new();
        let varint = Varint::from(*expected);
        varint.encode(&mut buf);
        assert_eq!(buf, *bytes);
    }
}

#[test]
fn test_varlong_decode() {
    for (expected, bytes) in VARLONG_CASES.iter() {
        let (varlong, _) = Varlong::decode(bytes).unwrap();
        assert_eq!(varlong.value(), *expected);
    }
}

#[test]
fn test_varlong_encode() {
    for (expected, bytes) in VARLONG_CASES.iter() {
        let mut buf = Vec::new();
        let varlong = Varlong::from(*expected);
        varlong.encode(&mut buf);
        assert_eq!(buf, *bytes);
    }
}

#[test]
fn varint_decode_reports_bytes_taken() {
    let (v, n) = Varint::decode(&[0xdd, 0xc7, 0x01, 0x42]).unwrap();
    assert_eq!(v.value(), 25565);
    assert_eq!(n, 3);
}

#[test]
fn varint_decode_errors() {
    assert_eq!(Varint::decode(&[]).unwrap_err(), CodecError::UnexpectedEof);
    assert_eq!(Varint::decode(&[0x80, 0x80]).unwrap_err(), CodecError::UnexpectedEof);
    assert_eq!(
        Varint::decode(&[0x80, 0x80, 0x80, 0x80, 0x80, 0x01]).unwrap_err(),
        CodecError::VarIntTooBig
    );
}

#[test]
fn varlong_decode_too_big() {
    assert_eq!(
        Varlong::decode(&[0x80; 11]).unwrap_err(),
        CodecError::VarLongTooBig
    );
}

#[test]
fn varint_size_table() {
    assert_eq!(varint_size(0), Ok(1));
    assert_eq!(varint_size(127), Ok(1));
    assert_eq!(varint_size(128), Ok(2));
    assert_eq!(varint_size(16383), Ok(2));
    assert_eq!(varint_size(16384), Ok(3));
    assert_eq!(varint_size(2097152), Ok(4));
    assert_eq!(varint_size(268435456), Ok(5));
    assert_eq!(varint_size(i32::MAX), Ok(5));
    assert_eq!(varint_size(-1), Err(CodecError::NegativeVarint));
}

#[test]
fn varint_size_is_encoded_length() {
    for (value, bytes) in VARINT_CASES.iter() {
        if *value >= 0 {
            assert_eq!(varint_size(*value).unwrap() as usize, bytes.len());
        }
    }
}

#[test]
fn varint_conversions() {
    let v: Varint = 300.into();
    assert_eq!(v.value(), 300);
    let back: i32 = v.into();
    assert_eq!(back, 300);
}

fn roundtrip<T: McEncodable + std::fmt::Debug>(value: &T) -> (T, usize, Vec<u8>) {
    let mut buf = Vec::new();
    value.encode(&mut buf);
    let len = buf.len();
    buf.extend_from_slice(&[0xaa, 0xbb]);
    let (back, n) = T::decode(&buf).unwrap();
    assert_eq!(n, len);
    buf.truncate(len);
    (back, n, buf)
}

#[test]
fn bool_roundtrip_and_bytes() {
    let (b, _, bytes) = roundtrip(&true);
    assert!(b);
    assert_eq!(bytes, vec![1]);
    let (b, _, bytes) = roundtrip(&false);
    assert!(!b);
    assert_eq!(bytes, vec![0]);
    let (b, n) = bool::decode(&[7]).unwrap();
    assert!(b);
    assert_eq!(n, 1);
    assert_eq!(bool::decode(&[]).unwrap_err(), CodecError::UnexpectedEof);
}

#[test]
fn fixed_width_numbers_are_big_endian() {
    let (v, _, bytes) = roundtrip(&-2i16);
    assert_eq!(v, -2);
    assert_eq!(bytes, vec![0xff, 0xfe]);
    let (v, _, bytes) = roundtrip(&0x1234u16);
    assert_eq!(v, 0x1234);
    assert_eq!(bytes, vec![0x12, 0x34]);
    let (v, _, bytes) = roundtrip(&0x01020304i32);
    assert_eq!(v, 0x01020304);
    assert_eq!(bytes, vec![1, 2, 3, 4]);
    let (v, _, bytes) = roundtrip(&-1i64);
    assert_eq!(v, -1);
    assert_eq!(bytes, vec![0xff; 8]);
    let (v, _, bytes) = roundtrip(&-128i8);
    assert_eq!(v, -128);
    assert_eq!(bytes, vec![0x80]);
    let (v, _, bytes) = roundtrip(&200u8);
    assert_eq!(v, 200);
    assert_eq!(bytes, vec![200]);
    assert_eq!(i32::decode(&[1, 2, 3]).unwrap_err(), CodecError::UnexpectedEof);
}

#[test]
fn uuid_roundtrip() {
    let id = Uuid::from(0x0102030405060708090a0b0c0d0e0f10u128);
    let (back, n, bytes) = roundtrip(&id);
    assert_eq!(back.contents(), id.contents());
    assert_eq!(n, 16);
    assert_eq!(bytes[0], 0x01);
    assert_eq!(bytes[15], 0x10);
}

#[test]
fn string_roundtrip_and_bytes() {
    let (s, _, bytes) = roundtrip(&String::from("héllo"));
    assert_eq!(s, "héllo");
    assert_eq!(bytes, vec![6, b'h', 0xc3, 0xa9, b'l', b'l', b'o']);
    let (s, n) = String::decode(&[0]).unwrap();
    assert_eq!(s, "");
    assert_eq!(n, 1);
}

#[test]
fn string_decode_errors() {
    assert_eq!(String::decode(&[3, b'a']).unwrap_err(), CodecError::UnexpectedEof);
    assert_eq!(String::decode(&[1, 0xff]).unwrap_err(), CodecError::InvalidUtf8);
    assert_eq!(String::decode(&[]).unwrap_err(), CodecError::UnexpectedEof);
}

#[test]
fn chat_and_identifier_roundtrip() {
    let chat = Chat::from(String::from("{\"text\":\"hi\"}"));
    let (back, _, _) = roundtrip(&chat);
    assert_eq!(back, chat);
    assert_eq!(back.contents(), "{\"text\":\"hi\"}");
    let ident = Identifier::from(String::from("minecraft:stone"));
    let (back, _, bytes) = roundtrip(&ident);
    assert_eq!(back, ident);
    assert_eq!(back.contents(), "minecraft:stone");
    assert_eq!(bytes[0], 15);
}

#[test]
fn option_roundtrip() {
    let (v, _, bytes) = roundtrip(&Some(5i16));
    assert_eq!(v, Some(5));
    assert_eq!(bytes, vec![1, 0, 5]);
    let (v, _, bytes) = roundtrip(&None::<i16>);
    assert_eq!(v, None);
    assert_eq!(bytes, vec![0]);
}

#[test]
fn vec_roundtrip() {
    let (v, _, bytes) = roundtrip(&vec![1u8, 2, 3]);
    assert_eq!(v, vec![1, 2, 3]);
    assert_eq!(bytes, vec![3, 1, 2, 3]);
    let (v, _, _) = roundtrip(&Vec::<u16>::new());
    assert!(v.is_empty());
    assert_eq!(Vec::<u8>::decode(&[2, 9]).unwrap_err(), CodecError::UnexpectedEof);
}

#[test]
fn pair_roundtrip() {
    let (v, _, bytes) = roundtrip(&(7u8, true));
    assert_eq!(v, (7, true));
    assert_eq!(bytes, vec![7, 1]);
    let (_, n, _) = roundtrip(&());
    assert_eq!(n, 0);
}

#[test]
fn display_forms() {
    assert_eq!(Varint::from(-25565).to_string(), "-25565");
    assert_eq!(Varint::from(i32::MIN).to_string(), "-2147483648");
    assert_eq!(Varlong::from(i64::MIN).to_string(), "-9223372036854775808");
    assert_eq!(Varlong::from(0).to_string(), "0");
    assert_eq!(Uuid::from(0xff).to_string(), "ff");
    assert_eq!(Uuid::from(0).to_string(), "0");
    assert_eq!(Uuid::from(u128::MAX).to_string(), "ffffffffffffffffffffffffffffffff");
    assert_eq!(Chat::from(String::from("hi")).to_string(), "hi");
    assert_eq!(Identifier::from(String::from("a:b")).to_string(), "a:b");
}

#[test]
fn equal_values_make_equal_wrappers() {
    assert_eq!(Varint::from(300), Varint::from(300));
    assert_ne!(Varint::from(300), Varint::from(301));
    assert_eq!(Varlong::from(-7), Varlong::from(-7));
    assert_ne!(Varlong::from(-7), Varlong::from(7));
    assert_eq!(Uuid::from(9), Uuid::from(9));
    assert_ne!(Uuid::from(9), Uuid::from(10));
}
