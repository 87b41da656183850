use okv::error::{DecodeError, EncodeError};
use okv::traits::{BytesDecode, BytesDecodeOwned, BytesEncode};
use okv::types::lazy::LazyDecode;

fn encode<C: BytesEncode>(item: &C::EItem) -> Vec<u8> {
    C::bytes_encode(item).unwrap()
}

fn decode<C: BytesDecodeOwned>(bytes: &[u8]) -> Result<C::DItem, DecodeError> {
    C::bytes_decode_owned(bytes)
}

#[test]
fn unit_encodes_to_nothing() {
    assert_eq!(encode::<()>(&()), Vec::<u8>::new());
    assert!(decode::<()>(&[]).is_ok());
    assert!(<() as BytesDecode>::bytes_decode(&[]).is_ok());
}

#[test]
fn unit_refuses_bytes() {
    assert!(matches!(decode::<()>(&[0]), Err(DecodeError::SizeMismatch)));
    assert!(matches!(<() as BytesDecode>::bytes_decode(&[1, 2]), Err(DecodeError::SizeMismatch)));
}

#[test]
fn u8_is_one_byte() {
    assert_eq!(encode::<u8>(&0xab), vec![0xab]);
    assert_eq!(decode::<u8>(&[0xab]).unwrap(), 0xab);
    assert_eq!(decode::<u8>(&[7, 9]).unwrap(), 7);
    assert!(matches!(decode::<u8>(&[]), Err(DecodeError::Io(_))));
}

#[test]
fn unsigned_integers_are_little_endian() {
    assert_eq!(encode::<u16>(&0x1234), vec![0x34, 0x12]);
    assert_eq!(encode::<u32>(&0x1234_5678), vec![0x78, 0x56, 0x34, 0x12]);
    assert_eq!(encode::<u64>(&0x0102_0304_0506_0708), vec![8, 7, 6, 5, 4, 3, 2, 1]);
    assert_eq!(
        encode::<u128>(&0x0102_0304_0506_0708_090a_0b0c_0d0e_0f10),
        vec![0x10, 0x0f, 0x0e, 0x0d, 0x0c, 0x0b, 0x0a, 9, 8, 7, 6, 5, 4, 3, 2, 1]
    );
}

#[test]
fn signed_integers_are_twos_complement() {
    assert_eq!(encode::<i16>(&-2), vec![0xfe, 0xff]);
    assert_eq!(encode::<i32>(&-2), vec![0xfe, 0xff, 0xff, 0xff]);
    assert_eq!(encode::<i64>(&1), vec![1, 0, 0, 0, 0, 0, 0, 0]);
    assert_eq!(encode::<i128>(&-1), vec![0xff; 16]);
    assert_eq!(decode::<i16>(&[0xfe, 0xff]).unwrap(), -2);
    assert_eq!(decode::<i32>(&[0xfe, 0xff, 0xff, 0xff]).unwrap(), -2);
    assert_eq!(decode::<i64>(&[0, 0, 0, 0, 0, 0, 0, 0x80]).unwrap(), i64::MIN);
    assert_eq!(decode::<i128>(&[0xff; 16]).unwrap(), -1);
}

#[test]
fn integers_come_back_as_they_went() {
    for v in [0u16, 1, 255, 256, u16::MAX] {
        assert_eq!(decode::<u16>(&encode::<u16>(&v)).unwrap(), v);
    }
    for v in [0u32, 1, 0xdead_beef, u32::MAX] {
        assert_eq!(decode::<u32>(&encode::<u32>(&v)).unwrap(), v);
    }
    for v in [0u64, 42, u64::MAX] {
        assert_eq!(decode::<u64>(&encode::<u64>(&v)).unwrap(), v);
    }
    for v in [0u128, 42, u128::MAX] {
        assert_eq!(decode::<u128>(&encode::<u128>(&v)).unwrap(), v);
    }
    for v in [i16::MIN, -1, 0, 1, i16::MAX] {
        assert_eq!(decode::<i16>(&encode::<i16>(&v)).unwrap(), v);
    }
    for v in [i32::MIN, -1, 0, 1, i32::MAX] {
        assert_eq!(decode::<i32>(&encode::<i32>(&v)).unwrap(), v);
    }
    for v in [i64::MIN, -1, 0, 1, i64::MAX] {
        assert_eq!(decode::<i64>(&encode::<i64>(&v)).unwrap(), v);
    }
    for v in [i128::MIN, -1, 0, 1, i128::MAX] {
        assert_eq!(decode::<i128>(&encode::<i128>(&v)).unwrap(), v);
    }
}

#[test]
fn integers_have_their_width() {
    assert_eq!(encode::<u16>(&0).len(), 2);
    assert_eq!(encode::<u32>(&0).len(), 4);
    assert_eq!(encode::<u64>(&0).len(), 8);
    assert_eq!(encode::<u128>(&0).len(), 16);
    assert_eq!(encode::<i16>(&0).len(), 2);
    assert_eq!(encode::<i32>(&0).len(), 4);
    assert_eq!(encode::<i64>(&0).len(), 8);
    assert_eq!(encode::<i128>(&0).len(), 16);
}

#[test]
fn short_input_is_an_io_error() {
    assert!(matches!(decode::<u16>(&[1]), Err(DecodeError::Io(_))));
    assert!(matches!(decode::<u32>(&[1, 2, 3]), Err(DecodeError::Io(_))));
    assert!(matches!(decode::<u64>(&[0; 7]), Err(DecodeError::Io(_))));
    assert!(matches!(decode::<u128>(&[0; 15]), Err(DecodeError::Io(_))));
    assert!(matches!(decode::<i16>(&[]), Err(DecodeError::Io(_))));
    assert!(matches!(decode::<i32>(&[1]), Err(DecodeError::Io(_))));
    assert!(matches!(decode::<i64>(&[0; 4]), Err(DecodeError::Io(_))));
    assert!(matches!(decode::<i128>(&[0; 8]), Err(DecodeError::Io(_))));
    assert!(matches!(<u16 as BytesDecode>::bytes_decode(&[1]), Err(DecodeError::Io(_))));
}

#[test]
fn integers_ignore_what_follows() {
    assert_eq!(decode::<u16>(&[0x34, 0x12, 0xff]).unwrap(), 0x1234);
    assert_eq!(<u32 as BytesDecode>::bytes_decode(&[1, 0, 0, 0, 9, 9]).unwrap(), 1);
}

#[test]
fn strings_are_their_utf8_bytes() {
    assert_eq!(encode::<&str>("héllo"), "héllo".as_bytes().to_vec());
    assert_eq!(encode::<String>("world"), b"world".to_vec());
    assert_eq!(decode::<&str>("héllo".as_bytes()).unwrap(), "héllo".to_string());
    assert_eq!(decode::<String>(b"world").unwrap(), "world".to_string());
    assert_eq!(<&str as BytesDecode>::bytes_decode(b"abc").unwrap(), "abc");
    assert_eq!(decode::<&str>(&[]).unwrap(), String::new());
}

#[test]
fn bad_utf8_is_refused() {
    assert!(matches!(decode::<&str>(&[0xff, 0xfe]), Err(DecodeError::InvalidUtf8)));
    assert!(matches!(decode::<String>(&[0xc3]), Err(DecodeError::InvalidUtf8)));
    assert!(matches!(<&str as BytesDecode>::bytes_decode(&[0x80]), Err(DecodeError::InvalidUtf8)));
}

#[test]
fn bytes_stand_for_themselves() {
    assert_eq!(encode::<&[u8]>(&[1, 2, 3]), vec![1, 2, 3]);
    assert_eq!(encode::<Vec<u8>>(&[]), Vec::<u8>::new());
    assert_eq!(decode::<&[u8]>(&[4, 5]).unwrap(), vec![4, 5]);
    assert_eq!(decode::<Vec<u8>>(&[6]).unwrap(), vec![6]);
    assert_eq!(<&[u8] as BytesDecode>::bytes_decode(&[7, 8]).unwrap(), &[7, 8]);
}

#[test]
fn arrays_need_their_length() {
    assert_eq!(<[u8; 3] as BytesDecode>::bytes_decode(&[1, 2, 3]).unwrap(), [1, 2, 3]);
    assert_eq!(<[u8; 0] as BytesDecode>::bytes_decode(&[]).unwrap(), [0u8; 0]);
    assert!(matches!(<[u8; 3] as BytesDecode>::bytes_decode(&[1, 2]), Err(DecodeError::SizeMismatch)));
    assert!(matches!(<[u8; 3] as BytesDecode>::bytes_decode(&[1, 2, 3, 4]), Err(DecodeError::SizeMismatch)));
}

#[test]
fn uuids_are_sixteen_bytes() {
    let bytes = [0xa1, 0xa2, 0xa3, 0xa4, 0xb1, 0xb2, 0xc1, 0xc2, 0xd1, 0xd2, 0xd3, 0xd4, 0xd5, 0xd6, 0xd7, 0xd8];
    let id = uuid::Uuid::from_bytes(bytes);
    assert_eq!(encode::<uuid::Uuid>(&id), bytes.to_vec());
    assert_eq!(decode::<uuid::Uuid>(&bytes).unwrap(), id);
    assert_eq!(<uuid::Uuid as BytesDecode>::bytes_decode(&bytes).unwrap(), id);
    assert_eq!(decode::<uuid::Uuid>(&encode::<uuid::Uuid>(&id)).unwrap(), id);
    assert!(matches!(decode::<uuid::Uuid>(&bytes[..15]), Err(DecodeError::Uuid(_))));
    assert!(matches!(<uuid::Uuid as BytesDecode>::bytes_decode(&[]), Err(DecodeError::Uuid(_))));
}

#[test]
fn lazy_values_decode_when_asked() {
    let lazy = <LazyDecode<u16> as BytesDecodeOwned>::bytes_decode_owned(&[0x34, 0x12]).unwrap();
    assert_eq!(lazy.decode().unwrap(), 0x1234);
    let short = <LazyDecode<u16> as BytesDecodeOwned>::bytes_decode_owned(&[0x34]).unwrap();
    assert!(matches!(short.decode(), Err(DecodeError::Io(_))));
    let bytes = b"text".to_vec();
    let borrowed = <LazyDecode<&str> as BytesDecode>::bytes_decode(&bytes).unwrap();
    assert_eq!(borrowed.decode().unwrap(), "text");
}

struct Upper;

impl BytesEncode for Upper {
    type EItem = str;

    fn bytes_encode(item: &str) -> Result<Vec<u8>, EncodeError> {
        Ok(item.to_uppercase().into_bytes())
    }
}

#[test]
fn a_codec_of_the_callers_own() {
    assert_eq!(encode::<Upper>("abc"), b"ABC".to_vec());
}
