use codecrafters_kafka::array::{CSignedVec, CVec};
use codecrafters_kafka::bytes::ByteBuf;
use codecrafters_kafka::ids::UUID;
use codecrafters_kafka::strings::{CSignedString, CString};
use codecrafters_kafka::varint::{
    decode_signed_varint, decode_unsigned_varint, decode_varint, encode_signed_varint,
    encode_unsigned_varint, encode_zigzag, signed_varint_bytes_wide, unsigned_varint_bytes_wide,
    UVarint, Varint,
};
use codecrafters_kafka::{Decode, Encode, Offset, Size};

#[test]
fn test_cvec_encode() {
    let data = CVec {
        data: vec![0x01 as u8, 0x02 as u8, 0x03 as u8],
    };
    let encoded = data.encode();

    let expected: Vec<u8> = vec![4, 1, 2, 3];

    assert_eq!(encoded, expected);
}

#[test]
fn test_cvec_decode() {
    let bytes: &[u8] = &[4, 1, 2, 3];
    let mut offset = 0;

    let decoded: CVec<u8> = CVec::decode(bytes, &mut offset).unwrap();

    let expected = CVec {
        data: vec![1, 2, 3],
    };

    assert_eq!(decoded.data, expected.data);
    assert_eq!(offset, bytes.len());
}

#[test]
fn test_cvec_size_in_bytes() {
    let data = CVec {
        data: vec![1, 2, 3],
    };

    assert_eq!(data.size_in_bytes(), 13);
}

#[test]
fn test_empty_cvec_encode_decode() {
    let data = CVec::<u8> { data: Vec::new() };
    let encoded = data.encode();

    let expected: Vec<u8> = vec![0];

    assert_eq!(encoded, expected);

    let mut offset = 0;
    let decoded: CVec<u8> = CVec::decode(&encoded, &mut offset).unwrap();

    assert_eq!(decoded.data, Vec::<u8>::new());
    // The cursor advances by exactly the bytes consumed: the one marker byte.
    assert_eq!(offset, encoded.len());
}

#[test]
fn test_empty_cvec_size_in_bytes() {
    let data = CVec::<u8> { data: Vec::new() };

    assert_eq!(data.size_in_bytes(), 1);
}

#[test]
fn test_vec_encode() {
    let data = vec![1 as u8, 2 as u8, 3 as u8];
    let encoded = data.encode();

    let mut expected: Vec<u8> = vec![];
    expected.extend_from_slice(&3i32.encode());
    expected.extend_from_slice(&[1, 2, 3]);

    assert_eq!(encoded, expected);
}

#[test]
fn test_empty_vec_encode() {
    let data: Vec<u8> = Vec::new();
    let encoded = data.encode();

    // An empty legacy array is the null count -1: four bytes, as its size says.
    let expected: Vec<u8> = vec![255, 255, 255, 255];

    assert_eq!(encoded, expected);
    assert_eq!(encoded.len(), data.size_in_bytes());
}

#[test]
fn test_vec_decode() {
    let bytes: &[u8] = &[0, 0, 0, 3 as u8, 1 as u8, 2 as u8, 3 as u8];
    let mut offset = 0;

    let decoded: Vec<u8> = Vec::decode(bytes, &mut offset).unwrap();

    let expected = vec![1, 2, 3];

    assert_eq!(decoded, expected);
    assert_eq!(offset, bytes.len());
}

#[test]
fn test_empty_vec_decode() {
    let bytes: &[u8] = &[255, 255, 255, 255];
    let mut offset = 0;

    let decoded: Vec<u8> = Vec::decode(bytes, &mut offset).unwrap();

    let expected: Vec<u8> = Vec::new();

    assert_eq!(decoded, expected);
    // The cursor advances by exactly the four count bytes.
    assert_eq!(offset, bytes.len());
}

#[test]
fn test_vec_size_in_bytes() {
    let data = vec![1, 2, 3];

    let expected_size = std::mem::size_of::<i32>() + (3 * std::mem::size_of::<i32>());
    assert_eq!(data.size_in_bytes(), expected_size);
}

#[test]
fn test_empty_vec_size_in_bytes() {
    let data: Vec<u8> = Vec::new();

    let expected_size = std::mem::size_of::<i32>();
    assert_eq!(data.size_in_bytes(), expected_size);
}

#[test]
fn test_string_encode_decode() {
    let test_cases = vec![
        ("".to_string(), vec![0, 0]),
        ("hello".to_string(), vec![0, 5, 104, 101, 108, 108, 111]),
        (
            "world!".to_string(),
            vec![0, 6, 119, 111, 114, 108, 100, 33],
        ),
        (
            "Long string with spaces and special chars: !@#$%^&*()_+=-`~[]\\{}|;':\",./<>?"
                .to_string(),
            {
                let mut v = vec![0, 75];
                v.extend_from_slice(
                    "Long string with spaces and special chars: !@#$%^&*()_+=-`~[]\\{}|;':\",./<>?"
                        .as_bytes(),
                );
                v
            },
        ),
        (
            "1234567890".to_string(),
            vec![0, 10, 49, 50, 51, 52, 53, 54, 55, 56, 57, 48],
        ),
        ("very very very very very very long string".to_string(), {
            let mut v = vec![0, 41];
            v.extend_from_slice("very very very very very very long string".as_bytes());
            v
        }),
        ("A".repeat(256), {
            let mut v = vec![1, 0];
            v.extend_from_slice("A".repeat(256).as_bytes());
            v
        }),
        ("B".repeat(i16::MAX as usize), {
            let mut v = vec![127, 255];
            v.extend_from_slice("B".repeat(i16::MAX as usize).as_bytes());
            v
        }),
    ];

    for (input, expected_encoded) in test_cases {
        let encoded = input.encode();
        let mut offset = 0;
        let decoded = String::decode(&encoded, &mut offset).unwrap();

        assert_eq!(decoded, input);
        assert_eq!(encoded, expected_encoded);
    }
}

#[test]
fn test_string_offset_size() {
    let test_cases = vec![
        ("".to_string(), 2),
        ("hello".to_string(), 7),
        ("world!".to_string(), 8),
        ("A".repeat(100), 102),
        ("B".repeat(200), 202),
    ];

    for (input, expected_size) in test_cases {
        let string = input;
        assert_eq!(string.size(), expected_size);
        assert_eq!(string.size_in_bytes(), expected_size);
    }
}

#[test]
fn test_unsigned_varint_bytes_wide() {
    let test_cases = vec![
        (0usize, 1),
        (1usize, 1),
        (127usize, 1),
        (128usize, 2),
        (1024usize, 2),
        (usize::MAX, 10),
    ];

    for (value, expected_bytes_wide) in test_cases {
        let result = unsigned_varint_bytes_wide(value);
        assert_eq!(
            result, expected_bytes_wide,
            "Expected {} bytes, but got {} for value {}",
            expected_bytes_wide, result, value
        );
    }
}

#[test]
fn unsigned_varint_boundaries() {
    assert_eq!(encode_unsigned_varint(0), vec![0x00]);
    assert_eq!(encode_unsigned_varint(127), vec![0x7F]);
    assert_eq!(encode_unsigned_varint(128), vec![0x80, 0x01]);
    assert_eq!(encode_unsigned_varint(16383), vec![0xFF, 0x7F]);
    assert_eq!(encode_unsigned_varint(16384), vec![0x80, 0x80, 0x01]);
    assert_eq!(encode_zigzag(16384), vec![0x80, 0x80, 0x01]);
    for (bytes, value) in [
        (vec![0x00u8], 0u64),
        (vec![0x7F], 127),
        (vec![0x80, 0x01], 128),
        (vec![0xFF, 0x7F], 16383),
        (vec![0x80, 0x80, 0x01], 16384),
    ] {
        let mut offset = 0;
        assert_eq!(
            decode_unsigned_varint(&bytes, &mut offset),
            Some((value, bytes.len()))
        );
        assert_eq!(offset, bytes.len());
        assert_eq!(decode_varint(&bytes), Some((value, bytes.len())));
    }
}

#[test]
fn unsigned_varint_largest_and_overflow() {
    let max = encode_unsigned_varint(u64::MAX);
    assert_eq!(max.len(), 10);
    assert_eq!(decode_varint(&max), Some((u64::MAX, 10)));
    // Ten bytes whose last group carries more than the 64th bit.
    let too_big = vec![0xFF, 0xFF, 0xFF, 0xFF, 0xFF, 0xFF, 0xFF, 0xFF, 0xFF, 0x02];
    assert_eq!(decode_varint(&too_big), None);
    // An eleventh group is never read.
    let too_long = vec![0x80, 0x80, 0x80, 0x80, 0x80, 0x80, 0x80, 0x80, 0x80, 0x80, 0x00];
    assert_eq!(decode_varint(&too_long), None);
    // Truncated: the continuation bit promises a byte that is missing.
    assert_eq!(decode_varint(&[0x80]), None);
    assert_eq!(decode_varint(&[]), None);
}

#[test]
fn signed_varint_zigzag() {
    assert_eq!(encode_signed_varint(0), vec![0x00]);
    assert_eq!(encode_signed_varint(-1), vec![0x01]);
    assert_eq!(encode_signed_varint(1), vec![0x02]);
    assert_eq!(encode_signed_varint(-2), vec![0x03]);
    assert_eq!(encode_signed_varint(30), vec![60]);
    for v in [0i64, -1, 1, -64, 64, 1000, -1000, i64::MAX, i64::MIN] {
        let bytes = encode_signed_varint(v);
        let mut offset = 0;
        assert_eq!(
            decode_signed_varint(&bytes, &mut offset),
            Some((v, bytes.len()))
        );
        assert_eq!(Varint(v).get_size(), bytes.len());
    }
    assert_eq!(signed_varint_bytes_wide(0), 1);
    assert_eq!(signed_varint_bytes_wide(63), 1);
    assert_eq!(signed_varint_bytes_wide(64), 2);
}

#[test]
fn varint_and_uvarint_values() {
    let v = Varint::new(4);
    assert_eq!(v.0, 5);
    assert_eq!(v.encode(), vec![10]);
    let u = UVarint::new(3, 1);
    assert_eq!((u.0, u.1), (4, 1));
    assert_eq!(u.encode(), vec![4]);
    assert_eq!(u.size_in_bytes(), 1);
    let mut offset = 0;
    let d = UVarint::decode(&[0x80, 0x01], &mut offset).unwrap();
    assert_eq!((d.0, d.1), (128, 2));
}

#[test]
fn fixed_width_integers_big_endian() {
    assert_eq!(0x0102_0304i32.encode(), vec![1, 2, 3, 4]);
    assert_eq!((-1i32).encode(), vec![0xFF, 0xFF, 0xFF, 0xFF]);
    assert_eq!((-2i16).encode(), vec![0xFF, 0xFE]);
    assert_eq!(
        1726045943832i64.encode(),
        vec![0x00, 0x00, 0x01, 0x91, 0xe0, 0x5a, 0xf8, 0x18]
    );
    assert_eq!((-1i8).encode(), vec![0xFF]);
    for v in [0i64, -1, i64::MIN, i64::MAX, 1726045943832] {
        let mut offset = 0;
        assert_eq!(i64::decode(&v.encode(), &mut offset), Some(v));
        assert_eq!(offset, 8);
    }
    let mut offset = 0;
    assert_eq!(i32::decode(&[0xb0, 0x69, 0x45, 0x7c], &mut offset), Some(-1335278212));
    let mut offset = 1;
    assert_eq!(i32::decode(&[0, 0, 0, 0], &mut offset), None);
    assert_eq!(u32::decode(&[0xFF, 0xFF, 0xFF, 0xFF], &mut 0), Some(u32::MAX));
    assert_eq!(i8::decode(&[0x80], &mut 0), Some(-128));
}

#[test]
fn compact_string_round_trip() {
    let c = CString::from_string("metadata.version".to_string());
    assert_eq!(c.1, 1);
    let bytes = c.encode();
    assert_eq!(bytes[0], 17);
    assert_eq!(bytes.len(), c.size_in_bytes());
    let mut offset = 0;
    let d = CString::decode(&bytes, &mut offset).unwrap();
    assert_eq!(d, CString("metadata.version".to_string(), 1));
    assert_eq!(offset, bytes.len());
    let long = CString::from_string("A".repeat(128));
    assert_eq!(long.1, 2);
    assert_eq!(long.size(), 130);
}

#[test]
fn compact_string_rejects_null_and_bad_utf8() {
    assert!(CString::decode(&[0], &mut 0).is_none());
    assert!(CString::decode(&[3, 0xC3, 0x28], &mut 0).is_none());
    assert!(CString::decode(&[5, b'a', b'b'], &mut 0).is_none());
    assert!(String::decode(&[0, 2, 0xFF, 0xFE], &mut 0).is_none());
    assert!(String::decode(&[0xFF, 0xFF], &mut 0).is_none());
}

#[test]
fn signed_string_and_array() {
    let s = CSignedString("Hello World!".to_string());
    let bytes = s.encode();
    assert_eq!(bytes[0], 24);
    assert_eq!(bytes.len(), s.size_in_bytes());
    let d = CSignedString::decode(&bytes, &mut 0).unwrap();
    assert_eq!(d.0, "Hello World!");
    assert_eq!(CSignedString::decode(&[1], &mut 0).unwrap().0, "");

    let a = CSignedVec { data: vec![7i32, 8] };
    let bytes = a.encode();
    assert_eq!(bytes, vec![4, 0, 0, 0, 7, 0, 0, 0, 8]);
    assert_eq!(a.size_in_bytes(), 9);
    let mut offset = 0;
    let d = CSignedVec::<i32>::decode(&bytes, &mut offset).unwrap();
    assert_eq!(d.data, vec![7, 8]);
    assert_eq!(offset, 9);
    assert!(CSignedVec::<i32>::decode(&[1], &mut 0).unwrap().data.is_empty());
}

#[test]
fn compact_array_one_marker_reads_empty() {
    let mut offset = 0;
    let d = CVec::<u8>::decode(&[1, 9], &mut offset).unwrap();
    assert!(d.data.is_empty());
    assert_eq!(offset, 1);
    assert!(CVec::<i32>::decode(&[3, 0, 0, 0, 1], &mut 0).is_none());
}

#[test]
fn byte_blob_compact_prefix() {
    let b = ByteBuf::from_raw(vec![9, 8, 7]);
    let bytes = b.encode();
    assert_eq!(bytes, vec![4, 9, 8, 7]);
    assert_eq!(b.size_in_bytes(), 4);
    let mut offset = 0;
    let d = ByteBuf::decode(&bytes, &mut offset).unwrap();
    assert_eq!(d.0, vec![9, 8, 7]);
    assert_eq!(offset, 4);
    assert_eq!(ByteBuf::empty().encode(), vec![1]);
}

#[test]
fn uuid_bytes_and_text() {
    let raw = [
        0x00, 0x00, 0x00, 0x00, 0x00, 0x00, 0x40, 0x00, 0x80, 0x00, 0x00, 0x00, 0x00, 0x00, 0x00,
        0x91,
    ];
    let id = UUID(raw);
    assert_eq!(id.to_string(), "00000000-0000-4000-8000-000000000091");
    let hex = UUID([
        0xde, 0xad, 0xbe, 0xef, 0x01, 0x23, 0x45, 0x67, 0x89, 0xab, 0xcd, 0xef, 0xfe, 0xdc, 0xba,
        0x98,
    ]);
    assert_eq!(hex.to_string(), "deadbeef-0123-4567-89ab-cdeffedcba98");
    assert_eq!(id.encode(), raw.to_vec());
    let mut offset = 0;
    let d = UUID::decode(&raw, &mut offset).unwrap();
    assert_eq!(d.0, raw);
    assert_eq!(offset, 16);
    assert!(UUID::decode(&raw[..15], &mut 0).is_none());
    assert!(id.same_as(&d));
    assert!(!id.same_as(&hex));
    assert_eq!(UUID::zero().0, [0u8; 16]);
}
