use cassandra_protocol::codec::ByteReader;
use cassandra_protocol::error::Error;
use cassandra_protocol::value::{
    Blob, Bytes, Decimal, IpAddress, Timestamp, ToBytes, Uuid, Value,
};

fn decode(bytes: Vec<u8>) -> (Result<Value, Error>, usize) {
    let mut cursor = ByteReader::new(bytes);
    let value = Value::from_cursor(&mut cursor);
    (value, cursor.remaining())
}

#[test]
fn test_value_serialization() {
    assert_eq!(Value::Present(vec![1]).serialize_to_vec(), vec![0, 0, 0, 1, 1]);

    assert_eq!(
        Value::Present(vec![1, 2, 3]).serialize_to_vec(),
        vec![0, 0, 0, 3, 1, 2, 3]
    );

    assert_eq!(Value::Null.serialize_to_vec(), vec![255, 255, 255, 255]);
    assert_eq!(Value::NotSet.serialize_to_vec(), vec![255, 255, 255, 254])
}

#[test]
fn test_new_value_all_types() {
    assert_eq!(
        Value::new("hello"),
        Value::Present(vec!(104, 101, 108, 108, 111))
    );
    assert_eq!(
        Value::new("hello".to_string()),
        Value::Present(vec!(104, 101, 108, 108, 111))
    );
    assert_eq!(Value::new(1_u8), Value::Present(vec!(1)));
    assert_eq!(Value::new(1_u16), Value::Present(vec!(0, 1)));
    assert_eq!(Value::new(1_u32), Value::Present(vec!(0, 0, 0, 1)));
    assert_eq!(Value::new(1_u64), Value::Present(vec!(0, 0, 0, 0, 0, 0, 0, 1)));
    assert_eq!(Value::new(1_i8), Value::Present(vec!(1)));
    assert_eq!(Value::new(1_i16), Value::Present(vec!(0, 1)));
    assert_eq!(Value::new(1_i32), Value::Present(vec!(0, 0, 0, 1)));
    assert_eq!(Value::new(1_i64), Value::Present(vec!(0, 0, 0, 0, 0, 0, 0, 1)));
    assert_eq!(Value::new(true), Value::Present(vec!(1)));
}

#[test]
fn scalar_encodings() {
    assert_eq!(1_u8.to_bytes().into_vec(), vec![1]);
    assert_eq!(1_u16.to_bytes().into_vec(), vec![0, 1]);
    assert_eq!(true.to_bytes().into_vec(), vec![1]);
    assert_eq!(false.to_bytes().into_vec(), vec![0]);
    assert_eq!((-1_i8).to_bytes().into_vec(), vec![255]);
    assert_eq!((-2_i16).to_bytes().into_vec(), vec![255, 254]);
    assert_eq!(0x0102_0304_i32.to_bytes().into_vec(), vec![1, 2, 3, 4]);
    assert_eq!(
        (-1_i64).to_bytes().into_vec(),
        vec![255, 255, 255, 255, 255, 255, 255, 255]
    );
    assert_eq!(u32::MAX.to_bytes().into_vec(), vec![255, 255, 255, 255]);
    assert_eq!(
        0x0102_0304_0506_0708_u64.to_bytes().into_vec(),
        vec![1, 2, 3, 4, 5, 6, 7, 8]
    );
    assert_eq!("é".to_bytes().into_vec(), vec![0xC3, 0xA9]);
}

#[test]
fn domain_encodings() {
    let mut raw = [0u8; 16];
    for (i, b) in raw.iter_mut().enumerate() {
        *b = i as u8;
    }
    assert_eq!(Uuid { bytes: raw }.to_bytes().into_vec(), raw.to_vec());
    assert_eq!(
        IpAddress::V4([127, 0, 0, 1]).to_bytes().into_vec(),
        vec![127, 0, 0, 1]
    );
    assert_eq!(IpAddress::V6(raw).to_bytes().into_vec().len(), 16);
    assert_eq!(
        Blob { bytes: vec![9, 8] }.to_bytes().into_vec(),
        vec![9, 8]
    );
    assert_eq!(
        Decimal { unscaled: vec![0x01, 0x00], scale: 2 }.to_bytes().into_vec(),
        vec![0, 0, 0, 2, 1, 0]
    );
}

#[test]
fn timestamp_truncates_to_milliseconds() {
    let t = Timestamp::new(1, 999_999).unwrap();
    assert_eq!(t.millis(), 1000);
    let t = Timestamp::new(1_600_000_000, 123_456_789).unwrap();
    assert_eq!(t.millis(), 1_600_000_000_123);
    assert_eq!(
        t.to_bytes().into_vec(),
        1_600_000_000_123_i64.to_be_bytes().to_vec()
    );
    let t = Timestamp::new(-1, 500_000_000).unwrap();
    assert_eq!(t.millis(), -500);
    assert!(Timestamp::new(i64::MAX, 0).is_none());
    assert!(Timestamp::new(0, 2_000_000_000).is_none());
}

#[test]
fn list_and_map_encodings() {
    let list = Bytes::from_list(&vec![1_u8.to_bytes(), Bytes::new(vec![])]);
    assert_eq!(list.into_vec(), vec![0, 0, 0, 2, 0, 0, 0, 1, 1, 0, 0, 0, 0]);
    let map = Bytes::from_map(&vec![("a".to_bytes(), 2_i16.to_bytes())]);
    assert_eq!(
        map.into_vec(),
        vec![0, 0, 0, 1, 0, 0, 0, 1, 97, 0, 0, 0, 2, 0, 2]
    );
    assert_eq!(Bytes::from_list(&vec![]).into_vec(), vec![0, 0, 0, 0]);
}

#[test]
fn value_from_option() {
    assert_eq!(Value::from_option(Some(5_u8)), Value::Present(vec![5]));
    assert_eq!(Value::from_option::<u8>(None), Value::Null);
}

#[test]
fn decoding_values() {
    assert_eq!(decode(vec![0, 0, 0, 1, 1]), (Ok(Value::Present(vec![1])), 0));
    assert_eq!(decode(vec![255, 255, 255, 255]), (Ok(Value::Null), 0));
    assert_eq!(decode(vec![255, 255, 255, 254]), (Ok(Value::NotSet), 0));
    assert_eq!(decode(vec![255, 255, 255, 254, 7]), (Ok(Value::NotSet), 1));
}

#[test]
fn zero_length_value_is_present_and_empty() {
    let (value, left) = decode(vec![0, 0, 0, 0]);
    assert_eq!(value, Ok(Value::Present(vec![])));
    assert_ne!(value, Ok(Value::Null));
    assert_ne!(value, Ok(Value::NotSet));
    assert_eq!(left, 0);
}

#[test]
fn other_negative_lengths_fail() {
    assert_eq!(
        decode(vec![255, 255, 255, 253]).0,
        Err(Error::InvalidValueLength(-3))
    );
    assert_eq!(
        decode(vec![128, 0, 0, 0]).0,
        Err(Error::InvalidValueLength(i32::MIN))
    );
}

#[test]
fn truncated_values_fail() {
    assert_eq!(decode(vec![0, 0, 0]).0, Err(Error::Truncated));
    assert_eq!(decode(vec![0, 0, 0, 2, 1]).0, Err(Error::Truncated));
    assert_eq!(decode(vec![]).0, Err(Error::Truncated));
}

#[test]
fn value_round_trip() {
    for v in [
        Value::Present(vec![]),
        Value::Present(vec![1, 2, 3]),
        Value::Null,
        Value::NotSet,
    ] {
        let mut bytes = v.serialize_to_vec();
        bytes.push(42);
        let (decoded, left) = decode(bytes);
        assert_eq!(decoded, Ok(v));
        assert_eq!(left, 1);
    }
}
