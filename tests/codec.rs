use cassandra_protocol::codec::{
    write_byte, write_int, write_long, write_short, write_short_bytes, write_string,
    write_string_list, write_u16, ByteReader,
};
use cassandra_protocol::consistency::Consistency;
use cassandra_protocol::error::Error;

#[test]
fn integers_round_trip() {
    let mut out = Vec::new();
    write_byte(&mut out, 200);
    write_u16(&mut out, 65535);
    write_short(&mut out, -2);
    write_int(&mut out, -123_456);
    write_long(&mut out, i64::MIN);
    assert_eq!(&out[..5], &[200, 255, 255, 255, 254]);
    let mut r = ByteReader::new(out);
    assert_eq!(r.read_byte(), Ok(200));
    assert_eq!(r.read_u16(), Ok(65535));
    assert_eq!(r.read_short(), Ok(-2));
    assert_eq!(r.read_int(), Ok(-123_456));
    assert_eq!(r.read_long(), Ok(i64::MIN));
    assert_eq!(r.remaining(), 0);
    assert_eq!(r.read_byte(), Err(Error::Truncated));
}

#[test]
fn int_is_big_endian() {
    let mut out = Vec::new();
    write_int(&mut out, 0x0A0B0C0D);
    assert_eq!(out, vec![0x0A, 0x0B, 0x0C, 0x0D]);
    let mut r = ByteReader::new(vec![0xFF, 0xFF, 0xFF, 0xFE]);
    assert_eq!(r.read_int(), Ok(-2));
}

#[test]
fn texts_round_trip() {
    let mut out = Vec::new();
    write_short_bytes(&mut out, &[1, 2, 3]);
    write_string(&mut out, "héllo");
    write_string_list(&mut out, &vec!["int".to_string(), "".to_string()]);
    assert_eq!(&out[..5], &[0, 3, 1, 2, 3]);
    assert_eq!(&out[5..7], &[0, 6]);
    let mut r = ByteReader::new(out);
    assert_eq!(r.read_short_bytes(), Ok(vec![1, 2, 3]));
    assert_eq!(r.read_string(), Ok("héllo".to_string()));
    assert_eq!(
        r.read_string_list(),
        Ok(vec!["int".to_string(), "".to_string()])
    );
    assert_eq!(r.remaining(), 0);
}

#[test]
fn invalid_utf8_fails() {
    let mut r = ByteReader::new(vec![0, 2, 0xC3, 0x28]);
    assert_eq!(r.read_string(), Err(Error::InvalidUtf8));
}

#[test]
fn truncated_texts_fail() {
    let mut r = ByteReader::new(vec![0, 5, 1, 2]);
    assert_eq!(r.read_short_bytes(), Err(Error::Truncated));
    let mut r = ByteReader::new(vec![0, 2, 0, 1, 97]);
    assert_eq!(r.read_string_list(), Err(Error::Truncated));
    let mut r = ByteReader::new(vec![1, 2]);
    assert_eq!(r.read_raw(3), Err(Error::Truncated));
}

#[test]
fn consistency_tags() {
    let mut out = Vec::new();
    Consistency::LocalOne.serialize(&mut out);
    assert_eq!(out, vec![0, 10]);
    assert_eq!(
        Consistency::from_cursor(&mut ByteReader::new(out)),
        Ok(Consistency::LocalOne)
    );
    assert_eq!(
        Consistency::from_cursor(&mut ByteReader::new(vec![0, 11])),
        Err(Error::UnknownConsistency(11))
    );
    assert_eq!(Consistency::from_code(4), Some(Consistency::Quorum));
    assert_eq!(Consistency::Serial.code(), 8);
}
