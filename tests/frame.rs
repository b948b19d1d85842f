use cassandra_protocol::consistency::Consistency;
use cassandra_protocol::frame::{BodyReqOptions, Direction, Flags, Frame, Opcode, Version};
use cassandra_protocol::query::QueryParams;
use cassandra_protocol::value::Value;

#[test]
fn test_frame_options() {
    let frame = Frame::new_req_options(Version::V4);
    assert_eq!(frame.version, Version::V4);
    assert_eq!(frame.opcode, Opcode::Options);
    assert!(frame.body.is_empty());
}

#[test]
fn options_frame_is_the_same_for_every_version() {
    for version in [Version::V3, Version::V4, Version::V5] {
        let frame = Frame::new_req_options(version);
        assert_eq!(frame.version, version);
        assert_eq!(frame.direction, Direction::Request);
        assert_eq!(frame.opcode, Opcode::Options);
        assert_eq!(frame.flags, Flags::empty());
        assert_eq!(frame.stream_id, 0);
        assert!(frame.body.is_empty());
        assert!(frame.tracing_id.is_none());
        assert!(frame.warnings.is_empty());
    }
    assert!(BodyReqOptions.serialize_to_vec().is_empty());
}

#[test]
fn execute_frame_body_holds_id_and_parameters() {
    let id = vec![0xAB, 0xCD];
    let params = QueryParams {
        consistency: Consistency::Quorum,
        values: Some(vec![Value::new(7_i32), Value::Null]),
    };
    let flags = Flags { bits: Flags::TRACING };
    let frame = Frame::new_req_execute(&id, &params, flags, Version::V4);
    assert_eq!(frame.opcode, Opcode::Execute);
    assert_eq!(frame.direction, Direction::Request);
    assert_eq!(frame.flags, flags);
    assert!(frame.flags.contains(Flags::TRACING));
    assert!(!frame.flags.contains(Flags::COMPRESSION));
    assert_eq!(
        frame.body,
        vec![
            0, 2, 0xAB, 0xCD, // id
            0, 4, // quorum
            1, // values flag
            0, 2, // two values
            0, 0, 0, 4, 0, 0, 0, 7, // 7
            255, 255, 255, 255, // null
        ]
    );
}

#[test]
fn execute_frame_without_values() {
    let params = QueryParams {
        consistency: Consistency::One,
        values: None,
    };
    let frame = Frame::new_req_execute(&vec![9], &params, Flags::empty(), Version::V5);
    assert_eq!(frame.version, Version::V5);
    assert_eq!(frame.body, vec![0, 1, 9, 0, 1, 0]);
}

use cassandra_protocol::codec::ByteReader;
use cassandra_protocol::error::Error;

#[test]
fn frame_encoding_round_trip() {
    let mut frame = Frame::new(
        Version::V4,
        Direction::Response,
        Flags { bits: Flags::WARNING },
        Opcode::Result,
        vec![1, 2, 3],
        None,
        vec![],
    );
    frame.stream_id = 258;
    let mut bytes = frame.encode();
    assert_eq!(bytes, vec![0x84, 0x08, 1, 2, 0x08, 0, 0, 0, 3, 1, 2, 3]);
    bytes.push(99);
    let mut cursor = ByteReader::new(bytes);
    assert_eq!(Frame::from_cursor(&mut cursor), Ok(frame));
    assert_eq!(cursor.remaining(), 1);
}

#[test]
fn request_frame_header() {
    let bytes = Frame::new_req_options(Version::V3).encode();
    assert_eq!(bytes, vec![0x03, 0, 0, 0, 0x05, 0, 0, 0, 0]);
}

#[test]
fn frame_decoding_failures() {
    let decode = |b: Vec<u8>| Frame::from_cursor(&mut ByteReader::new(b));
    assert_eq!(
        decode(vec![0x84, 0, 0, 0, 0x08, 0, 0, 0, 4, 1, 2]),
        Err(Error::BodyLengthMismatch(4))
    );
    assert_eq!(
        decode(vec![0x84, 0, 0, 0, 0x08, 255, 255, 255, 255]),
        Err(Error::BodyLengthMismatch(-1))
    );
    assert_eq!(
        decode(vec![0x82, 0, 0, 0, 0x08, 0, 0, 0, 0]),
        Err(Error::UnsupportedVersion(0x82))
    );
    assert_eq!(
        decode(vec![0x84, 0, 0, 0, 0x04, 0, 0, 0, 0]),
        Err(Error::UnknownOpcode(0x04))
    );
    assert_eq!(decode(vec![0x84, 0, 0]), Err(Error::Truncated));
}
