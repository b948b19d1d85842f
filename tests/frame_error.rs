use cassandra_protocol::codec::{write_int, write_short, write_string, ByteReader};
use cassandra_protocol::consistency::Consistency;
use cassandra_protocol::error::Error;
use cassandra_protocol::frame_error::{
    AdditionalErrorInfo, AlreadyExistsError, CdrsError, FunctionFailureError, UnavailableError,
    UnpreparedError, WriteFailureError, WriteTimeoutError, WriteType,
};

fn info(code: i32, payload: Vec<u8>) -> (Result<AdditionalErrorInfo, Error>, usize) {
    let mut cursor = ByteReader::new(payload);
    let r = AdditionalErrorInfo::from_cursor_with_code(&mut cursor, code);
    (r, cursor.remaining())
}

fn text(s: &str) -> Vec<u8> {
    let mut out = Vec::new();
    write_string(&mut out, s);
    out
}

fn ints(cl: i16, xs: &[i32]) -> Vec<u8> {
    let mut out = Vec::new();
    write_short(&mut out, cl);
    for x in xs {
        write_int(&mut out, *x);
    }
    out
}

#[test]
fn codes_without_payload() {
    let cases = [
        (0x0000, AdditionalErrorInfo::Server),
        (0x000A, AdditionalErrorInfo::Protocol),
        (0x0100, AdditionalErrorInfo::Authentication),
        (0x1001, AdditionalErrorInfo::Overloaded),
        (0x1002, AdditionalErrorInfo::IsBootstrapping),
        (0x1003, AdditionalErrorInfo::Truncate),
        (0x2000, AdditionalErrorInfo::Syntax),
        (0x2100, AdditionalErrorInfo::Unauthorized),
        (0x2200, AdditionalErrorInfo::Invalid),
        (0x2300, AdditionalErrorInfo::Config),
    ];
    for (code, expected) in cases {
        assert_eq!(info(code, vec![7, 7]), (Ok(expected), 2));
    }
}

#[test]
fn unavailable_payload() {
    assert_eq!(
        info(0x1000, ints(4, &[3, 1])),
        (
            Ok(AdditionalErrorInfo::Unavailable(UnavailableError {
                cl: Consistency::Quorum,
                required: 3,
                alive: 1,
            })),
            0
        )
    );
}

#[test]
fn write_timeout_payload() {
    let mut payload = ints(1, &[0, 1]);
    payload.extend(text("BATCH_LOG"));
    assert_eq!(
        info(0x1100, payload),
        (
            Ok(AdditionalErrorInfo::WriteTimeout(WriteTimeoutError {
                cl: Consistency::One,
                received: 0,
                block_for: 1,
                write_type: WriteType::BatchLog,
            })),
            0
        )
    );
}

#[test]
fn read_timeout_payload() {
    let mut payload = ints(6, &[1, 2]);
    payload.push(1);
    match info(0x1200, payload) {
        (Ok(AdditionalErrorInfo::ReadTimeout(e)), 0) => {
            assert_eq!(e.cl, Consistency::LocalQuorum);
            assert_eq!(e.received, 1);
            assert_eq!(e.block_for, 2);
            assert!(e.replica_has_responded());
        }
        other => panic!("unexpected {:?}", other),
    }
    let mut payload = ints(6, &[1, 2]);
    payload.push(0);
    match info(0x1200, payload) {
        (Ok(AdditionalErrorInfo::ReadTimeout(e)), 0) => assert!(!e.replica_has_responded()),
        other => panic!("unexpected {:?}", other),
    }
}

#[test]
fn read_failure_payload() {
    let mut payload = ints(5, &[2, 3, 1]);
    payload.push(0);
    match info(0x1300, payload) {
        (Ok(AdditionalErrorInfo::ReadFailure(e)), 0) => {
            assert_eq!(e.cl, Consistency::All);
            assert_eq!(e.received, 2);
            assert_eq!(e.block_for, 3);
            assert_eq!(e.num_failures, 1);
            assert!(!e.replica_has_responded());
        }
        other => panic!("unexpected {:?}", other),
    }
}

#[test]
fn function_failure_payload() {
    let mut payload = text("ks");
    payload.extend(text("f"));
    payload.extend(vec![0, 2]);
    payload.extend(text("int"));
    payload.extend(text("text"));
    assert_eq!(
        info(0x1400, payload),
        (
            Ok(AdditionalErrorInfo::FunctionFailure(FunctionFailureError {
                keyspace: "ks".to_string(),
                function: "f".to_string(),
                arg_types: vec!["int".to_string(), "text".to_string()],
            })),
            0
        )
    );
}

#[test]
fn write_failure_payload() {
    let mut payload = ints(0, &[1, 2, 3]);
    payload.extend(text("UNLOGGED_BATCH"));
    assert_eq!(
        info(0x1500, payload),
        (
            Ok(AdditionalErrorInfo::WriteFailure(WriteFailureError {
                cl: Consistency::Any,
                received: 1,
                block_for: 2,
                num_failures: 3,
                write_type: WriteType::UnloggedBatch,
            })),
            0
        )
    );
}

#[test]
fn already_exists_payload() {
    let mut payload = text("ks");
    payload.extend(text("tbl"));
    assert_eq!(
        info(0x2400, payload),
        (
            Ok(AdditionalErrorInfo::AlreadyExists(AlreadyExistsError {
                ks: "ks".to_string(),
                table: "tbl".to_string(),
            })),
            0
        )
    );
}

#[test]
fn unprepared_payload() {
    assert_eq!(
        info(0x2500, vec![0, 2, 0xBE, 0xEF]),
        (
            Ok(AdditionalErrorInfo::Unprepared(UnpreparedError {
                id: vec![0xBE, 0xEF],
            })),
            0
        )
    );
}

#[test]
fn undefined_code_fails() {
    assert_eq!(info(0x9999, vec![]).0, Err(Error::UnexpectedErrorCode(0x9999)));
    assert_eq!(info(-1, vec![]).0, Err(Error::UnexpectedErrorCode(-1)));
}

#[test]
fn short_payload_fails() {
    assert_eq!(info(0x1000, ints(4, &[3])).0, Err(Error::Truncated));
    assert_eq!(
        info(0x1000, ints(99, &[3, 1])).0,
        Err(Error::UnknownConsistency(99))
    );
}

#[test]
fn write_type_names_round_trip() {
    let all = [
        (WriteType::Simple, "SIMPLE"),
        (WriteType::Batch, "BATCH"),
        (WriteType::UnloggedBatch, "UNLOGGED_BATCH"),
        (WriteType::Counter, "COUNTER"),
        (WriteType::BatchLog, "BATCH_LOG"),
    ];
    for (w, name) in all {
        assert_eq!(w.as_str(), name);
        assert_eq!(WriteType::from_name(name), Some(w));
        assert_eq!(WriteType::from_name(w.as_str()).unwrap().as_str(), name);
        assert_eq!(
            WriteType::from_cursor(&mut ByteReader::new(text(name))),
            Ok(w)
        );
    }
    assert_eq!(WriteType::from_name("simple"), None);
    assert_eq!(WriteType::from_name("BATCH_LOGS"), None);
    assert_eq!(WriteType::from_name(""), None);
    assert_eq!(
        WriteType::from_cursor(&mut ByteReader::new(text("CAS"))),
        Err(Error::UnexpectedWriteType)
    );
}

#[test]
fn error_body_decodes() {
    let mut body = Vec::new();
    write_int(&mut body, 0x2200);
    body.extend(text("bad query"));
    let mut cursor = ByteReader::new(body);
    assert_eq!(
        CdrsError::from_cursor(&mut cursor),
        Ok(CdrsError {
            error_code: 0x2200,
            message: "bad query".to_string(),
            additional_info: AdditionalErrorInfo::Invalid,
        })
    );
    assert_eq!(cursor.remaining(), 0);
}

#[test]
fn error_body_with_unknown_code_fails() {
    let mut body = Vec::new();
    write_int(&mut body, 0x9999);
    body.extend(text("?"));
    assert_eq!(
        CdrsError::from_cursor(&mut ByteReader::new(body)),
        Err(Error::UnexpectedErrorCode(0x9999))
    );
}
