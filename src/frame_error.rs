//! Errors that a server reports in the body of an error frame: a code, a
//! message, and additional information whose shape the code decides.
use vstd::prelude::*;

use crate::codec::{
    fits_string, fits_string_list, int_bytes, lemma_byte_round_trip, lemma_encode_utf8_injective,
    lemma_encode_utf8_len, lemma_int_round_trip, lemma_short_bytes_round_trip,
    lemma_string_list_round_trip, lemma_string_round_trip, parse_byte, parse_int,
    parse_short_bytes, parse_string, parse_string_list, parsed_as, short_bytes, short_bytes_enc,
    string_enc, string_list_enc, ByteReader, Parsed,
};
use crate::consistency::{lemma_consistency_round_trip, parse_consistency, Consistency};
use crate::error::Error;

verus! {

broadcast use vstd::utf8::encode_utf8_valid_utf8, vstd::utf8::encode_utf8_decode_utf8;

/// Applies `f` to a decoded item and keeps what follows it.
pub open spec fn lift<A, B>(p: Parsed<A>, f: spec_fn(A) -> B) -> Parsed<B> {
    match p {
        Ok((a, rest)) => Ok((f(a), rest)),
        Err(e) => Err(e),
    }
}

/// Describes the type of the write that failed or timed out.
#[derive(Debug, Clone, Copy, PartialEq, Eq, Hash, Structural)]
pub enum WriteType {
    /// A non-batched, non-counter write.
    Simple,
    /// A logged batch write, whose batch log was written.
    Batch,
    /// An unlogged batch; no batch log write was attempted.
    UnloggedBatch,
    /// A counter write, batched or not.
    Counter,
    /// The write to the batch log of a logged batch.
    BatchLog,
}

impl DeepView for WriteType {
    type V = WriteType;

    open spec fn deep_view(&self) -> WriteType {
        *self
    }
}

impl WriteType {
    /// The text that stands for this write type on the wire.
    pub open spec fn spec_name(self) -> Seq<char> {
        match self {
            WriteType::Simple => "SIMPLE"@,
            WriteType::Batch => "BATCH"@,
            WriteType::UnloggedBatch => "UNLOGGED_BATCH"@,
            WriteType::Counter => "COUNTER"@,
            WriteType::BatchLog => "BATCH_LOG"@,
        }
    }

    /// The write type a text stands for, if any.
    pub open spec fn spec_from_name(s: Seq<char>) -> Option<WriteType> {
        if s == "SIMPLE"@ {
            Some(WriteType::Simple)
        } else if s == "BATCH"@ {
            Some(WriteType::Batch)
        } else if s == "UNLOGGED_BATCH"@ {
            Some(WriteType::UnloggedBatch)
        } else if s == "COUNTER"@ {
            Some(WriteType::Counter)
        } else if s == "BATCH_LOG"@ {
            Some(WriteType::BatchLog)
        } else {
            None
        }
    }

    /// The text that stands for this write type on the wire.
    pub fn as_str(&self) -> (r: &'static str)
        ensures
            r@ == self.spec_name(),
    {
        match self {
            WriteType::Simple => "SIMPLE",
            WriteType::Batch => "BATCH",
            WriteType::UnloggedBatch => "UNLOGGED_BATCH",
            WriteType::Counter => "COUNTER",
            WriteType::BatchLog => "BATCH_LOG",
        }
    }

    /// The write type a text stands for; any other text gives `None`.
    pub fn from_name(s: &str) -> (r: Option<WriteType>)
        ensures
            r == WriteType::spec_from_name(s@),
    {
        let b = s.as_bytes();
        proof {
            lemma_encode_utf8_injective(s@, "SIMPLE"@);
            lemma_encode_utf8_injective(s@, "BATCH"@);
            lemma_encode_utf8_injective(s@, "UNLOGGED_BATCH"@);
            lemma_encode_utf8_injective(s@, "COUNTER"@);
            lemma_encode_utf8_injective(s@, "BATCH_LOG"@);
        }
        if bytes_eq(b, "SIMPLE".as_bytes()) {
            Some(WriteType::Simple)
        } else if bytes_eq(b, "BATCH".as_bytes()) {
            Some(WriteType::Batch)
        } else if bytes_eq(b, "UNLOGGED_BATCH".as_bytes()) {
            Some(WriteType::UnloggedBatch)
        } else if bytes_eq(b, "COUNTER".as_bytes()) {
            Some(WriteType::Counter)
        } else if bytes_eq(b, "BATCH_LOG".as_bytes()) {
            Some(WriteType::BatchLog)
        } else {
            None
        }
    }

    /// Reads a `[string]` and the write type it names; any other text is
    /// an error.
    pub fn from_cursor(cursor: &mut ByteReader) -> (r: Result<WriteType, Error>)
        ensures
            parsed_as(r, parse_write_type(old(cursor)@), final(cursor)@),
    {
        let s = match cursor.read_string() {
            Ok(s) => s,
            Err(e) => return Err(e),
        };
        match WriteType::from_name(s.as_str()) {
            Some(w) => Ok(w),
            None => Err(Error::UnexpectedWriteType),
        }
    }
}

fn bytes_eq(a: &[u8], b: &[u8]) -> (r: bool)
    ensures
        r == (a@ == b@),
{
    if a.len() != b.len() {
        return false;
    }
    let mut i: usize = 0;
    while i < a.len()
        invariant
            i <= a.len(),
            a.len() == b.len(),
            forall|j: int| 0 <= j < i ==> a@[j] == b@[j],
        decreases a.len() - i,
    {
        if a[i] != b[i] {
            return false;
        }
        i += 1;
    }
    assert(a@ =~= b@);
    true
}

pub open spec fn parse_write_type(inp: Seq<u8>) -> Parsed<WriteType> {
    match parse_string(inp) {
        Ok((s, rest)) => match WriteType::spec_from_name(s) {
            Some(w) => Ok((w, rest)),
            None => Err(Error::UnexpectedWriteType),
        },
        Err(e) => Err(e),
    }
}

/// Each write type's name decodes back to that write type, and a name that
/// decodes to a write type is that write type's name.
pub proof fn lemma_write_type_names(w: WriteType, s: Seq<char>)
    ensures
        WriteType::spec_from_name(w.spec_name()) == Some(w),
        WriteType::spec_from_name(s) == Some(w) ==> s == w.spec_name(),
{
    reveal_strlit("SIMPLE");
    reveal_strlit("BATCH");
    reveal_strlit("UNLOGGED_BATCH");
    reveal_strlit("COUNTER");
    reveal_strlit("BATCH_LOG");
    assert("SIMPLE"@.len() == 6);
    assert("BATCH"@.len() == 5);
    assert("UNLOGGED_BATCH"@.len() == 14);
    assert("COUNTER"@.len() == 7);
    assert("BATCH_LOG"@.len() == 9);
}

/// The server could not reach enough live replicas.
#[derive(Debug, Clone, Copy, PartialEq, Eq, Hash, Structural)]
pub struct UnavailableError {
    /// Consistency level of the query.
    pub cl: Consistency,
    /// Number of nodes that should be alive to respect `cl`.
    pub required: i32,
    /// Number of replicas that were known to be alive.
    pub alive: i32,
}

impl DeepView for UnavailableError {
    type V = UnavailableError;

    open spec fn deep_view(&self) -> UnavailableError {
        *self
    }
}

pub open spec fn parse_unavailable(inp: Seq<u8>) -> Parsed<UnavailableError> {
    match parse_consistency(inp) {
        Ok((cl, r1)) => match parse_int(r1) {
            Ok((required, r2)) => match parse_int(r2) {
                Ok((alive, r3)) => Ok((UnavailableError { cl, required, alive }, r3)),
                Err(e) => Err(e),
            },
            Err(e) => Err(e),
        },
        Err(e) => Err(e),
    }
}

impl UnavailableError {
    pub fn from_cursor(cursor: &mut ByteReader) -> (r: Result<UnavailableError, Error>)
        ensures
            parsed_as(r, parse_unavailable(old(cursor)@), final(cursor)@),
    {
        let cl = match Consistency::from_cursor(cursor) {
            Ok(v) => v,
            Err(e) => return Err(e),
        };
        let required = match cursor.read_int() {
            Ok(v) => v,
            Err(e) => return Err(e),
        };
        let alive = match cursor.read_int() {
            Ok(v) => v,
            Err(e) => return Err(e),
        };
        Ok(UnavailableError { cl, required, alive })
    }
}

/// A write request timed out.
#[derive(Debug, Clone, Copy, PartialEq, Eq, Hash, Structural)]
pub struct WriteTimeoutError {
    /// Consistency level of the query.
    pub cl: Consistency,
    /// Number of nodes that acknowledged the request.
    pub received: i32,
    /// Number of replicas whose acknowledgement is required to achieve `cl`.
    pub block_for: i32,
    /// The type of the write that timed out.
    pub write_type: WriteType,
}

impl DeepView for WriteTimeoutError {
    type V = WriteTimeoutError;

    open spec fn deep_view(&self) -> WriteTimeoutError {
        *self
    }
}

pub open spec fn parse_write_timeout(inp: Seq<u8>) -> Parsed<WriteTimeoutError> {
    match parse_consistency(inp) {
        Ok((cl, r1)) => match parse_int(r1) {
            Ok((received, r2)) => match parse_int(r2) {
                Ok((block_for, r3)) => match parse_write_type(r3) {
                    Ok((write_type, r4)) => Ok(
                        (WriteTimeoutError { cl, received, block_for, write_type }, r4),
                    ),
                    Err(e) => Err(e),
                },
                Err(e) => Err(e),
            },
            Err(e) => Err(e),
        },
        Err(e) => Err(e),
    }
}

impl WriteTimeoutError {
    pub fn from_cursor(cursor: &mut ByteReader) -> (r: Result<WriteTimeoutError, Error>)
        ensures
            parsed_as(r, parse_write_timeout(old(cursor)@), final(cursor)@),
    {
        let cl = match Consistency::from_cursor(cursor) {
            Ok(v) => v,
            Err(e) => return Err(e),
        };
        let received = match cursor.read_int() {
            Ok(v) => v,
            Err(e) => return Err(e),
        };
        let block_for = match cursor.read_int() {
            Ok(v) => v,
            Err(e) => return Err(e),
        };
        let write_type = match WriteType::from_cursor(cursor) {
            Ok(v) => v,
            Err(e) => return Err(e),
        };
        Ok(WriteTimeoutError { cl, received, block_for, write_type })
    }
}

/// A read request timed out.
#[derive(Debug, Clone, Copy, PartialEq, Eq, Hash)]
pub struct ReadTimeoutError {
    /// Consistency level of the query.
    pub cl: Consistency,
    /// Number of nodes that acknowledged the request.
    pub received: i32,
    /// Number of replicas whose acknowledgement is required to achieve `cl`.
    pub block_for: i32,
    data_present: u8,
}

/// The model of a [`ReadTimeoutError`], with its raw data-present byte.
pub struct ReadTimeoutModel {
    pub cl: Consistency,
    pub received: i32,
    pub block_for: i32,
    pub data_present: u8,
}

impl DeepView for ReadTimeoutError {
    type V = ReadTimeoutModel;

    closed spec fn deep_view(&self) -> ReadTimeoutModel {
        ReadTimeoutModel {
            cl: self.cl,
            received: self.received,
            block_for: self.block_for,
            data_present: self.data_present,
        }
    }
}

pub open spec fn parse_read_timeout(inp: Seq<u8>) -> Parsed<ReadTimeoutModel> {
    match parse_consistency(inp) {
        Ok((cl, r1)) => match parse_int(r1) {
            Ok((received, r2)) => match parse_int(r2) {
                Ok((block_for, r3)) => match parse_byte(r3) {
                    Ok((data_present, r4)) => Ok(
                        (ReadTimeoutModel { cl, received, block_for, data_present }, r4),
                    ),
                    Err(e) => Err(e),
                },
                Err(e) => Err(e),
            },
            Err(e) => Err(e),
        },
        Err(e) => Err(e),
    }
}

impl ReadTimeoutError {
    /// Whether a replica responded to the query.
    pub fn replica_has_responded(&self) -> (r: bool)
        ensures
            r == (self.deep_view().data_present != 0),
    {
        self.data_present != 0
    }

    pub fn from_cursor(cursor: &mut ByteReader) -> (r: Result<ReadTimeoutError, Error>)
        ensures
            parsed_as(r, parse_read_timeout(old(cursor)@), final(cursor)@),
    {
        let cl = match Consistency::from_cursor(cursor) {
            Ok(v) => v,
            Err(e) => return Err(e),
        };
        let received = match cursor.read_int() {
            Ok(v) => v,
            Err(e) => return Err(e),
        };
        let block_for = match cursor.read_int() {
            Ok(v) => v,
            Err(e) => return Err(e),
        };
        let data_present = match cursor.read_byte() {
            Ok(v) => v,
            Err(e) => return Err(e),
        };
        Ok(ReadTimeoutError { cl, received, block_for, data_present })
    }
}

/// A read request failed for a reason other than a timeout.
#[derive(Debug, Clone, Copy, PartialEq, Eq, Hash)]
pub struct ReadFailureError {
    /// Consistency level of the query.
    pub cl: Consistency,
    /// Number of nodes that acknowledged the request.
    pub received: i32,
    /// Number of replicas whose acknowledgement is required to achieve `cl`.
    pub block_for: i32,
    /// Number of nodes that failed while executing the request.
    pub num_failures: i32,
    data_present: u8,
}

/// The model of a [`ReadFailureError`], with its raw data-present byte.
pub struct ReadFailureModel {
    pub cl: Consistency,
    pub received: i32,
    pub block_for: i32,
    pub num_failures: i32,
    pub data_present: u8,
}

impl DeepView for ReadFailureError {
    type V = ReadFailureModel;

    closed spec fn deep_view(&self) -> ReadFailureModel {
        ReadFailureModel {
            cl: self.cl,
            received: self.received,
            block_for: self.block_for,
            num_failures: self.num_failures,
            data_present: self.data_present,
        }
    }
}

pub open spec fn parse_read_failure(inp: Seq<u8>) -> Parsed<ReadFailureModel> {
    match parse_consistency(inp) {
        Ok((cl, r1)) => match parse_int(r1) {
            Ok((received, r2)) => match parse_int(r2) {
                Ok((block_for, r3)) => match parse_int(r3) {
                    Ok((num_failures, r4)) => match parse_byte(r4) {
                        Ok((data_present, r5)) => Ok(
                            (
                                ReadFailureModel {
                                    cl,
                                    received,
                                    block_for,
                                    num_failures,
                                    data_present,
                                },
                                r5,
                            ),
                        ),
                        Err(e) => Err(e),
                    },
                    Err(e) => Err(e),
                },
                Err(e) => Err(e),
            },
            Err(e) => Err(e),
        },
        Err(e) => Err(e),
    }
}

impl ReadFailureError {
    /// Whether a replica responded to the query.
    pub fn replica_has_responded(&self) -> (r: bool)
        ensures
            r == (self.deep_view().data_present != 0),
    {
        self.data_present != 0
    }

    pub fn from_cursor(cursor: &mut ByteReader) -> (r: Result<ReadFailureError, Error>)
        ensures
            parsed_as(r, parse_read_failure(old(cursor)@), final(cursor)@),
    {
        let cl = match Consistency::from_cursor(cursor) {
            Ok(v) => v,
            Err(e) => return Err(e),
        };
        let received = match cursor.read_int() {
            Ok(v) => v,
            Err(e) => return Err(e),
        };
        let block_for = match cursor.read_int() {
            Ok(v) => v,
            Err(e) => return Err(e),
        };
        let num_failures = match cursor.read_int() {
            Ok(v) => v,
            Err(e) => return Err(e),
        };
        let data_present = match cursor.read_byte() {
            Ok(v) => v,
            Err(e) => return Err(e),
        };
        Ok(ReadFailureError { cl, received, block_for, num_failures, data_present })
    }
}

/// A user-defined function failed during execution.
#[derive(Debug, Clone, PartialEq, Eq, Hash)]
pub struct FunctionFailureError {
    /// The keyspace of the failed function.
    pub keyspace: String,
    /// The name of the failed function.
    pub function: String,
    /// The CQL type of each argument of the failed function.
    pub arg_types: Vec<String>,
}

/// The model of a [`FunctionFailureError`].
pub struct FunctionFailureModel {
    pub keyspace: Seq<char>,
    pub function: Seq<char>,
    pub arg_types: Seq<Seq<char>>,
}

impl DeepView for FunctionFailureError {
    type V = FunctionFailureModel;

    open spec fn deep_view(&self) -> FunctionFailureModel {
        FunctionFailureModel {
            keyspace: self.keyspace@,
            function: self.function@,
            arg_types: self.arg_types.deep_view(),
        }
    }
}

pub open spec fn parse_function_failure(inp: Seq<u8>) -> Parsed<FunctionFailureModel> {
    match parse_string(inp) {
        Ok((keyspace, r1)) => match parse_string(r1) {
            Ok((function, r2)) => match parse_string_list(r2) {
                Ok((arg_types, r3)) => Ok((FunctionFailureModel { keyspace, function, arg_types }, r3)),
                Err(e) => Err(e),
            },
            Err(e) => Err(e),
        },
        Err(e) => Err(e),
    }
}

impl FunctionFailureError {
    pub fn from_cursor(cursor: &mut ByteReader) -> (r: Result<FunctionFailureError, Error>)
        ensures
            parsed_as(r, parse_function_failure(old(cursor)@), final(cursor)@),
    {
        let keyspace = match cursor.read_string() {
            Ok(v) => v,
            Err(e) => return Err(e),
        };
        let function = match cursor.read_string() {
            Ok(v) => v,
            Err(e) => return Err(e),
        };
        let arg_types = match cursor.read_string_list() {
            Ok(v) => v,
            Err(e) => return Err(e),
        };
        Ok(FunctionFailureError { keyspace, function, arg_types })
    }
}

/// A write request failed for a reason other than a timeout.
#[derive(Debug, Clone, Copy, PartialEq, Eq, Hash, Structural)]
pub struct WriteFailureError {
    /// Consistency level of the query.
    pub cl: Consistency,
    /// Number of nodes that answered the request.
    pub received: i32,
    /// Number of replicas whose acknowledgement is required to achieve `cl`.
    pub block_for: i32,
    /// Number of nodes that failed while executing the request.
    pub num_failures: i32,
    /// The type of the write that failed.
    pub write_type: WriteType,
}

impl DeepView for WriteFailureError {
    type V = WriteFailureError;

    open spec fn deep_view(&self) -> WriteFailureError {
        *self
    }
}

pub open spec fn parse_write_failure(inp: Seq<u8>) -> Parsed<WriteFailureError> {
    match parse_consistency(inp) {
        Ok((cl, r1)) => match parse_int(r1) {
            Ok((received, r2)) => match parse_int(r2) {
                Ok((block_for, r3)) => match parse_int(r3) {
                    Ok((num_failures, r4)) => match parse_write_type(r4) {
                        Ok((write_type, r5)) => Ok(
                            (
                                WriteFailureError {
                                    cl,
                                    received,
                                    block_for,
                                    num_failures,
                                    write_type,
                                },
                                r5,
                            ),
                        ),
                        Err(e) => Err(e),
                    },
                    Err(e) => Err(e),
                },
                Err(e) => Err(e),
            },
            Err(e) => Err(e),
        },
        Err(e) => Err(e),
    }
}

impl WriteFailureError {
    pub fn from_cursor(cursor: &mut ByteReader) -> (r: Result<WriteFailureError, Error>)
        ensures
            parsed_as(r, parse_write_failure(old(cursor)@), final(cursor)@),
    {
        let cl = match Consistency::from_cursor(cursor) {
            Ok(v) => v,
            Err(e) => return Err(e),
        };
        let received = match cursor.read_int() {
            Ok(v) => v,
            Err(e) => return Err(e),
        };
        let block_for = match cursor.read_int() {
            Ok(v) => v,
            Err(e) => return Err(e),
        };
        let num_failures = match cursor.read_int() {
            Ok(v) => v,
            Err(e) => return Err(e),
        };
        let write_type = match WriteType::from_cursor(cursor) {
            Ok(v) => v,
            Err(e) => return Err(e),
        };
        Ok(WriteFailureError { cl, received, block_for, num_failures, write_type })
    }
}

/// A keyspace or table that a query tried to create exists already.
#[derive(Debug, Clone, PartialEq, Eq, Hash)]
pub struct AlreadyExistsError {
    /// The keyspace that exists, or the keyspace of the table that exists.
    pub ks: String,
    /// The table that exists; empty when it is the keyspace that exists.
    pub table: String,
}

/// The model of an [`AlreadyExistsError`].
pub struct AlreadyExistsModel {
    pub ks: Seq<char>,
    pub table: Seq<char>,
}

impl DeepView for AlreadyExistsError {
    type V = AlreadyExistsModel;

    open spec fn deep_view(&self) -> AlreadyExistsModel {
        AlreadyExistsModel { ks: self.ks@, table: self.table@ }
    }
}

pub open spec fn parse_already_exists(inp: Seq<u8>) -> Parsed<AlreadyExistsModel> {
    match parse_string(inp) {
        Ok((ks, r1)) => match parse_string(r1) {
            Ok((table, r2)) => Ok((AlreadyExistsModel { ks, table }, r2)),
            Err(e) => Err(e),
        },
        Err(e) => Err(e),
    }
}

impl AlreadyExistsError {
    pub fn from_cursor(cursor: &mut ByteReader) -> (r: Result<AlreadyExistsError, Error>)
        ensures
            parsed_as(r, parse_already_exists(old(cursor)@), final(cursor)@),
    {
        let ks = match cursor.read_string() {
            Ok(v) => v,
            Err(e) => return Err(e),
        };
        let table = match cursor.read_string() {
            Ok(v) => v,
            Err(e) => return Err(e),
        };
        Ok(AlreadyExistsError { ks, table })
    }
}

/// A prepared statement was executed whose id this host does not know.
#[derive(Debug, Clone, PartialEq, Eq, Hash)]
pub struct UnpreparedError {
    /// The unknown id.
    pub id: Vec<u8>,
}

/// The model of an [`UnpreparedError`].
pub struct UnpreparedModel {
    pub id: Seq<u8>,
}

impl DeepView for UnpreparedError {
    type V = UnpreparedModel;

    open spec fn deep_view(&self) -> UnpreparedModel {
        UnpreparedModel { id: self.id@ }
    }
}

pub open spec fn parse_unprepared(inp: Seq<u8>) -> Parsed<UnpreparedModel> {
    lift(parse_short_bytes(inp), |id: Seq<u8>| UnpreparedModel { id })
}

impl UnpreparedError {
    pub fn from_cursor(cursor: &mut ByteReader) -> (r: Result<UnpreparedError, Error>)
        ensures
            parsed_as(r, parse_unprepared(old(cursor)@), final(cursor)@),
    {
        match cursor.read_short_bytes() {
            Ok(id) => {
                assert(id.deep_view() =~= id@);
                Ok(UnpreparedError { id })
            },
            Err(e) => Err(e),
        }
    }
}

/// The additional information of a server error; which variant comes is
/// decided by the error code alone.
#[derive(Debug, Clone, PartialEq, Eq, Hash)]
pub enum AdditionalErrorInfo {
    Server,
    Protocol,
    Authentication,
    Unavailable(UnavailableError),
    Overloaded,
    IsBootstrapping,
    Truncate,
    WriteTimeout(WriteTimeoutError),
    ReadTimeout(ReadTimeoutError),
    ReadFailure(ReadFailureError),
    FunctionFailure(FunctionFailureError),
    WriteFailure(WriteFailureError),
    Syntax,
    Unauthorized,
    Invalid,
    Config,
    AlreadyExists(AlreadyExistsError),
    Unprepared(UnpreparedError),
}

/// The model of an [`AdditionalErrorInfo`].
pub enum AdditionalErrorInfoModel {
    Server,
    Protocol,
    Authentication,
    Unavailable(UnavailableError),
    Overloaded,
    IsBootstrapping,
    Truncate,
    WriteTimeout(WriteTimeoutError),
    ReadTimeout(ReadTimeoutModel),
    ReadFailure(ReadFailureModel),
    FunctionFailure(FunctionFailureModel),
    WriteFailure(WriteFailureError),
    Syntax,
    Unauthorized,
    Invalid,
    Config,
    AlreadyExists(AlreadyExistsModel),
    Unprepared(UnpreparedModel),
}

impl DeepView for AdditionalErrorInfo {
    type V = AdditionalErrorInfoModel;

    open spec fn deep_view(&self) -> AdditionalErrorInfoModel {
        match self {
            AdditionalErrorInfo::Server => AdditionalErrorInfoModel::Server,
            AdditionalErrorInfo::Protocol => AdditionalErrorInfoModel::Protocol,
            AdditionalErrorInfo::Authentication => AdditionalErrorInfoModel::Authentication,
            AdditionalErrorInfo::Unavailable(e) => AdditionalErrorInfoModel::Unavailable(*e),
            AdditionalErrorInfo::Overloaded => AdditionalErrorInfoModel::Overloaded,
            AdditionalErrorInfo::IsBootstrapping => AdditionalErrorInfoModel::IsBootstrapping,
            AdditionalErrorInfo::Truncate => AdditionalErrorInfoModel::Truncate,
            AdditionalErrorInfo::WriteTimeout(e) => AdditionalErrorInfoModel::WriteTimeout(*e),
            AdditionalErrorInfo::ReadTimeout(e) => AdditionalErrorInfoModel::ReadTimeout(
                e.deep_view(),
            ),
            AdditionalErrorInfo::ReadFailure(e) => AdditionalErrorInfoModel::ReadFailure(
                e.deep_view(),
            ),
            AdditionalErrorInfo::FunctionFailure(e) => AdditionalErrorInfoModel::FunctionFailure(
                e.deep_view(),
            ),
            AdditionalErrorInfo::WriteFailure(e) => AdditionalErrorInfoModel::WriteFailure(*e),
            AdditionalErrorInfo::Syntax => AdditionalErrorInfoModel::Syntax,
            AdditionalErrorInfo::Unauthorized => AdditionalErrorInfoModel::Unauthorized,
            AdditionalErrorInfo::Invalid => AdditionalErrorInfoModel::Invalid,
            AdditionalErrorInfo::Config => AdditionalErrorInfoModel::Config,
            AdditionalErrorInfo::AlreadyExists(e) => AdditionalErrorInfoModel::AlreadyExists(
                e.deep_view(),
            ),
            AdditionalErrorInfo::Unprepared(e) => AdditionalErrorInfoModel::Unprepared(
                e.deep_view(),
            ),
        }
    }
}

/// Decoding of the additional information that follows an error with code
/// `code`. A code that the protocol does not define is an error.
pub open spec fn parse_additional_info(code: i32, inp: Seq<u8>) -> Parsed<
    AdditionalErrorInfoModel,
> {
    if code == 0x0000 {
        Ok((AdditionalErrorInfoModel::Server, inp))
    } else if code == 0x000A {
        Ok((AdditionalErrorInfoModel::Protocol, inp))
    } else if code == 0x0100 {
        Ok((AdditionalErrorInfoModel::Authentication, inp))
    } else if code == 0x1000 {
        lift(parse_unavailable(inp), |e| AdditionalErrorInfoModel::Unavailable(e))
    } else if code == 0x1001 {
        Ok((AdditionalErrorInfoModel::Overloaded, inp))
    } else if code == 0x1002 {
        Ok((AdditionalErrorInfoModel::IsBootstrapping, inp))
    } else if code == 0x1003 {
        Ok((AdditionalErrorInfoModel::Truncate, inp))
    } else if code == 0x1100 {
        lift(parse_write_timeout(inp), |e| AdditionalErrorInfoModel::WriteTimeout(e))
    } else if code == 0x1200 {
        lift(parse_read_timeout(inp), |e| AdditionalErrorInfoModel::ReadTimeout(e))
    } else if code == 0x1300 {
        lift(parse_read_failure(inp), |e| AdditionalErrorInfoModel::ReadFailure(e))
    } else if code == 0x1400 {
        lift(parse_function_failure(inp), |e| AdditionalErrorInfoModel::FunctionFailure(e))
    } else if code == 0x1500 {
        lift(parse_write_failure(inp), |e| AdditionalErrorInfoModel::WriteFailure(e))
    } else if code == 0x2000 {
        Ok((AdditionalErrorInfoModel::Syntax, inp))
    } else if code == 0x2100 {
        Ok((AdditionalErrorInfoModel::Unauthorized, inp))
    } else if code == 0x2200 {
        Ok((AdditionalErrorInfoModel::Invalid, inp))
    } else if code == 0x2300 {
        Ok((AdditionalErrorInfoModel::Config, inp))
    } else if code == 0x2400 {
        lift(parse_already_exists(inp), |e| AdditionalErrorInfoModel::AlreadyExists(e))
    } else if code == 0x2500 {
        lift(parse_unprepared(inp), |e| AdditionalErrorInfoModel::Unprepared(e))
    } else {
        Err(Error::UnexpectedErrorCode(code))
    }
}

impl AdditionalErrorInfo {
    /// Reads the additional information that an error with code
    /// `error_code` carries.
    pub fn from_cursor_with_code(cursor: &mut ByteReader, error_code: i32) -> (r: Result<
        AdditionalErrorInfo,
        Error,
    >)
        ensures
            parsed_as(r, parse_additional_info(error_code, old(cursor)@), final(cursor)@),
    {
        match error_code {
            0x0000 => Ok(AdditionalErrorInfo::Server),
            0x000A => Ok(AdditionalErrorInfo::Protocol),
            0x0100 => Ok(AdditionalErrorInfo::Authentication),
            0x1000 => match UnavailableError::from_cursor(cursor) {
                Ok(e) => Ok(AdditionalErrorInfo::Unavailable(e)),
                Err(e) => Err(e),
            },
            0x1001 => Ok(AdditionalErrorInfo::Overloaded),
            0x1002 => Ok(AdditionalErrorInfo::IsBootstrapping),
            0x1003 => Ok(AdditionalErrorInfo::Truncate),
            0x1100 => match WriteTimeoutError::from_cursor(cursor) {
                Ok(e) => Ok(AdditionalErrorInfo::WriteTimeout(e)),
                Err(e) => Err(e),
            },
            0x1200 => match ReadTimeoutError::from_cursor(cursor) {
                Ok(e) => Ok(AdditionalErrorInfo::ReadTimeout(e)),
                Err(e) => Err(e),
            },
            0x1300 => match ReadFailureError::from_cursor(cursor) {
                Ok(e) => Ok(AdditionalErrorInfo::ReadFailure(e)),
                Err(e) => Err(e),
            },
            0x1400 => match FunctionFailureError::from_cursor(cursor) {
                Ok(e) => Ok(AdditionalErrorInfo::FunctionFailure(e)),
                Err(e) => Err(e),
            },
            0x1500 => match WriteFailureError::from_cursor(cursor) {
                Ok(e) => Ok(AdditionalErrorInfo::WriteFailure(e)),
                Err(e) => Err(e),
            },
            0x2000 => Ok(AdditionalErrorInfo::Syntax),
            0x2100 => Ok(AdditionalErrorInfo::Unauthorized),
            0x2200 => Ok(AdditionalErrorInfo::Invalid),
            0x2300 => Ok(AdditionalErrorInfo::Config),
            0x2400 => match AlreadyExistsError::from_cursor(cursor) {
                Ok(e) => Ok(AdditionalErrorInfo::AlreadyExists(e)),
                Err(e) => Err(e),
            },
            0x2500 => match UnpreparedError::from_cursor(cursor) {
                Ok(e) => Ok(AdditionalErrorInfo::Unprepared(e)),
                Err(e) => Err(e),
            },
            _ => Err(Error::UnexpectedErrorCode(error_code)),
        }
    }
}

/// An error that a server reported: its code, its message, and the
/// additional information that the code calls for.
#[derive(Debug, Clone, PartialEq, Eq, Hash)]
pub struct CdrsError {
    /// The kind of error.
    pub error_code: i32,
    /// The error message.
    pub message: String,
    /// The additional information.
    pub additional_info: AdditionalErrorInfo,
}

/// The model of a [`CdrsError`].
pub struct CdrsErrorModel {
    pub error_code: i32,
    pub message: Seq<char>,
    pub additional_info: AdditionalErrorInfoModel,
}

impl DeepView for CdrsError {
    type V = CdrsErrorModel;

    open spec fn deep_view(&self) -> CdrsErrorModel {
        CdrsErrorModel {
            error_code: self.error_code,
            message: self.message@,
            additional_info: self.additional_info.deep_view(),
        }
    }
}

/// Decoding of an error body: an `[int]` code, a `[string]` message, then
/// the additional information for that code.
pub open spec fn parse_cdrs_error(inp: Seq<u8>) -> Parsed<CdrsErrorModel> {
    match parse_int(inp) {
        Ok((error_code, r1)) => match parse_string(r1) {
            Ok((message, r2)) => match parse_additional_info(error_code, r2) {
                Ok((additional_info, r3)) => Ok(
                    (CdrsErrorModel { error_code, message, additional_info }, r3),
                ),
                Err(e) => Err(e),
            },
            Err(e) => Err(e),
        },
        Err(e) => Err(e),
    }
}

impl CdrsError {
    /// Reads an error body.
    pub fn from_cursor(cursor: &mut ByteReader) -> (r: Result<CdrsError, Error>)
        ensures
            parsed_as(r, parse_cdrs_error(old(cursor)@), final(cursor)@),
    {
        let error_code = match cursor.read_int() {
            Ok(v) => v,
            Err(e) => return Err(e),
        };
        let message = match cursor.read_string() {
            Ok(v) => v,
            Err(e) => return Err(e),
        };
        let additional_info = match AdditionalErrorInfo::from_cursor_with_code(cursor, error_code) {
            Ok(v) => v,
            Err(e) => return Err(e),
        };
        Ok(CdrsError { error_code, message, additional_info })
    }
}

/// Wire form of a write type: its name as a `[string]`.
pub open spec fn write_type_enc(w: WriteType) -> Seq<u8> {
    string_enc(w.spec_name())
}

/// Decoding a write type that was encoded gives it back.
pub proof fn lemma_write_type_round_trip(w: WriteType, tail: Seq<u8>)
    ensures
        parse_write_type(write_type_enc(w) + tail) == Ok::<(WriteType, Seq<u8>), Error>((w, tail)),
{
    lemma_write_type_names(w, w.spec_name());
    reveal_strlit("SIMPLE");
    reveal_strlit("BATCH");
    reveal_strlit("UNLOGGED_BATCH");
    reveal_strlit("COUNTER");
    reveal_strlit("BATCH_LOG");
    assert(w.spec_name().len() <= 14);
    lemma_encode_utf8_len(w.spec_name());
    lemma_string_round_trip(w.spec_name(), tail);
}

/// The codes that the protocol defines for server errors.
pub open spec fn is_error_code(code: i32) -> bool {
    code == 0x0000 || code == 0x000A || code == 0x0100 || code == 0x1000 || code == 0x1001 || code
        == 0x1002 || code == 0x1003 || code == 0x1100 || code == 0x1200 || code == 0x1300 || code
        == 0x1400 || code == 0x1500 || code == 0x2000 || code == 0x2100 || code == 0x2200 || code
        == 0x2300 || code == 0x2400 || code == 0x2500
}

/// The error code that goes with each shape of additional information.
pub open spec fn info_code(m: AdditionalErrorInfoModel) -> i32 {
    match m {
        AdditionalErrorInfoModel::Server => 0x0000,
        AdditionalErrorInfoModel::Protocol => 0x000A,
        AdditionalErrorInfoModel::Authentication => 0x0100,
        AdditionalErrorInfoModel::Unavailable(_) => 0x1000,
        AdditionalErrorInfoModel::Overloaded => 0x1001,
        AdditionalErrorInfoModel::IsBootstrapping => 0x1002,
        AdditionalErrorInfoModel::Truncate => 0x1003,
        AdditionalErrorInfoModel::WriteTimeout(_) => 0x1100,
        AdditionalErrorInfoModel::ReadTimeout(_) => 0x1200,
        AdditionalErrorInfoModel::ReadFailure(_) => 0x1300,
        AdditionalErrorInfoModel::FunctionFailure(_) => 0x1400,
        AdditionalErrorInfoModel::WriteFailure(_) => 0x1500,
        AdditionalErrorInfoModel::Syntax => 0x2000,
        AdditionalErrorInfoModel::Unauthorized => 0x2100,
        AdditionalErrorInfoModel::Invalid => 0x2200,
        AdditionalErrorInfoModel::Config => 0x2300,
        AdditionalErrorInfoModel::AlreadyExists(_) => 0x2400,
        AdditionalErrorInfoModel::Unprepared(_) => 0x2500,
    }
}

/// The payload bytes of each shape of additional information.
pub open spec fn info_enc(m: AdditionalErrorInfoModel) -> Seq<u8> {
    match m {
        AdditionalErrorInfoModel::Unavailable(e) => short_bytes(e.cl.spec_code()) + int_bytes(
            e.required,
        ) + int_bytes(e.alive),
        AdditionalErrorInfoModel::WriteTimeout(e) => short_bytes(e.cl.spec_code()) + int_bytes(
            e.received,
        ) + int_bytes(e.block_for) + write_type_enc(e.write_type),
        AdditionalErrorInfoModel::ReadTimeout(e) => short_bytes(e.cl.spec_code()) + int_bytes(
            e.received,
        ) + int_bytes(e.block_for) + seq![e.data_present],
        AdditionalErrorInfoModel::ReadFailure(e) => short_bytes(e.cl.spec_code()) + int_bytes(
            e.received,
        ) + int_bytes(e.block_for) + int_bytes(e.num_failures) + seq![e.data_present],
        AdditionalErrorInfoModel::FunctionFailure(e) => string_enc(e.keyspace) + string_enc(
            e.function,
        ) + string_list_enc(e.arg_types),
        AdditionalErrorInfoModel::WriteFailure(e) => short_bytes(e.cl.spec_code()) + int_bytes(
            e.received,
        ) + int_bytes(e.block_for) + int_bytes(e.num_failures) + write_type_enc(e.write_type),
        AdditionalErrorInfoModel::AlreadyExists(e) => string_enc(e.ks) + string_enc(e.table),
        AdditionalErrorInfoModel::Unprepared(e) => short_bytes_enc(e.id),
        _ => seq![],
    }
}

/// Additional information whose texts and ids fit their 2-byte lengths.
pub open spec fn info_fits(m: AdditionalErrorInfoModel) -> bool {
    match m {
        AdditionalErrorInfoModel::FunctionFailure(e) => fits_string(e.keyspace) && fits_string(
            e.function,
        ) && fits_string_list(e.arg_types),
        AdditionalErrorInfoModel::AlreadyExists(e) => fits_string(e.ks) && fits_string(e.table),
        AdditionalErrorInfoModel::Unprepared(e) => e.id.len() <= u16::MAX,
        _ => true,
    }
}

proof fn lemma_unavailable_round_trip(e: UnavailableError, tail: Seq<u8>)
    ensures
        parse_unavailable(info_enc(AdditionalErrorInfoModel::Unavailable(e)) + tail) == Ok::<
            (UnavailableError, Seq<u8>),
            Error,
        >((e, tail)),
{
    let t2 = int_bytes(e.alive) + tail;
    let t1 = int_bytes(e.required) + t2;
    assert(info_enc(AdditionalErrorInfoModel::Unavailable(e)) + tail =~= short_bytes(
        e.cl.spec_code(),
    ) + t1);
    lemma_consistency_round_trip(e.cl, t1);
    lemma_int_round_trip(e.required, t2);
    lemma_int_round_trip(e.alive, tail);
}

proof fn lemma_write_timeout_round_trip(e: WriteTimeoutError, tail: Seq<u8>)
    ensures
        parse_write_timeout(info_enc(AdditionalErrorInfoModel::WriteTimeout(e)) + tail) == Ok::<
            (WriteTimeoutError, Seq<u8>),
            Error,
        >((e, tail)),
{
    let t3 = write_type_enc(e.write_type) + tail;
    let t2 = int_bytes(e.block_for) + t3;
    let t1 = int_bytes(e.received) + t2;
    assert(info_enc(AdditionalErrorInfoModel::WriteTimeout(e)) + tail =~= short_bytes(
        e.cl.spec_code(),
    ) + t1);
    lemma_consistency_round_trip(e.cl, t1);
    lemma_int_round_trip(e.received, t2);
    lemma_int_round_trip(e.block_for, t3);
    lemma_write_type_round_trip(e.write_type, tail);
}

proof fn lemma_read_timeout_round_trip(e: ReadTimeoutModel, tail: Seq<u8>)
    ensures
        parse_read_timeout(info_enc(AdditionalErrorInfoModel::ReadTimeout(e)) + tail) == Ok::<
            (ReadTimeoutModel, Seq<u8>),
            Error,
        >((e, tail)),
{
    let t3 = seq![e.data_present] + tail;
    let t2 = int_bytes(e.block_for) + t3;
    let t1 = int_bytes(e.received) + t2;
    assert(info_enc(AdditionalErrorInfoModel::ReadTimeout(e)) + tail =~= short_bytes(
        e.cl.spec_code(),
    ) + t1);
    lemma_consistency_round_trip(e.cl, t1);
    lemma_int_round_trip(e.received, t2);
    lemma_int_round_trip(e.block_for, t3);
    lemma_byte_round_trip(e.data_present, tail);
}

proof fn lemma_read_failure_round_trip(e: ReadFailureModel, tail: Seq<u8>)
    ensures
        parse_read_failure(info_enc(AdditionalErrorInfoModel::ReadFailure(e)) + tail) == Ok::<
            (ReadFailureModel, Seq<u8>),
            Error,
        >((e, tail)),
{
    let t4 = seq![e.data_present] + tail;
    let t3 = int_bytes(e.num_failures) + t4;
    let t2 = int_bytes(e.block_for) + t3;
    let t1 = int_bytes(e.received) + t2;
    assert(info_enc(AdditionalErrorInfoModel::ReadFailure(e)) + tail =~= short_bytes(
        e.cl.spec_code(),
    ) + t1);
    lemma_consistency_round_trip(e.cl, t1);
    lemma_int_round_trip(e.received, t2);
    lemma_int_round_trip(e.block_for, t3);
    lemma_int_round_trip(e.num_failures, t4);
    lemma_byte_round_trip(e.data_present, tail);
}

proof fn lemma_function_failure_round_trip(e: FunctionFailureModel, tail: Seq<u8>)
    requires
        info_fits(AdditionalErrorInfoModel::FunctionFailure(e)),
    ensures
        parse_function_failure(info_enc(AdditionalErrorInfoModel::FunctionFailure(e)) + tail)
            == Ok::<(FunctionFailureModel, Seq<u8>), Error>((e, tail)),
{
    let t2 = string_list_enc(e.arg_types) + tail;
    let t1 = string_enc(e.function) + t2;
    assert(info_enc(AdditionalErrorInfoModel::FunctionFailure(e)) + tail =~= string_enc(
        e.keyspace,
    ) + t1);
    lemma_string_round_trip(e.keyspace, t1);
    lemma_string_round_trip(e.function, t2);
    lemma_string_list_round_trip(e.arg_types, tail);
}

proof fn lemma_write_failure_round_trip(e: WriteFailureError, tail: Seq<u8>)
    ensures
        parse_write_failure(info_enc(AdditionalErrorInfoModel::WriteFailure(e)) + tail) == Ok::<
            (WriteFailureError, Seq<u8>),
            Error,
        >((e, tail)),
{
    let t4 = write_type_enc(e.write_type) + tail;
    let t3 = int_bytes(e.num_failures) + t4;
    let t2 = int_bytes(e.block_for) + t3;
    let t1 = int_bytes(e.received) + t2;
    assert(info_enc(AdditionalErrorInfoModel::WriteFailure(e)) + tail =~= short_bytes(
        e.cl.spec_code(),
    ) + t1);
    lemma_consistency_round_trip(e.cl, t1);
    lemma_int_round_trip(e.received, t2);
    lemma_int_round_trip(e.block_for, t3);
    lemma_int_round_trip(e.num_failures, t4);
    lemma_write_type_round_trip(e.write_type, tail);
}

proof fn lemma_already_exists_round_trip(e: AlreadyExistsModel, tail: Seq<u8>)
    requires
        info_fits(AdditionalErrorInfoModel::AlreadyExists(e)),
    ensures
        parse_already_exists(info_enc(AdditionalErrorInfoModel::AlreadyExists(e)) + tail) == Ok::<
            (AlreadyExistsModel, Seq<u8>),
            Error,
        >((e, tail)),
{
    let t1 = string_enc(e.table) + tail;
    assert(info_enc(AdditionalErrorInfoModel::AlreadyExists(e)) + tail =~= string_enc(e.ks) + t1);
    lemma_string_round_trip(e.ks, t1);
    lemma_string_round_trip(e.table, tail);
}

/// Every shape of additional information has a defined code, and decoding
/// its payload under that code gives back that shape with every field.
#[verifier::spinoff_prover]
pub proof fn lemma_additional_info_round_trip(m: AdditionalErrorInfoModel, tail: Seq<u8>)
    requires
        info_fits(m),
    ensures
        is_error_code(info_code(m)),
        parse_additional_info(info_code(m), info_enc(m) + tail) == Ok::<
            (AdditionalErrorInfoModel, Seq<u8>),
            Error,
        >((m, tail)),
{
    match m {
        AdditionalErrorInfoModel::Unavailable(e) => lemma_unavailable_round_trip(e, tail),
        AdditionalErrorInfoModel::WriteTimeout(e) => lemma_write_timeout_round_trip(e, tail),
        AdditionalErrorInfoModel::ReadTimeout(e) => lemma_read_timeout_round_trip(e, tail),
        AdditionalErrorInfoModel::ReadFailure(e) => lemma_read_failure_round_trip(e, tail),
        AdditionalErrorInfoModel::FunctionFailure(e) => lemma_function_failure_round_trip(e, tail),
        AdditionalErrorInfoModel::WriteFailure(e) => lemma_write_failure_round_trip(e, tail),
        AdditionalErrorInfoModel::AlreadyExists(e) => lemma_already_exists_round_trip(e, tail),
        AdditionalErrorInfoModel::Unprepared(e) => lemma_short_bytes_round_trip(e.id, tail),
        _ => {
            assert(info_enc(m) + tail =~= tail);
        },
    }
}

/// A code that the protocol does not define fails decoding, whatever
/// follows it.
pub proof fn lemma_unknown_error_code(code: i32, inp: Seq<u8>)
    requires
        !is_error_code(code),
    ensures
        parse_additional_info(code, inp) == Err::<(AdditionalErrorInfoModel, Seq<u8>), Error>(
            Error::UnexpectedErrorCode(code),
        ),
{
}

} // verus!
