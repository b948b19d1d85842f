use vstd::prelude::*;

verus! {

/// Why a byte sequence could not be decoded.
#[derive(Debug, Clone, Copy, PartialEq, Eq, Structural)]
pub enum Error {
    /// Fewer bytes remain than the field being read needs.
    Truncated,
    /// A text field does not hold valid UTF-8.
    InvalidUtf8,
    /// A value's length prefix is negative but neither null nor not-set.
    InvalidValueLength(i32),
    /// A consistency tag that the protocol does not define.
    UnknownConsistency(i16),
    /// An error code for which no additional information shape is known.
    UnexpectedErrorCode(i32),
    /// A write type text that is not one of the defined names.
    UnexpectedWriteType,
    /// A frame header names a protocol version that is not supported.
    UnsupportedVersion(u8),
    /// A frame header holds an opcode that the protocol does not define.
    UnknownOpcode(u8),
    /// A frame's declared body length is negative or exceeds the bytes that
    /// follow the header.
    BodyLengthMismatch(i32),
}

} // verus!
