//! Request frames: envelope fields and the bodies of OPTIONS and EXECUTE.
use vstd::prelude::*;

use crate::codec::{
    int_bytes, lemma_byte_round_trip, lemma_int_round_trip, lemma_short_round_trip, parse_byte,
    parse_int, parse_short, parsed_as, short_bytes, short_bytes_enc, write_byte, write_int,
    write_raw, write_short, write_short_bytes, ByteReader, Parsed,
};
use crate::error::Error;
use crate::query::{params_fit, query_params_enc, QueryParams};
use crate::value::Uuid;

verus! {

/// Protocol version a frame is tagged with.
#[derive(Debug, Clone, Copy, PartialEq, Eq, Hash, Structural)]
pub enum Version {
    V3,
    V4,
    V5,
}

/// Whether a frame goes to the server or comes from it.
#[derive(Debug, Clone, Copy, PartialEq, Eq, Hash, Structural)]
pub enum Direction {
    Request,
    Response,
}

/// The frame flags, as the bit set carried on the wire.
#[derive(Debug, Clone, Copy, PartialEq, Eq, Hash, Structural)]
pub struct Flags {
    pub bits: u8,
}

impl Flags {
    pub const COMPRESSION: u8 = 0x01;

    pub const TRACING: u8 = 0x02;

    pub const CUSTOM_PAYLOAD: u8 = 0x04;

    pub const WARNING: u8 = 0x08;

    /// No flag set.
    pub fn empty() -> (r: Flags)
        ensures
            r.bits == 0,
    {
        Flags { bits: 0 }
    }

    /// Whether every bit of `mask` is set.
    pub fn contains(&self, mask: u8) -> (r: bool)
        ensures
            r == (self.bits & mask == mask),
    {
        self.bits & mask == mask
    }
}

/// The kind of a frame.
#[derive(Debug, Clone, Copy, PartialEq, Eq, Hash, Structural)]
pub enum Opcode {
    Error,
    Startup,
    Ready,
    Authenticate,
    Options,
    Supported,
    Query,
    Result,
    Prepare,
    Execute,
    Register,
    Event,
    Batch,
    AuthChallenge,
    AuthResponse,
    AuthSuccess,
}

/// One protocol message.
#[derive(Debug, Clone, PartialEq, Eq)]
pub struct Frame {
    pub version: Version,
    pub direction: Direction,
    pub flags: Flags,
    pub opcode: Opcode,
    pub stream_id: i16,
    pub body: Vec<u8>,
    pub tracing_id: Option<Uuid>,
    pub warnings: Vec<String>,
}

impl Frame {
    /// A frame on stream 0 that holds `body` as it is.
    pub fn new(
        version: Version,
        direction: Direction,
        flags: Flags,
        opcode: Opcode,
        body: Vec<u8>,
        tracing_id: Option<Uuid>,
        warnings: Vec<String>,
    ) -> (r: Frame)
        ensures
            r.version == version,
            r.direction == direction,
            r.flags == flags,
            r.opcode == opcode,
            r.stream_id == 0,
            r.body@ == body@,
            r.tracing_id == tracing_id,
            r.warnings@ == warnings@,
    {
        Frame { version, direction, flags, opcode, stream_id: 0, body, tracing_id, warnings }
    }

    /// A request of type OPTIONS: no flags and an empty body.
    pub fn new_req_options(version: Version) -> (r: Frame)
        ensures
            r.version == version,
            r.direction == Direction::Request,
            r.flags.bits == 0,
            r.opcode == Opcode::Options,
            r.stream_id == 0,
            r.body@ == Seq::<u8>::empty(),
            r.tracing_id is None,
            r.warnings@.len() == 0,
    {
        let body = BodyReqOptions;
        Frame::new(
            version,
            Direction::Request,
            Flags::empty(),
            Opcode::Options,
            body.serialize_to_vec(),
            None,
            Vec::new(),
        )
    }

    /// A request of type EXECUTE for the prepared statement `id`.
    pub fn new_req_execute(
        id: &Vec<u8>,
        query_parameters: &QueryParams,
        flags: Flags,
        version: Version,
    ) -> (r: Frame)
        requires
            id.len() <= u16::MAX,
            params_fit(query_parameters.values_model()),
        ensures
            r.version == version,
            r.direction == Direction::Request,
            r.flags == flags,
            r.opcode == Opcode::Execute,
            r.stream_id == 0,
            r.body@ == execute_body_enc(id@, query_parameters),
            r.tracing_id is None,
            r.warnings@.len() == 0,
    {
        let body = BodyReqExecute::new(id, query_parameters);
        Frame::new(
            version,
            Direction::Request,
            flags,
            Opcode::Execute,
            body.serialize_to_vec(),
            None,
            Vec::new(),
        )
    }
}

/// The body of an OPTIONS request, which is empty.
#[derive(Debug, Clone, Copy, PartialEq, Eq, Default)]
pub struct BodyReqOptions;

impl BodyReqOptions {
    /// Appends nothing.
    pub fn serialize(&self, out: &mut Vec<u8>)
        ensures
            final(out)@ == old(out)@,
    {
    }

    pub fn serialize_to_vec(&self) -> (r: Vec<u8>)
        ensures
            r@ == Seq::<u8>::empty(),
    {
        Vec::new()
    }
}

/// Wire form of an EXECUTE body: the statement id as `[short bytes]`, then
/// the query parameters.
pub open spec fn execute_body_enc(id: Seq<u8>, params: &QueryParams) -> Seq<u8> {
    short_bytes_enc(id) + query_params_enc(params.consistency, params.values_model())
}

/// The body of an EXECUTE request.
#[derive(Debug)]
pub struct BodyReqExecute<'a> {
    pub id: &'a Vec<u8>,
    pub query_parameters: &'a QueryParams,
}

impl<'a> BodyReqExecute<'a> {
    pub fn new(id: &'a Vec<u8>, query_parameters: &'a QueryParams) -> (r: BodyReqExecute<'a>)
        ensures
            r.id == id,
            r.query_parameters == query_parameters,
    {
        BodyReqExecute { id, query_parameters }
    }

    /// Appends the body's wire form.
    pub fn serialize(&self, out: &mut Vec<u8>)
        requires
            self.id.len() <= u16::MAX,
            params_fit(self.query_parameters.values_model()),
        ensures
            final(out)@ == old(out)@ + execute_body_enc(self.id@, self.query_parameters),
    {
        write_short_bytes(out, self.id.as_slice());
        self.query_parameters.serialize(out);
        assert(out@ =~= old(out)@ + execute_body_enc(self.id@, self.query_parameters));
    }

    pub fn serialize_to_vec(&self) -> (r: Vec<u8>)
        requires
            self.id.len() <= u16::MAX,
            params_fit(self.query_parameters.values_model()),
        ensures
            r@ == execute_body_enc(self.id@, self.query_parameters),
    {
        let mut out: Vec<u8> = Vec::new();
        self.serialize(&mut out);
        assert(out@ =~= execute_body_enc(self.id@, self.query_parameters));
        out
    }
}

impl Version {
    /// The version number carried in the low bits of a frame's first byte.
    pub open spec fn spec_code(self) -> u8 {
        match self {
            Version::V3 => 0x03,
            Version::V4 => 0x04,
            Version::V5 => 0x05,
        }
    }

    pub open spec fn spec_from_code(c: u8) -> Option<Version> {
        if c == 0x03 {
            Some(Version::V3)
        } else if c == 0x04 {
            Some(Version::V4)
        } else if c == 0x05 {
            Some(Version::V5)
        } else {
            None
        }
    }

    pub fn code(&self) -> (r: u8)
        ensures
            r == self.spec_code(),
    {
        match self {
            Version::V3 => 0x03,
            Version::V4 => 0x04,
            Version::V5 => 0x05,
        }
    }

    pub fn from_code(c: u8) -> (r: Option<Version>)
        ensures
            r == Version::spec_from_code(c),
    {
        match c {
            0x03 => Some(Version::V3),
            0x04 => Some(Version::V4),
            0x05 => Some(Version::V5),
            _ => None,
        }
    }
}

/// The high bit of a frame's first byte, set on responses.
pub const RESPONSE_BIT: u8 = 0x80;

impl Opcode {
    /// The byte that stands for this opcode on the wire.
    pub open spec fn spec_code(self) -> u8 {
        match self {
            Opcode::Error => 0x00,
            Opcode::Startup => 0x01,
            Opcode::Ready => 0x02,
            Opcode::Authenticate => 0x03,
            Opcode::Options => 0x05,
            Opcode::Supported => 0x06,
            Opcode::Query => 0x07,
            Opcode::Result => 0x08,
            Opcode::Prepare => 0x09,
            Opcode::Execute => 0x0A,
            Opcode::Register => 0x0B,
            Opcode::Event => 0x0C,
            Opcode::Batch => 0x0D,
            Opcode::AuthChallenge => 0x0E,
            Opcode::AuthResponse => 0x0F,
            Opcode::AuthSuccess => 0x10,
        }
    }

    pub open spec fn spec_from_code(c: u8) -> Option<Opcode> {
        if c == 0x00 {
            Some(Opcode::Error)
        } else if c == 0x01 {
            Some(Opcode::Startup)
        } else if c == 0x02 {
            Some(Opcode::Ready)
        } else if c == 0x03 {
            Some(Opcode::Authenticate)
        } else if c == 0x05 {
            Some(Opcode::Options)
        } else if c == 0x06 {
            Some(Opcode::Supported)
        } else if c == 0x07 {
            Some(Opcode::Query)
        } else if c == 0x08 {
            Some(Opcode::Result)
        } else if c == 0x09 {
            Some(Opcode::Prepare)
        } else if c == 0x0A {
            Some(Opcode::Execute)
        } else if c == 0x0B {
            Some(Opcode::Register)
        } else if c == 0x0C {
            Some(Opcode::Event)
        } else if c == 0x0D {
            Some(Opcode::Batch)
        } else if c == 0x0E {
            Some(Opcode::AuthChallenge)
        } else if c == 0x0F {
            Some(Opcode::AuthResponse)
        } else if c == 0x10 {
            Some(Opcode::AuthSuccess)
        } else {
            None
        }
    }

    pub fn code(&self) -> (r: u8)
        ensures
            r == self.spec_code(),
    {
        match self {
            Opcode::Error => 0x00,
            Opcode::Startup => 0x01,
            Opcode::Ready => 0x02,
            Opcode::Authenticate => 0x03,
            Opcode::Options => 0x05,
            Opcode::Supported => 0x06,
            Opcode::Query => 0x07,
            Opcode::Result => 0x08,
            Opcode::Prepare => 0x09,
            Opcode::Execute => 0x0A,
            Opcode::Register => 0x0B,
            Opcode::Event => 0x0C,
            Opcode::Batch => 0x0D,
            Opcode::AuthChallenge => 0x0E,
            Opcode::AuthResponse => 0x0F,
            Opcode::AuthSuccess => 0x10,
        }
    }

    pub fn from_code(c: u8) -> (r: Option<Opcode>)
        ensures
            r == Opcode::spec_from_code(c),
    {
        match c {
            0x00 => Some(Opcode::Error),
            0x01 => Some(Opcode::Startup),
            0x02 => Some(Opcode::Ready),
            0x03 => Some(Opcode::Authenticate),
            0x05 => Some(Opcode::Options),
            0x06 => Some(Opcode::Supported),
            0x07 => Some(Opcode::Query),
            0x08 => Some(Opcode::Result),
            0x09 => Some(Opcode::Prepare),
            0x0A => Some(Opcode::Execute),
            0x0B => Some(Opcode::Register),
            0x0C => Some(Opcode::Event),
            0x0D => Some(Opcode::Batch),
            0x0E => Some(Opcode::AuthChallenge),
            0x0F => Some(Opcode::AuthResponse),
            0x10 => Some(Opcode::AuthSuccess),
            _ => None,
        }
    }
}

/// The envelope fields and the body of a frame.
pub struct FrameModel {
    pub version: Version,
    pub direction: Direction,
    pub flags: Flags,
    pub opcode: Opcode,
    pub stream_id: i16,
    pub body: Seq<u8>,
}

impl DeepView for Frame {
    type V = FrameModel;

    open spec fn deep_view(&self) -> FrameModel {
        FrameModel {
            version: self.version,
            direction: self.direction,
            flags: self.flags,
            opcode: self.opcode,
            stream_id: self.stream_id,
            body: self.body@,
        }
    }
}

/// The first byte of a frame: the version, with the high bit set on
/// responses.
pub open spec fn version_byte(version: Version, direction: Direction) -> u8 {
    match direction {
        Direction::Request => version.spec_code(),
        Direction::Response => (version.spec_code() + RESPONSE_BIT) as u8,
    }
}

/// Wire form of a frame: version byte, flags, stream id as a `[short]`,
/// opcode, body length as an `[int]`, then the body.
pub open spec fn frame_enc(f: FrameModel) -> Seq<u8> {
    seq![version_byte(f.version, f.direction), f.flags.bits] + short_bytes(f.stream_id) + seq![
        f.opcode.spec_code(),
    ] + int_bytes(f.body.len() as i32) + f.body
}

/// Decoding of a frame. An unknown version or opcode is an error, and so is
/// a body length that is negative or larger than what follows the header.
pub open spec fn parse_frame(inp: Seq<u8>) -> Parsed<FrameModel> {
    match parse_byte(inp) {
        Ok((vb, r1)) => {
            let direction = if vb >= RESPONSE_BIT {
                Direction::Response
            } else {
                Direction::Request
            };
            let vc = if vb >= RESPONSE_BIT {
                (vb - RESPONSE_BIT) as u8
            } else {
                vb
            };
            match Version::spec_from_code(vc) {
                None => Err(Error::UnsupportedVersion(vb)),
                Some(version) => match parse_byte(r1) {
                    Ok((bits, r2)) => match parse_short(r2) {
                        Ok((stream_id, r3)) => match parse_byte(r3) {
                            Ok((oc, r4)) => match Opcode::spec_from_code(oc) {
                                None => Err(Error::UnknownOpcode(oc)),
                                Some(opcode) => match parse_int(r4) {
                                    Ok((len, r5)) => if len < 0 || r5.len() < len {
                                        Err(Error::BodyLengthMismatch(len))
                                    } else {
                                        Ok(
                                            (
                                                FrameModel {
                                                    version,
                                                    direction,
                                                    flags: Flags { bits },
                                                    opcode,
                                                    stream_id,
                                                    body: r5.take(len as int),
                                                },
                                                r5.skip(len as int),
                                            ),
                                        )
                                    },
                                    Err(e) => Err(e),
                                },
                            },
                            Err(e) => Err(e),
                        },
                        Err(e) => Err(e),
                    },
                    Err(e) => Err(e),
                },
            }
        },
        Err(e) => Err(e),
    }
}

impl Frame {
    /// The frame's wire form.
    pub fn encode(&self) -> (r: Vec<u8>)
        requires
            self.body.len() <= i32::MAX,
        ensures
            r@ == frame_enc(self.deep_view()),
    {
        let mut out: Vec<u8> = Vec::new();
        let v = self.version.code();
        match self.direction {
            Direction::Request => write_byte(&mut out, v),
            Direction::Response => write_byte(&mut out, v + RESPONSE_BIT),
        }
        write_byte(&mut out, self.flags.bits);
        write_short(&mut out, self.stream_id);
        write_byte(&mut out, self.opcode.code());
        write_int(&mut out, self.body.len() as i32);
        write_raw(&mut out, self.body.as_slice());
        assert(out@ =~= frame_enc(self.deep_view()));
        out
    }

    /// Reads a frame: the envelope fields in protocol order, then exactly
    /// as many body bytes as the header declares. The body is kept as it is.
    pub fn from_cursor(cursor: &mut ByteReader) -> (r: Result<Frame, Error>)
        ensures
            parsed_as(r, parse_frame(old(cursor)@), final(cursor)@),
            r matches Ok(f) ==> f.tracing_id is None && f.warnings@.len() == 0,
    {
        let vb = match cursor.read_byte() {
            Ok(v) => v,
            Err(e) => return Err(e),
        };
        let direction = if vb >= RESPONSE_BIT {
            Direction::Response
        } else {
            Direction::Request
        };
        let vc = if vb >= RESPONSE_BIT {
            vb - RESPONSE_BIT
        } else {
            vb
        };
        let version = match Version::from_code(vc) {
            Some(v) => v,
            None => return Err(Error::UnsupportedVersion(vb)),
        };
        let bits = match cursor.read_byte() {
            Ok(v) => v,
            Err(e) => return Err(e),
        };
        let stream_id = match cursor.read_short() {
            Ok(v) => v,
            Err(e) => return Err(e),
        };
        let oc = match cursor.read_byte() {
            Ok(v) => v,
            Err(e) => return Err(e),
        };
        let opcode = match Opcode::from_code(oc) {
            Some(v) => v,
            None => return Err(Error::UnknownOpcode(oc)),
        };
        let len = match cursor.read_int() {
            Ok(v) => v,
            Err(e) => return Err(e),
        };
        if len < 0 || cursor.remaining() < len as usize {
            return Err(Error::BodyLengthMismatch(len));
        }
        let body = match cursor.read_raw(len as usize) {
            Ok(v) => v,
            Err(e) => return Err(e),
        };
        assert(body.deep_view() =~= body@);
        Ok(
            Frame {
                version,
                direction,
                flags: Flags { bits },
                opcode,
                stream_id,
                body,
                tracing_id: None,
                warnings: Vec::new(),
            },
        )
    }
}

/// Decoding a frame that was encoded gives back its envelope and its body,
/// and leaves what follows.
pub proof fn lemma_frame_round_trip(f: FrameModel, tail: Seq<u8>)
    requires
        f.body.len() <= i32::MAX,
    ensures
        parse_frame(frame_enc(f) + tail) == Ok::<(FrameModel, Seq<u8>), Error>((f, tail)),
{
    let t4 = f.body + tail;
    let t3 = int_bytes(f.body.len() as i32) + t4;
    let t2 = seq![f.opcode.spec_code()] + t3;
    let t1 = short_bytes(f.stream_id) + t2;
    let t0 = seq![f.flags.bits] + t1;
    assert(frame_enc(f) + tail =~= seq![version_byte(f.version, f.direction)] + t0);
    lemma_byte_round_trip(version_byte(f.version, f.direction), t0);
    lemma_byte_round_trip(f.flags.bits, t1);
    lemma_short_round_trip(f.stream_id, t2);
    lemma_byte_round_trip(f.opcode.spec_code(), t3);
    lemma_int_round_trip(f.body.len() as i32, t4);
    assert(t4.take(f.body.len() as int) =~= f.body);
    assert(t4.skip(f.body.len() as int) =~= tail);
}

} // verus!
