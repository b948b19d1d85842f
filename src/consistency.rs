//! Consistency levels, carried on the wire as a 2-byte tag.
use vstd::prelude::*;

use crate::codec::{parse_short, parsed_as, short_bytes, write_short, ByteReader, Parsed};
use crate::error::Error;

verus! {

/// The durability and visibility a request asks of the cluster.
#[derive(Debug, Clone, Copy, PartialEq, Eq, Hash, Structural)]
pub enum Consistency {
    Any,
    One,
    Two,
    Three,
    Quorum,
    All,
    LocalQuorum,
    EachQuorum,
    Serial,
    LocalSerial,
    LocalOne,
}

impl DeepView for Consistency {
    type V = Consistency;

    open spec fn deep_view(&self) -> Consistency {
        *self
    }
}

impl Consistency {
    /// The tag that stands for this level on the wire.
    pub open spec fn spec_code(self) -> i16 {
        match self {
            Consistency::Any => 0x0000,
            Consistency::One => 0x0001,
            Consistency::Two => 0x0002,
            Consistency::Three => 0x0003,
            Consistency::Quorum => 0x0004,
            Consistency::All => 0x0005,
            Consistency::LocalQuorum => 0x0006,
            Consistency::EachQuorum => 0x0007,
            Consistency::Serial => 0x0008,
            Consistency::LocalSerial => 0x0009,
            Consistency::LocalOne => 0x000A,
        }
    }

    /// The level a tag stands for, if any.
    pub open spec fn spec_from_code(c: i16) -> Option<Consistency> {
        if c == 0x0000 {
            Some(Consistency::Any)
        } else if c == 0x0001 {
            Some(Consistency::One)
        } else if c == 0x0002 {
            Some(Consistency::Two)
        } else if c == 0x0003 {
            Some(Consistency::Three)
        } else if c == 0x0004 {
            Some(Consistency::Quorum)
        } else if c == 0x0005 {
            Some(Consistency::All)
        } else if c == 0x0006 {
            Some(Consistency::LocalQuorum)
        } else if c == 0x0007 {
            Some(Consistency::EachQuorum)
        } else if c == 0x0008 {
            Some(Consistency::Serial)
        } else if c == 0x0009 {
            Some(Consistency::LocalSerial)
        } else if c == 0x000A {
            Some(Consistency::LocalOne)
        } else {
            None
        }
    }

    pub fn code(&self) -> (r: i16)
        ensures
            r == self.spec_code(),
    {
        match self {
            Consistency::Any => 0x0000,
            Consistency::One => 0x0001,
            Consistency::Two => 0x0002,
            Consistency::Three => 0x0003,
            Consistency::Quorum => 0x0004,
            Consistency::All => 0x0005,
            Consistency::LocalQuorum => 0x0006,
            Consistency::EachQuorum => 0x0007,
            Consistency::Serial => 0x0008,
            Consistency::LocalSerial => 0x0009,
            Consistency::LocalOne => 0x000A,
        }
    }

    pub fn from_code(c: i16) -> (r: Option<Consistency>)
        ensures
            r == Consistency::spec_from_code(c),
    {
        match c {
            0x0000 => Some(Consistency::Any),
            0x0001 => Some(Consistency::One),
            0x0002 => Some(Consistency::Two),
            0x0003 => Some(Consistency::Three),
            0x0004 => Some(Consistency::Quorum),
            0x0005 => Some(Consistency::All),
            0x0006 => Some(Consistency::LocalQuorum),
            0x0007 => Some(Consistency::EachQuorum),
            0x0008 => Some(Consistency::Serial),
            0x0009 => Some(Consistency::LocalSerial),
            0x000A => Some(Consistency::LocalOne),
            _ => None,
        }
    }

    /// Appends the level's 2-byte tag.
    pub fn serialize(&self, out: &mut Vec<u8>)
        ensures
            final(out)@ == old(out)@ + short_bytes(self.spec_code()),
    {
        write_short(out, self.code());
    }

    /// Reads a 2-byte tag and the level it stands for; a tag that no level
    /// has is an error.
    pub fn from_cursor(cursor: &mut ByteReader) -> (r: Result<Consistency, Error>)
        ensures
            parsed_as(r, parse_consistency(old(cursor)@), final(cursor)@),
    {
        let c = match cursor.read_short() {
            Ok(c) => c,
            Err(e) => return Err(e),
        };
        match Consistency::from_code(c) {
            Some(cl) => Ok(cl),
            None => Err(Error::UnknownConsistency(c)),
        }
    }
}

pub open spec fn parse_consistency(inp: Seq<u8>) -> Parsed<Consistency> {
    match parse_short(inp) {
        Ok((c, rest)) => match Consistency::spec_from_code(c) {
            Some(cl) => Ok((cl, rest)),
            None => Err(Error::UnknownConsistency(c)),
        },
        Err(e) => Err(e),
    }
}

/// Decoding a level's tag that was encoded gives the level back.
pub proof fn lemma_consistency_round_trip(cl: Consistency, tail: Seq<u8>)
    ensures
        parse_consistency(short_bytes(cl.spec_code()) + tail) == Ok::<(Consistency, Seq<u8>), Error>(
            (cl, tail),
        ),
{
    crate::codec::lemma_short_round_trip(cl.spec_code(), tail);
}

} // verus!
