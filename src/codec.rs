//! Primitive wire types: fixed-width big-endian integers and
//! length-prefixed byte strings, text and text lists.
use vstd::prelude::*;
use vstd::utf8::{decode_utf8, encode_utf8, valid_utf8};

use crate::error::Error;

verus! {

broadcast use vstd::utf8::encode_utf8_valid_utf8, vstd::utf8::encode_utf8_decode_utf8;

/// The outcome of decoding an item from the front of some input: the item's
/// model and the input that follows it, or the reason it failed.
pub type Parsed<T> = Result<(T, Seq<u8>), Error>;

/// `res` is what an exec decoder returned and `rest` the reader's input
/// afterwards; they agree with the spec-level outcome `p`.
pub open spec fn parsed_as<T: DeepView>(res: Result<T, Error>, p: Parsed<T::V>, rest: Seq<u8>) -> bool {
    match p {
        Ok((v, r)) => res is Ok && res->Ok_0.deep_view() == v && rest == r,
        Err(e) => res == Err::<T, Error>(e),
    }
}

pub open spec fn be16(x: u16) -> Seq<u8> {
    seq![(x >> 8u16) as u8, x as u8]
}

pub open spec fn be32(x: u32) -> Seq<u8> {
    seq![(x >> 24u32) as u8, (x >> 16u32) as u8, (x >> 8u32) as u8, x as u8]
}

pub open spec fn be64(x: u64) -> Seq<u8> {
    seq![
        (x >> 56u64) as u8,
        (x >> 48u64) as u8,
        (x >> 40u64) as u8,
        (x >> 32u64) as u8,
        (x >> 24u64) as u8,
        (x >> 16u64) as u8,
        (x >> 8u64) as u8,
        x as u8,
    ]
}

pub open spec fn u16_of(b0: u8, b1: u8) -> u16 {
    ((b0 as u16) << 8u16) | (b1 as u16)
}

pub open spec fn u32_of(b0: u8, b1: u8, b2: u8, b3: u8) -> u32 {
    ((b0 as u32) << 24u32) | ((b1 as u32) << 16u32) | ((b2 as u32) << 8u32) | (b3 as u32)
}

pub open spec fn u64_of(b: Seq<u8>) -> u64 {
    ((b[0] as u64) << 56u64) | ((b[1] as u64) << 48u64) | ((b[2] as u64) << 40u64) | ((
    b[3] as u64) << 32u64) | ((b[4] as u64) << 24u64) | ((b[5] as u64) << 16u64) | ((b[6] as u64)
        << 8u64) | (b[7] as u64)
}

/// Wire form of a signed 16-bit integer (`[short]`).
pub open spec fn short_bytes(v: i16) -> Seq<u8> {
    be16(v as u16)
}

/// Wire form of a signed 32-bit integer (`[int]`).
pub open spec fn int_bytes(v: i32) -> Seq<u8> {
    be32(v as u32)
}

/// Wire form of a signed 64-bit integer (`[long]`).
pub open spec fn long_bytes(v: i64) -> Seq<u8> {
    be64(v as u64)
}

/// Wire form of a byte string with a 2-byte length prefix (`[short bytes]`).
pub open spec fn short_bytes_enc(b: Seq<u8>) -> Seq<u8> {
    be16(b.len() as u16) + b
}

/// Wire form of a text with a 2-byte length prefix (`[string]`).
pub open spec fn string_enc(s: Seq<char>) -> Seq<u8> {
    short_bytes_enc(encode_utf8(s))
}

/// The texts of a list, each in its wire form, one after another.
pub open spec fn strings_enc(l: Seq<Seq<char>>) -> Seq<u8>
    decreases l.len(),
{
    if l.len() == 0 {
        seq![]
    } else {
        string_enc(l[0]) + strings_enc(l.drop_first())
    }
}

/// Wire form of a list of texts with a 2-byte count (`[string list]`).
pub open spec fn string_list_enc(l: Seq<Seq<char>>) -> Seq<u8> {
    be16(l.len() as u16) + strings_enc(l)
}

/// The first `n` bytes of the input.
pub open spec fn parse_raw(inp: Seq<u8>, n: nat) -> Parsed<Seq<u8>> {
    if inp.len() < n {
        Err(Error::Truncated)
    } else {
        Ok((inp.take(n as int), inp.skip(n as int)))
    }
}

pub open spec fn parse_byte(inp: Seq<u8>) -> Parsed<u8> {
    if inp.len() < 1 {
        Err(Error::Truncated)
    } else {
        Ok((inp[0], inp.skip(1)))
    }
}

pub open spec fn parse_u16(inp: Seq<u8>) -> Parsed<u16> {
    if inp.len() < 2 {
        Err(Error::Truncated)
    } else {
        Ok((u16_of(inp[0], inp[1]), inp.skip(2)))
    }
}

pub open spec fn parse_short(inp: Seq<u8>) -> Parsed<i16> {
    match parse_u16(inp) {
        Ok((x, rest)) => Ok((x as i16, rest)),
        Err(e) => Err(e),
    }
}

pub open spec fn parse_int(inp: Seq<u8>) -> Parsed<i32> {
    if inp.len() < 4 {
        Err(Error::Truncated)
    } else {
        Ok((u32_of(inp[0], inp[1], inp[2], inp[3]) as i32, inp.skip(4)))
    }
}

pub open spec fn parse_long(inp: Seq<u8>) -> Parsed<i64> {
    if inp.len() < 8 {
        Err(Error::Truncated)
    } else {
        Ok((u64_of(inp) as i64, inp.skip(8)))
    }
}

pub open spec fn parse_short_bytes(inp: Seq<u8>) -> Parsed<Seq<u8>> {
    match parse_u16(inp) {
        Ok((n, rest)) => parse_raw(rest, n as nat),
        Err(e) => Err(e),
    }
}

pub open spec fn parse_string(inp: Seq<u8>) -> Parsed<Seq<char>> {
    match parse_short_bytes(inp) {
        Ok((b, rest)) => if valid_utf8(b) {
            Ok((decode_utf8(b), rest))
        } else {
            Err(Error::InvalidUtf8)
        },
        Err(e) => Err(e),
    }
}

/// `k` texts, one after another.
pub open spec fn parse_strings(inp: Seq<u8>, k: nat) -> Parsed<Seq<Seq<char>>>
    decreases k,
{
    if k == 0 {
        Ok((seq![], inp))
    } else {
        match parse_string(inp) {
            Ok((s, rest)) => match parse_strings(rest, (k - 1) as nat) {
                Ok((l, rest2)) => Ok((seq![s] + l, rest2)),
                Err(e) => Err(e),
            },
            Err(e) => Err(e),
        }
    }
}

pub open spec fn parse_string_list(inp: Seq<u8>) -> Parsed<Seq<Seq<char>>> {
    match parse_u16(inp) {
        Ok((n, rest)) => parse_strings(rest, n as nat),
        Err(e) => Err(e),
    }
}

/// A reader over an owned byte buffer that tracks how far it has read.
/// Its view is the input that has not been read yet.
pub struct ByteReader {
    data: Vec<u8>,
    pos: usize,
}

impl View for ByteReader {
    type V = Seq<u8>;

    closed spec fn view(&self) -> Seq<u8> {
        self.data@.skip(self.pos as int)
    }
}

impl ByteReader {
    #[verifier::type_invariant]
    spec fn inv(&self) -> bool {
        self.pos <= self.data.len()
    }

    /// A reader positioned at the start of `data`.
    pub fn new(data: Vec<u8>) -> (r: ByteReader)
        ensures
            r@ == data@,
    {
        let r = ByteReader { data, pos: 0 };
        assert(r@ =~= r.data@);
        r
    }

    /// How many bytes have not been read yet.
    pub fn remaining(&self) -> (n: usize)
        ensures
            n == self@.len(),
    {
        proof {
            use_type_invariant(self);
        }
        self.data.len() - self.pos
    }

    /// Reads the next `n` bytes.
    pub fn read_raw(&mut self, n: usize) -> (r: Result<Vec<u8>, Error>)
        ensures
            parsed_as(r, parse_raw(old(self)@, n as nat), final(self)@),
    {
        proof {
            use_type_invariant(&*self);
        }
        if self.data.len() - self.pos < n {
            return Err(Error::Truncated);
        }
        let start = self.pos;
        let mut out: Vec<u8> = Vec::new();
        let mut i: usize = 0;
        while i < n
            invariant
                i <= n,
                start + n <= self.data.len(),
                self.pos == start,
                self.data@ == old(self).data@,
                start == old(self).pos,
                out@ =~= self.data@.subrange(start as int, start + i),
            decreases n - i,
        {
            out.push(self.data[start + i]);
            i += 1;
        }
        self.pos = start + n;
        assert(out@ =~= old(self)@.take(n as int));
        assert(out.deep_view() =~= out@);
        assert(self@ =~= old(self)@.skip(n as int));
        Ok(out)
    }

    /// Reads one byte.
    pub fn read_byte(&mut self) -> (r: Result<u8, Error>)
        ensures
            parsed_as(r, parse_byte(old(self)@), final(self)@),
    {
        proof {
            use_type_invariant(&*self);
        }
        if self.data.len() - self.pos < 1 {
            return Err(Error::Truncated);
        }
        let b = self.data[self.pos];
        self.pos = self.pos + 1;
        assert(self@ =~= old(self)@.skip(1));
        Ok(b)
    }

    /// Reads a 2-byte big-endian unsigned integer.
    pub fn read_u16(&mut self) -> (r: Result<u16, Error>)
        ensures
            parsed_as(r, parse_u16(old(self)@), final(self)@),
    {
        proof {
            use_type_invariant(&*self);
        }
        if self.data.len() - self.pos < 2 {
            return Err(Error::Truncated);
        }
        let b0 = self.data[self.pos];
        let b1 = self.data[self.pos + 1];
        self.pos = self.pos + 2;
        assert(self@ =~= old(self)@.skip(2));
        Ok(((b0 as u16) << 8u16) | (b1 as u16))
    }

    /// Reads a 2-byte big-endian signed integer (`[short]`).
    pub fn read_short(&mut self) -> (r: Result<i16, Error>)
        ensures
            parsed_as(r, parse_short(old(self)@), final(self)@),
    {
        match self.read_u16() {
            Ok(x) => Ok(x as i16),
            Err(e) => Err(e),
        }
    }

    /// Reads a 4-byte big-endian signed integer (`[int]`).
    pub fn read_int(&mut self) -> (r: Result<i32, Error>)
        ensures
            parsed_as(r, parse_int(old(self)@), final(self)@),
    {
        proof {
            use_type_invariant(&*self);
        }
        if self.data.len() - self.pos < 4 {
            return Err(Error::Truncated);
        }
        let p = self.pos;
        let x: u32 = ((self.data[p] as u32) << 24u32) | ((self.data[p + 1] as u32) << 16u32) | ((
        self.data[p + 2] as u32) << 8u32) | (self.data[p + 3] as u32);
        self.pos = p + 4;
        assert(self@ =~= old(self)@.skip(4));
        Ok(x as i32)
    }

    /// Reads an 8-byte big-endian signed integer (`[long]`).
    pub fn read_long(&mut self) -> (r: Result<i64, Error>)
        ensures
            parsed_as(r, parse_long(old(self)@), final(self)@),
    {
        proof {
            use_type_invariant(&*self);
        }
        if self.data.len() - self.pos < 8 {
            return Err(Error::Truncated);
        }
        let p = self.pos;
        let d = &self.data;
        let x: u64 = ((d[p] as u64) << 56u64) | ((d[p + 1] as u64) << 48u64) | ((d[p + 2] as u64)
            << 40u64) | ((d[p + 3] as u64) << 32u64) | ((d[p + 4] as u64) << 24u64) | ((d[p
            + 5] as u64) << 16u64) | ((d[p + 6] as u64) << 8u64) | (d[p + 7] as u64);
        self.pos = p + 8;
        assert(self@ =~= old(self)@.skip(8));
        Ok(x as i64)
    }
}

/// Relies on `String::from_utf8`: it succeeds exactly when the bytes are valid
/// UTF-8, and the string then holds the characters that they encode.
#[verifier::external_body]
fn string_from_utf8(b: Vec<u8>) -> (r: Option<String>)
    ensures
        match r {
            Some(s) => valid_utf8(b@) && s@ == decode_utf8(b@),
            None => !valid_utf8(b@),
        },
{
    String::from_utf8(b).ok()
}

impl ByteReader {
    /// Reads a byte string with a 2-byte length prefix (`[short bytes]`).
    pub fn read_short_bytes(&mut self) -> (r: Result<Vec<u8>, Error>)
        ensures
            parsed_as(r, parse_short_bytes(old(self)@), final(self)@),
    {
        let n = match self.read_u16() {
            Ok(n) => n,
            Err(e) => return Err(e),
        };
        self.read_raw(n as usize)
    }

    /// Reads a text with a 2-byte length prefix (`[string]`).
    pub fn read_string(&mut self) -> (r: Result<String, Error>)
        ensures
            parsed_as(r, parse_string(old(self)@), final(self)@),
    {
        let b = match self.read_short_bytes() {
            Ok(b) => b,
            Err(e) => return Err(e),
        };
        assert(b.deep_view() =~= b@);
        match string_from_utf8(b) {
            Some(s) => Ok(s),
            None => Err(Error::InvalidUtf8),
        }
    }

    /// Reads a list of texts with a 2-byte count (`[string list]`).
    pub fn read_string_list(&mut self) -> (r: Result<Vec<String>, Error>)
        ensures
            parsed_as(r, parse_string_list(old(self)@), final(self)@),
    {
        let n = match self.read_u16() {
            Ok(n) => n,
            Err(e) => return Err(e),
        };
        let ghost after_count = self@;
        let mut out: Vec<String> = Vec::new();
        let mut i: u16 = 0;
        assert(out.deep_view() =~= seq![]);
        while i < n
            invariant
                i <= n,
                parse_string_list(old(self)@) == parse_strings(after_count, n as nat),
                parse_strings(after_count, n as nat) == match parse_strings(
                    self@,
                    (n - i) as nat,
                ) {
                    Ok((l, rest)) => Ok((out.deep_view() + l, rest)),
                    Err(e) => Err::<(Seq<Seq<char>>, Seq<u8>), Error>(e),
                },
            decreases n - i,
        {
            let ghost before = out.deep_view();
            let s = match self.read_string() {
                Ok(s) => s,
                Err(e) => return Err(e),
            };
            out.push(s);
            proof {
                assert(out.deep_view() =~= before.push(s@));
                assert forall|l: Seq<Seq<char>>| #[trigger] (before + (seq![s@] + l)) == out.deep_view() + l by {
                    assert(before + (seq![s@] + l) =~= out.deep_view() + l);
                }
            }
            i += 1;
        }
        assert(out.deep_view() + seq![] =~= out.deep_view());
        Ok(out)
    }
}

/// Appends one byte.
pub fn write_byte(out: &mut Vec<u8>, v: u8)
    ensures
        final(out)@ == old(out)@ + seq![v],
{
    out.push(v);
    assert(out@ =~= old(out)@ + seq![v]);
}

/// Appends a 2-byte big-endian unsigned integer.
pub fn write_u16(out: &mut Vec<u8>, v: u16)
    ensures
        final(out)@ == old(out)@ + be16(v),
{
    out.push((v >> 8u16) as u8);
    out.push(v as u8);
    assert(out@ =~= old(out)@ + be16(v));
}

/// Appends a `[short]`.
pub fn write_short(out: &mut Vec<u8>, v: i16)
    ensures
        final(out)@ == old(out)@ + short_bytes(v),
{
    write_u16(out, v as u16);
}

/// Appends an `[int]`.
pub fn write_int(out: &mut Vec<u8>, v: i32)
    ensures
        final(out)@ == old(out)@ + int_bytes(v),
{
    let x = v as u32;
    out.push((x >> 24u32) as u8);
    out.push((x >> 16u32) as u8);
    out.push((x >> 8u32) as u8);
    out.push(x as u8);
    assert(out@ =~= old(out)@ + int_bytes(v));
}

/// Appends a `[long]`.
pub fn write_long(out: &mut Vec<u8>, v: i64)
    ensures
        final(out)@ == old(out)@ + long_bytes(v),
{
    let x = v as u64;
    out.push((x >> 56u64) as u8);
    out.push((x >> 48u64) as u8);
    out.push((x >> 40u64) as u8);
    out.push((x >> 32u64) as u8);
    out.push((x >> 24u64) as u8);
    out.push((x >> 16u64) as u8);
    out.push((x >> 8u64) as u8);
    out.push(x as u8);
    assert(out@ =~= old(out)@ + long_bytes(v));
}

/// Appends bytes as they are, with no prefix.
pub fn write_raw(out: &mut Vec<u8>, b: &[u8])
    ensures
        final(out)@ == old(out)@ + b@,
{
    let mut i: usize = 0;
    while i < b.len()
        invariant
            i <= b.len(),
            out@ =~= old(out)@ + b@.take(i as int),
        decreases b.len() - i,
    {
        out.push(b[i]);
        i += 1;
    }
    assert(b@.take(b.len() as int) =~= b@);
}

/// Appends a `[short bytes]`.
pub fn write_short_bytes(out: &mut Vec<u8>, b: &[u8])
    requires
        b.len() <= u16::MAX,
    ensures
        final(out)@ == old(out)@ + short_bytes_enc(b@),
{
    write_u16(out, b.len() as u16);
    write_raw(out, b);
    assert(out@ =~= old(out)@ + short_bytes_enc(b@));
}

/// Texts whose UTF-8 form fits a 2-byte length prefix.
pub open spec fn fits_string(s: Seq<char>) -> bool {
    encode_utf8(s).len() <= u16::MAX
}

pub open spec fn fits_string_list(l: Seq<Seq<char>>) -> bool {
    l.len() <= u16::MAX && forall|i: int| 0 <= i < l.len() ==> fits_string(#[trigger] l[i])
}

/// Appends a `[string]`.
pub fn write_string(out: &mut Vec<u8>, s: &str)
    requires
        fits_string(s@),
    ensures
        final(out)@ == old(out)@ + string_enc(s@),
{
    write_short_bytes(out, s.as_bytes());
}

/// Appends a `[string list]`.
pub fn write_string_list(out: &mut Vec<u8>, l: &Vec<String>)
    requires
        fits_string_list(l.deep_view()),
    ensures
        final(out)@ == old(out)@ + string_list_enc(l.deep_view()),
{
    write_u16(out, l.len() as u16);
    let ghost start = out@;
    let mut i: usize = 0;
    assert(l.deep_view().skip(0) =~= l.deep_view());
    while i < l.len()
        invariant
            i <= l.len(),
            fits_string_list(l.deep_view()),
            start == old(out)@ + be16(l.len() as u16),
            start + strings_enc(l.deep_view()) == out@ + strings_enc(l.deep_view().skip(i as int)),
        decreases l.len() - i,
    {
        let ghost rest = l.deep_view().skip(i as int);
        let ghost before = out@;
        assert(rest.drop_first() =~= l.deep_view().skip(i + 1));
        assert(l[i as int]@ == l.deep_view()[i as int]);
        write_string(out, l[i].as_str());
        assert(strings_enc(rest) == string_enc(rest[0]) + strings_enc(rest.drop_first()));
        assert(out@ + strings_enc(l.deep_view().skip(i + 1)) =~= before + strings_enc(rest));
        i += 1;
    }
    assert(l.deep_view().skip(l.len() as int) =~= seq![]);
    assert(out@ =~= old(out)@ + string_list_enc(l.deep_view()));
}

proof fn lemma_be16(x: u16)
    ensures
        u16_of((x >> 8u16) as u8, x as u8) == x,
        (x as i16) as u16 == x,
{
    assert(((((x >> 8u16) as u8) as u16) << 8u16) | ((x as u8) as u16) == x) by (bit_vector);
    assert((x as i16) as u16 == x) by (bit_vector);
}

proof fn lemma_be32(x: u32)
    ensures
        u32_of((x >> 24u32) as u8, (x >> 16u32) as u8, (x >> 8u32) as u8, x as u8) == x,
{
    assert(((((x >> 24u32) as u8) as u32) << 24u32) | ((((x >> 16u32) as u8) as u32) << 16u32)
        | ((((x >> 8u32) as u8) as u32) << 8u32) | ((x as u8) as u32) == x) by (bit_vector);
}

proof fn lemma_be64(x: u64)
    ensures
        u64_of(be64(x)) == x,
{
    let b = be64(x);
    assert(((((x >> 56u64) as u8) as u64) << 56u64) | ((((x >> 48u64) as u8) as u64) << 48u64)
        | ((((x >> 40u64) as u8) as u64) << 40u64) | ((((x >> 32u64) as u8) as u64) << 32u64) | ((((
    x >> 24u64) as u8) as u64) << 24u64) | ((((x >> 16u64) as u8) as u64) << 16u64) | ((((x
        >> 8u64) as u8) as u64) << 8u64) | ((x as u8) as u64) == x) by (bit_vector);
}

/// Decoding a byte that was encoded gives it back, and leaves what follows.
pub proof fn lemma_byte_round_trip(v: u8, tail: Seq<u8>)
    ensures
        parse_byte(seq![v] + tail) == Ok::<(u8, Seq<u8>), Error>((v, tail)),
{
    assert((seq![v] + tail).skip(1) =~= tail);
}

/// Decoding an unsigned 2-byte integer that was encoded gives it back.
pub proof fn lemma_u16_round_trip(v: u16, tail: Seq<u8>)
    ensures
        parse_u16(be16(v) + tail) == Ok::<(u16, Seq<u8>), Error>((v, tail)),
{
    lemma_be16(v);
    assert((be16(v) + tail).skip(2) =~= tail);
}

/// Decoding a `[short]` that was encoded gives it back.
pub proof fn lemma_short_round_trip(v: i16, tail: Seq<u8>)
    ensures
        parse_short(short_bytes(v) + tail) == Ok::<(i16, Seq<u8>), Error>((v, tail)),
{
    lemma_u16_round_trip(v as u16, tail);
    assert(((v as u16) as i16) == v) by (bit_vector);
}

/// Decoding an `[int]` that was encoded gives it back.
pub proof fn lemma_int_round_trip(v: i32, tail: Seq<u8>)
    ensures
        parse_int(int_bytes(v) + tail) == Ok::<(i32, Seq<u8>), Error>((v, tail)),
{
    lemma_be32(v as u32);
    assert(((v as u32) as i32) == v) by (bit_vector);
    assert((int_bytes(v) + tail).skip(4) =~= tail);
}

/// Decoding a `[long]` that was encoded gives it back.
pub proof fn lemma_long_round_trip(v: i64, tail: Seq<u8>)
    ensures
        parse_long(long_bytes(v) + tail) == Ok::<(i64, Seq<u8>), Error>((v, tail)),
{
    let inp = long_bytes(v) + tail;
    lemma_be64(v as u64);
    assert(inp.take(8) =~= be64(v as u64));
    assert(u64_of(inp) == u64_of(be64(v as u64)));
    assert(((v as u64) as i64) == v) by (bit_vector);
    assert(inp.skip(8) =~= tail);
}

/// Decoding a `[short bytes]` that was encoded gives the bytes back.
pub proof fn lemma_short_bytes_round_trip(b: Seq<u8>, tail: Seq<u8>)
    requires
        b.len() <= u16::MAX,
    ensures
        parse_short_bytes(short_bytes_enc(b) + tail) == Ok::<(Seq<u8>, Seq<u8>), Error>((b, tail)),
{
    let inp = short_bytes_enc(b) + tail;
    assert(inp =~= be16(b.len() as u16) + (b + tail));
    lemma_u16_round_trip(b.len() as u16, b + tail);
    assert((b + tail).take(b.len() as int) =~= b);
    assert((b + tail).skip(b.len() as int) =~= tail);
}

/// Decoding a `[string]` that was encoded gives the text back.
pub proof fn lemma_string_round_trip(s: Seq<char>, tail: Seq<u8>)
    requires
        fits_string(s),
    ensures
        parse_string(string_enc(s) + tail) == Ok::<(Seq<char>, Seq<u8>), Error>((s, tail)),
{
    lemma_short_bytes_round_trip(encode_utf8(s), tail);
}

#[verifier::spinoff_prover]
#[verifier::rlimit(40)]
proof fn lemma_strings_round_trip(l: Seq<Seq<char>>, tail: Seq<u8>)
    requires
        forall|i: int| 0 <= i < l.len() ==> fits_string(#[trigger] l[i]),
    ensures
        parse_strings(strings_enc(l) + tail, l.len()) == Ok::<(Seq<Seq<char>>, Seq<u8>), Error>(
            (l, tail),
        ),
    decreases l.len(),
{
    if l.len() == 0 {
        assert(strings_enc(l) + tail =~= tail);
        assert(l =~= seq![]);
    } else {
        let rest = l.drop_first();
        assert(fits_string(l[0]));
        assert forall|i: int| 0 <= i < rest.len() implies fits_string(#[trigger] rest[i]) by {
            assert(rest[i] == l[i + 1]);
        }
        lemma_strings_round_trip(rest, tail);
        assert(strings_enc(l) + tail =~= string_enc(l[0]) + (strings_enc(rest) + tail));
        lemma_string_round_trip(l[0], strings_enc(rest) + tail);
        assert(seq![l[0]] + rest =~= l);
    }
}

/// Decoding a `[string list]` that was encoded gives the list back.
pub proof fn lemma_string_list_round_trip(l: Seq<Seq<char>>, tail: Seq<u8>)
    requires
        fits_string_list(l),
    ensures
        parse_string_list(string_list_enc(l) + tail) == Ok::<(Seq<Seq<char>>, Seq<u8>), Error>(
            (l, tail),
        ),
{
    assert(string_list_enc(l) + tail =~= be16(l.len() as u16) + (strings_enc(l) + tail));
    lemma_u16_round_trip(l.len() as u16, strings_enc(l) + tail);
    lemma_strings_round_trip(l, tail);
}

/// UTF-8 takes at most four bytes per character.
pub proof fn lemma_encode_utf8_len(s: Seq<char>)
    ensures
        encode_utf8(s).len() <= 4 * s.len(),
    decreases s.len(),
{
    if s.len() > 0 {
        lemma_encode_utf8_len(s.drop_first());
    }
}

/// Texts with the same UTF-8 form are the same text.
pub proof fn lemma_encode_utf8_injective(a: Seq<char>, b: Seq<char>)
    ensures
        (encode_utf8(a) == encode_utf8(b)) == (a == b),
{
    if encode_utf8(a) == encode_utf8(b) {
        assert(decode_utf8(encode_utf8(a)) == a);
        assert(decode_utf8(encode_utf8(b)) == b);
    }
}

} // verus!
