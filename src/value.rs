//! Bound values (present bytes, null, or not set) and the conversion of
//! native values to their wire bytes.
use vstd::prelude::*;
use vstd::utf8::encode_utf8;

use crate::codec::{
    be16, be32, be64, int_bytes, long_bytes, parse_int, parse_raw, parsed_as, short_bytes,
    write_int, write_raw, ByteReader, Parsed,
};
use crate::error::Error;

verus! {

/// Length prefix that marks a null value.
pub const NULL_INT_VALUE: i32 = -1;

/// Length prefix that marks a value that is not set.
pub const NOT_SET_INT_VALUE: i32 = -2;

/// A bound value: bytes, null, or not set.
#[derive(Debug, Clone, PartialEq, Eq, Hash)]
pub enum Value {
    Present(Vec<u8>),
    Null,
    NotSet,
}

/// The mathematical model of a [`Value`].
pub enum ValueModel {
    Present(Seq<u8>),
    Null,
    NotSet,
}

impl DeepView for Value {
    type V = ValueModel;

    open spec fn deep_view(&self) -> ValueModel {
        match self {
            Value::Present(b) => ValueModel::Present(b@),
            Value::Null => ValueModel::Null,
            Value::NotSet => ValueModel::NotSet,
        }
    }
}

/// A value that can be written: present bytes must fit a 4-byte length.
pub open spec fn value_fits(v: ValueModel) -> bool {
    match v {
        ValueModel::Present(b) => b.len() <= i32::MAX,
        _ => true,
    }
}

/// Wire form of a value: a 4-byte length and the bytes, or a negative
/// sentinel alone.
pub open spec fn value_enc(v: ValueModel) -> Seq<u8> {
    match v {
        ValueModel::Present(b) => int_bytes(b.len() as i32) + b,
        ValueModel::Null => int_bytes(NULL_INT_VALUE),
        ValueModel::NotSet => int_bytes(NOT_SET_INT_VALUE),
    }
}

/// Decoding of a value: a length of zero or more is followed by that many
/// bytes; the sentinels stand alone; any other negative length is an error.
pub open spec fn parse_value(inp: Seq<u8>) -> Parsed<ValueModel> {
    match parse_int(inp) {
        Ok((n, rest)) => if n >= 0 {
            match parse_raw(rest, n as nat) {
                Ok((b, rest2)) => Ok((ValueModel::Present(b), rest2)),
                Err(e) => Err(e),
            }
        } else if n == NULL_INT_VALUE {
            Ok((ValueModel::Null, rest))
        } else if n == NOT_SET_INT_VALUE {
            Ok((ValueModel::NotSet, rest))
        } else {
            Err(Error::InvalidValueLength(n))
        },
        Err(e) => Err(e),
    }
}

impl Value {
    /// A present value holding the wire bytes of `v`.
    pub fn new<B: ToBytes>(v: B) -> (r: Value)
        ensures
            r.deep_view() == ValueModel::Present(v.wire_bytes()),
    {
        let b = v.to_bytes();
        Value::Present(b.into_vec())
    }

    /// A present value for `Some`, null for `None`.
    pub fn from_option<B: ToBytes>(v: Option<B>) -> (r: Value)
        ensures
            r.deep_view() == match v {
                Some(b) => ValueModel::Present(b.wire_bytes()),
                None => ValueModel::Null,
            },
    {
        match v {
            Some(b) => Value::new(b),
            None => Value::Null,
        }
    }

    /// Appends the value's wire form.
    pub fn serialize(&self, out: &mut Vec<u8>)
        requires
            value_fits(self.deep_view()),
        ensures
            final(out)@ == old(out)@ + value_enc(self.deep_view()),
    {
        match self {
            Value::Null => write_int(out, NULL_INT_VALUE),
            Value::NotSet => write_int(out, NOT_SET_INT_VALUE),
            Value::Present(b) => {
                write_int(out, b.len() as i32);
                write_raw(out, b.as_slice());
                assert(out@ =~= old(out)@ + value_enc(self.deep_view()));
            },
        }
    }

    /// The value's wire form on its own.
    pub fn serialize_to_vec(&self) -> (r: Vec<u8>)
        requires
            value_fits(self.deep_view()),
        ensures
            r@ == value_enc(self.deep_view()),
    {
        let mut out: Vec<u8> = Vec::new();
        self.serialize(&mut out);
        assert(out@ =~= value_enc(self.deep_view()));
        out
    }

    /// Reads a value: a 4-byte signed length, then that many bytes when it
    /// is not negative.
    pub fn from_cursor(cursor: &mut ByteReader) -> (r: Result<Value, Error>)
        ensures
            parsed_as(r, parse_value(old(cursor)@), final(cursor)@),
    {
        let n = match cursor.read_int() {
            Ok(n) => n,
            Err(e) => return Err(e),
        };
        if n >= 0 {
            match cursor.read_raw(n as usize) {
                Ok(b) => {
                    assert(b.deep_view() =~= b@);
                    Ok(Value::Present(b))
                },
                Err(e) => Err(e),
            }
        } else if n == NULL_INT_VALUE {
            Ok(Value::Null)
        } else if n == NOT_SET_INT_VALUE {
            Ok(Value::NotSet)
        } else {
            Err(Error::InvalidValueLength(n))
        }
    }
}

/// Decoding a value that was encoded gives it back, and leaves what follows.
pub proof fn lemma_value_round_trip(v: ValueModel, tail: Seq<u8>)
    requires
        value_fits(v),
    ensures
        parse_value(value_enc(v) + tail) == Ok::<(ValueModel, Seq<u8>), Error>((v, tail)),
{
    match v {
        ValueModel::Present(b) => {
            assert(value_enc(v) + tail =~= int_bytes(b.len() as i32) + (b + tail));
            crate::codec::lemma_int_round_trip(b.len() as i32, b + tail);
            assert((b + tail).take(b.len() as int) =~= b);
            assert((b + tail).skip(b.len() as int) =~= tail);
        },
        ValueModel::Null => crate::codec::lemma_int_round_trip(NULL_INT_VALUE, tail),
        ValueModel::NotSet => crate::codec::lemma_int_round_trip(NOT_SET_INT_VALUE, tail),
    }
}

/// The canonical wire bytes of one native value.
#[derive(Debug, Clone, PartialEq, Eq, Hash)]
pub struct Bytes(Vec<u8>);

impl View for Bytes {
    type V = Seq<u8>;

    closed spec fn view(&self) -> Seq<u8> {
        self.0@
    }
}

impl Bytes {
    /// Wraps bytes that are already in wire form.
    pub fn new(b: Vec<u8>) -> (r: Bytes)
        ensures
            r@ == b@,
    {
        Bytes(b)
    }

    /// How many wire bytes there are.
    pub fn len(&self) -> (r: usize)
        ensures
            r == self@.len(),
    {
        self.0.len()
    }

    pub fn is_empty(&self) -> (r: bool)
        ensures
            r == (self@.len() == 0),
    {
        self.0.len() == 0
    }

    /// The wire bytes.
    pub fn into_vec(self) -> (r: Vec<u8>)
        ensures
            r@ == self@,
    {
        self.0
    }

    /// A list: its 4-byte element count, then each element as a present
    /// value.
    pub fn from_list(items: &Vec<Bytes>) -> (r: Bytes)
        requires
            items.len() <= i32::MAX,
            forall|i: int| 0 <= i < items.len() ==> #[trigger] items[i]@.len() <= i32::MAX,
        ensures
            r@ == int_bytes(items.len() as i32) + values_enc(items@.map_values(|b: Bytes| b@)),
    {
        let ghost items_v = items@.map_values(|b: Bytes| b@);
        let mut out: Vec<u8> = Vec::new();
        write_int(&mut out, items.len() as i32);
        let mut i: usize = 0;
        while i < items.len()
            invariant
                i <= items.len(),
                items_v == items@.map_values(|b: Bytes| b@),
                forall|j: int| 0 <= j < items.len() ==> #[trigger] items[j]@.len() <= i32::MAX,
                out@ == int_bytes(items.len() as i32) + values_enc(items_v.take(i as int)),
            decreases items.len() - i,
        {
            let v = Value::Present(items[i].0.clone());
            assert(v.deep_view() == ValueModel::Present(items_v[i as int]));
            v.serialize(&mut out);
            proof {
                lemma_values_enc_push(items_v.take(i as int), items_v[i as int]);
                assert(items_v.take(i as int).push(items_v[i as int]) =~= items_v.take(i + 1));
            }
            i += 1;
        }
        assert(items_v.take(items.len() as int) =~= items_v);
        Bytes(out)
    }

    /// A map: its 4-byte entry count, then each key and its value as
    /// present values.
    pub fn from_map(entries: &Vec<(Bytes, Bytes)>) -> (r: Bytes)
        requires
            entries.len() <= i32::MAX,
            forall|i: int|
                0 <= i < entries.len() ==> #[trigger] entries[i].0@.len() <= i32::MAX
                    && entries[i].1@.len() <= i32::MAX,
        ensures
            r@ == int_bytes(entries.len() as i32) + entries_enc(
                entries@.map_values(|e: (Bytes, Bytes)| (e.0@, e.1@)),
            ),
    {
        let ghost es = entries@.map_values(|e: (Bytes, Bytes)| (e.0@, e.1@));
        let mut out: Vec<u8> = Vec::new();
        write_int(&mut out, entries.len() as i32);
        let mut i: usize = 0;
        while i < entries.len()
            invariant
                i <= entries.len(),
                es == entries@.map_values(|e: (Bytes, Bytes)| (e.0@, e.1@)),
                forall|j: int|
                    0 <= j < entries.len() ==> #[trigger] entries[j].0@.len() <= i32::MAX
                        && entries[j].1@.len() <= i32::MAX,
                out@ == int_bytes(entries.len() as i32) + entries_enc(es.take(i as int)),
            decreases entries.len() - i,
        {
            let ghost before = out@;
            let k = Value::Present(entries[i].0.0.clone());
            let v = Value::Present(entries[i].1.0.clone());
            assert(k.deep_view() == ValueModel::Present(es[i as int].0));
            assert(v.deep_view() == ValueModel::Present(es[i as int].1));
            k.serialize(&mut out);
            v.serialize(&mut out);
            proof {
                lemma_entries_enc_push(es.take(i as int), es[i as int]);
                assert(es.take(i as int).push(es[i as int]) =~= es.take(i + 1));
                assert(out@ =~= before + entry_enc(es[i as int]));
            }
            i += 1;
        }
        assert(es.take(entries.len() as int) =~= es);
        Bytes(out)
    }
}

/// Each element as a present value, one after another.
pub open spec fn values_enc(items: Seq<Seq<u8>>) -> Seq<u8>
    decreases items.len(),
{
    if items.len() == 0 {
        seq![]
    } else {
        values_enc(items.drop_last()) + value_enc(ValueModel::Present(items.last()))
    }
}

/// One map entry: its key, then its value, each as a present value.
pub open spec fn entry_enc(e: (Seq<u8>, Seq<u8>)) -> Seq<u8> {
    value_enc(ValueModel::Present(e.0)) + value_enc(ValueModel::Present(e.1))
}

/// The entries of a map, one after another.
pub open spec fn entries_enc(es: Seq<(Seq<u8>, Seq<u8>)>) -> Seq<u8>
    decreases es.len(),
{
    if es.len() == 0 {
        seq![]
    } else {
        entries_enc(es.drop_last()) + entry_enc(es.last())
    }
}

proof fn lemma_values_enc_push(items: Seq<Seq<u8>>, b: Seq<u8>)
    ensures
        values_enc(items.push(b)) == values_enc(items) + value_enc(ValueModel::Present(b)),
{
    assert(items.push(b).drop_last() =~= items);
}

proof fn lemma_entries_enc_push(es: Seq<(Seq<u8>, Seq<u8>)>, e: (Seq<u8>, Seq<u8>))
    ensures
        entries_enc(es.push(e)) == entries_enc(es) + entry_enc(e),
{
    assert(es.push(e).drop_last() =~= es);
}

/// A native type with a canonical wire form.
pub trait ToBytes: Sized {
    /// The wire bytes of this value.
    spec fn wire_bytes(&self) -> Seq<u8>;

    fn to_bytes(self) -> (r: Bytes)
        ensures
            r@ == self.wire_bytes(),
    ;
}

fn bytes_of_slice(b: &[u8]) -> (r: Bytes)
    ensures
        r@ == b@,
{
    let mut out: Vec<u8> = Vec::new();
    write_raw(&mut out, b);
    assert(out@ =~= b@);
    Bytes(out)
}

impl ToBytes for Bytes {
    open spec fn wire_bytes(&self) -> Seq<u8> {
        self@
    }

    fn to_bytes(self) -> (r: Bytes) {
        self
    }
}

impl ToBytes for String {
    /// UTF-8, with no prefix.
    open spec fn wire_bytes(&self) -> Seq<u8> {
        encode_utf8(self@)
    }

    fn to_bytes(self) -> (r: Bytes) {
        bytes_of_slice(self.as_str().as_bytes())
    }
}

impl<'a> ToBytes for &'a str {
    /// UTF-8, with no prefix.
    open spec fn wire_bytes(&self) -> Seq<u8> {
        encode_utf8((*self)@)
    }

    fn to_bytes(self) -> (r: Bytes) {
        bytes_of_slice(self.as_bytes())
    }
}

impl ToBytes for i8 {
    open spec fn wire_bytes(&self) -> Seq<u8> {
        seq![*self as u8]
    }

    fn to_bytes(self) -> (r: Bytes) {
        let mut out: Vec<u8> = Vec::new();
        out.push(self as u8);
        assert(out@ =~= seq![self as u8]);
        Bytes(out)
    }
}

impl ToBytes for i16 {
    open spec fn wire_bytes(&self) -> Seq<u8> {
        short_bytes(*self)
    }

    fn to_bytes(self) -> (r: Bytes) {
        let mut out: Vec<u8> = Vec::new();
        crate::codec::write_short(&mut out, self);
        assert(out@ =~= short_bytes(self));
        Bytes(out)
    }
}

impl ToBytes for i32 {
    open spec fn wire_bytes(&self) -> Seq<u8> {
        int_bytes(*self)
    }

    fn to_bytes(self) -> (r: Bytes) {
        let mut out: Vec<u8> = Vec::new();
        write_int(&mut out, self);
        assert(out@ =~= int_bytes(self));
        Bytes(out)
    }
}

impl ToBytes for i64 {
    open spec fn wire_bytes(&self) -> Seq<u8> {
        long_bytes(*self)
    }

    fn to_bytes(self) -> (r: Bytes) {
        let mut out: Vec<u8> = Vec::new();
        crate::codec::write_long(&mut out, self);
        assert(out@ =~= long_bytes(self));
        Bytes(out)
    }
}

impl ToBytes for u8 {
    open spec fn wire_bytes(&self) -> Seq<u8> {
        seq![*self]
    }

    fn to_bytes(self) -> (r: Bytes) {
        let mut out: Vec<u8> = Vec::new();
        out.push(self);
        assert(out@ =~= seq![self]);
        Bytes(out)
    }
}

impl ToBytes for u16 {
    open spec fn wire_bytes(&self) -> Seq<u8> {
        be16(*self)
    }

    fn to_bytes(self) -> (r: Bytes) {
        let mut out: Vec<u8> = Vec::new();
        crate::codec::write_u16(&mut out, self);
        assert(out@ =~= be16(self));
        Bytes(out)
    }
}

impl ToBytes for u32 {
    open spec fn wire_bytes(&self) -> Seq<u8> {
        be32(*self)
    }

    fn to_bytes(self) -> (r: Bytes) {
        let mut out: Vec<u8> = Vec::new();
        write_int(&mut out, self as i32);
        assert(((self as i32) as u32) == self) by (bit_vector);
        assert(out@ =~= be32(self));
        Bytes(out)
    }
}

impl ToBytes for u64 {
    open spec fn wire_bytes(&self) -> Seq<u8> {
        be64(*self)
    }

    fn to_bytes(self) -> (r: Bytes) {
        let mut out: Vec<u8> = Vec::new();
        crate::codec::write_long(&mut out, self as i64);
        assert(((self as i64) as u64) == self) by (bit_vector);
        assert(out@ =~= be64(self));
        Bytes(out)
    }
}

impl ToBytes for bool {
    /// One byte: 1 for true, 0 for false.
    open spec fn wire_bytes(&self) -> Seq<u8> {
        if *self {
            seq![1u8]
        } else {
            seq![0u8]
        }
    }

    fn to_bytes(self) -> (r: Bytes) {
        let mut out: Vec<u8> = Vec::new();
        if self {
            out.push(1);
        } else {
            out.push(0);
        }
        assert(out@ =~= self.wire_bytes());
        Bytes(out)
    }
}

/// A UUID, held as its 16 bytes in canonical order.
#[derive(Debug, Clone, Copy, PartialEq, Eq, Hash)]
pub struct Uuid {
    pub bytes: [u8; 16],
}

impl ToBytes for Uuid {
    /// The 16 bytes, unchanged.
    open spec fn wire_bytes(&self) -> Seq<u8> {
        self.bytes@
    }

    fn to_bytes(self) -> (r: Bytes) {
        bytes_of_slice(self.bytes.as_slice())
    }
}

/// An IP address, held as its octets.
#[derive(Debug, Clone, Copy, PartialEq, Eq, Hash)]
pub enum IpAddress {
    V4([u8; 4]),
    V6([u8; 16]),
}

impl ToBytes for IpAddress {
    /// The 4 or 16 octets; the family is told by the length alone.
    open spec fn wire_bytes(&self) -> Seq<u8> {
        match self {
            IpAddress::V4(a) => a@,
            IpAddress::V6(a) => a@,
        }
    }

    fn to_bytes(self) -> (r: Bytes) {
        match self {
            IpAddress::V4(a) => bytes_of_slice(a.as_slice()),
            IpAddress::V6(a) => bytes_of_slice(a.as_slice()),
        }
    }
}

/// Smallest and largest whole seconds whose milliseconds fit an `i64`.
pub const MIN_TIMESTAMP_SECS: i64 = -9_223_372_036_854_775;

pub const MAX_TIMESTAMP_SECS: i64 = 9_223_372_036_854_773;

/// Largest nanosecond count within a second; above one billion it marks a
/// leap second.
pub const MAX_SUBSEC_NANOS: u32 = 1_999_999_999;

/// A point in time: whole seconds since the Unix epoch (UTC) and the
/// nanoseconds within that second.
#[derive(Debug, Clone, Copy, PartialEq, Eq, Hash)]
pub struct Timestamp {
    secs: i64,
    nanos: u32,
}

/// Milliseconds since the epoch; the sub-millisecond part is truncated.
pub open spec fn millis_of(secs: int, nanos: int) -> int {
    secs * 1000 + nanos / 1_000_000
}

impl Timestamp {
    #[verifier::type_invariant]
    spec fn inv(&self) -> bool {
        MIN_TIMESTAMP_SECS <= self.secs <= MAX_TIMESTAMP_SECS && self.nanos <= MAX_SUBSEC_NANOS
    }

    pub closed spec fn spec_secs(&self) -> i64 {
        self.secs
    }

    pub closed spec fn spec_nanos(&self) -> u32 {
        self.nanos
    }

    /// The timestamp, or `None` where its milliseconds would not fit an
    /// `i64` or `nanos` is out of range.
    pub fn new(secs: i64, nanos: u32) -> (r: Option<Timestamp>)
        ensures
            match r {
                Some(t) => t.spec_secs() == secs && t.spec_nanos() == nanos,
                None => !(MIN_TIMESTAMP_SECS <= secs <= MAX_TIMESTAMP_SECS && nanos
                    <= MAX_SUBSEC_NANOS),
            },
    {
        if MIN_TIMESTAMP_SECS <= secs && secs <= MAX_TIMESTAMP_SECS && nanos <= MAX_SUBSEC_NANOS {
            Some(Timestamp { secs, nanos })
        } else {
            None
        }
    }

    /// Milliseconds since the epoch, truncating the sub-millisecond part.
    pub fn millis(&self) -> (r: i64)
        ensures
            r == millis_of(self.spec_secs() as int, self.spec_nanos() as int),
    {
        proof {
            use_type_invariant(self);
        }
        self.secs * 1000 + (self.nanos / 1_000_000) as i64
    }
}

impl ToBytes for Timestamp {
    /// Milliseconds since the epoch as a `[long]`.
    open spec fn wire_bytes(&self) -> Seq<u8> {
        long_bytes(millis_of(self.spec_secs() as int, self.spec_nanos() as int) as i64)
    }

    fn to_bytes(self) -> (r: Bytes) {
        self.millis().to_bytes()
    }
}

/// An opaque binary object.
#[derive(Debug, Clone, PartialEq, Eq, Hash)]
pub struct Blob {
    pub bytes: Vec<u8>,
}

impl ToBytes for Blob {
    /// The bytes, unchanged.
    open spec fn wire_bytes(&self) -> Seq<u8> {
        self.bytes@
    }

    fn to_bytes(self) -> (r: Bytes) {
        Bytes(self.bytes)
    }
}

/// An arbitrary-precision decimal: `unscaled` times ten to the power of
/// minus `scale`.
#[derive(Debug, Clone, PartialEq, Eq, Hash)]
pub struct Decimal {
    /// The unscaled value, two's complement, most significant byte first.
    pub unscaled: Vec<u8>,
    pub scale: i32,
}

impl ToBytes for Decimal {
    /// The scale as an `[int]`, then the unscaled bytes.
    open spec fn wire_bytes(&self) -> Seq<u8> {
        int_bytes(self.scale) + self.unscaled@
    }

    fn to_bytes(self) -> (r: Bytes) {
        let mut out: Vec<u8> = Vec::new();
        write_int(&mut out, self.scale);
        write_raw(&mut out, self.unscaled.as_slice());
        Bytes(out)
    }
}

/// A present value starts with its length as a 4-byte big-endian integer;
/// null is the four bytes `FF FF FF FF` and not-set is `FF FF FF FE`.
pub proof fn lemma_value_tri_state(b: Seq<u8>)
    requires
        b.len() <= i32::MAX,
    ensures
        value_enc(ValueModel::Present(b)).take(4) == int_bytes(b.len() as i32),
        value_enc(ValueModel::Null) == seq![0xFFu8, 0xFFu8, 0xFFu8, 0xFFu8],
        value_enc(ValueModel::NotSet) == seq![0xFFu8, 0xFFu8, 0xFFu8, 0xFEu8],
{
    assert(value_enc(ValueModel::Present(b)).take(4) =~= int_bytes(b.len() as i32));
    let n: i32 = NULL_INT_VALUE;
    let m: i32 = NOT_SET_INT_VALUE;
    assert((((n as u32) >> 24u32) as u8) == 0xFF && (((n as u32) >> 16u32) as u8) == 0xFF && (((
    n as u32) >> 8u32) as u8) == 0xFF && ((n as u32) as u8) == 0xFF) by (bit_vector)
        requires
            n == -1i32,
    ;
    assert((((m as u32) >> 24u32) as u8) == 0xFF && (((m as u32) >> 16u32) as u8) == 0xFF && (((
    m as u32) >> 8u32) as u8) == 0xFF && ((m as u32) as u8) == 0xFE) by (bit_vector)
        requires
            m == -2i32,
    ;
    assert(value_enc(ValueModel::Null) =~= seq![0xFFu8, 0xFFu8, 0xFFu8, 0xFFu8]);
    assert(value_enc(ValueModel::NotSet) =~= seq![0xFFu8, 0xFFu8, 0xFFu8, 0xFEu8]);
}

/// A length prefix of zero decodes to a present, empty value, which is
/// neither null nor not-set.
pub proof fn lemma_value_zero_length(tail: Seq<u8>)
    ensures
        parse_value(int_bytes(0) + tail) == Ok::<(ValueModel, Seq<u8>), Error>(
            (ValueModel::Present(Seq::<u8>::empty()), tail),
        ),
{
    crate::codec::lemma_int_round_trip(0, tail);
    assert(tail.take(0) =~= Seq::<u8>::empty());
    assert(tail.skip(0) =~= tail);
}

} // verus!
