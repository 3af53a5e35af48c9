use vstd::prelude::*;
use vstd::utf8::encode_utf8;

verus! {

/// A field identifier: the position of a field in the schema's catalog.
pub type FieldId = u32;

/// Type tag that opens the encoded value of a text term.
pub const TYPE_TAG_STR: u8 = 115;

/// Type tag that opens the encoded value of a boolean term.
pub const TYPE_TAG_BOOL: u8 = 111;

/// Type tag that opens the encoded value of a term addressing a path
/// inside a JSON field.
pub const TYPE_TAG_JSON: u8 = 106;

/// Byte that closes the path part of a JSON term's encoded value.
pub const JSON_END_OF_PATH: u8 = 0;

/// Type tag that opens the encoded value of an unsigned integer term.
pub const TYPE_TAG_U64: u8 = 117;

/// Type tag that opens the encoded value of a signed integer term.
pub const TYPE_TAG_I64: u8 = 105;

/// Type tag that opens the encoded value of an IP address term.
pub const TYPE_TAG_IP: u8 = 112;

/// Type tag that opens the encoded value of a date term.
pub const TYPE_TAG_DATE: u8 = 100;

/// A term: a field identifier paired with a type-tagged byte encoding of
/// a value, laid out so that comparing the bytes orders terms as the
/// index's term dictionary does.
#[derive(Debug, Clone, PartialEq, Eq, Hash)]
pub struct Term {
    pub field: FieldId,
    pub bytes: Vec<u8>,
}

/// The mathematical value of a `Term`.
pub struct TermV {
    pub field: FieldId,
    pub bytes: Seq<u8>,
}

impl View for Term {
    type V = TermV;

    open spec fn view(&self) -> TermV {
        TermV { field: self.field, bytes: self.bytes@ }
    }
}

/// One end of a term range.
#[derive(Debug, Clone, PartialEq, Eq, Hash)]
pub enum TermBound {
    Unbounded,
    Included(Term),
    Excluded(Term),
}

/// The mathematical value of a `TermBound`.
pub enum TermBoundV {
    Unbounded,
    Included(TermV),
    Excluded(TermV),
}

impl View for TermBound {
    type V = TermBoundV;

    open spec fn view(&self) -> TermBoundV {
        match self {
            TermBound::Unbounded => TermBoundV::Unbounded,
            TermBound::Included(t) => TermBoundV::Included(t@),
            TermBound::Excluded(t) => TermBoundV::Excluded(t@),
        }
    }
}

/// A contiguous range of terms, together with a cap on how many distinct
/// terms the range may expand to during execution.
#[derive(Debug, Clone, PartialEq, Eq, Hash)]
pub struct TermRange {
    pub start: TermBound,
    pub end: TermBound,
    pub limit: Option<u64>,
}

/// The mathematical value of a `TermRange`.
pub struct TermRangeV {
    pub start: TermBoundV,
    pub end: TermBoundV,
    pub limit: Option<u64>,
}

impl View for TermRange {
    type V = TermRangeV;

    open spec fn view(&self) -> TermRangeV {
        TermRangeV { start: self.start@, end: self.end@, limit: self.limit }
    }
}

/// The encoded value of a text term: the type tag followed by the UTF-8
/// bytes of the text.
pub open spec fn text_term_bytes(text: Seq<char>) -> Seq<u8> {
    seq![TYPE_TAG_STR] + encode_utf8(text)
}

/// The mathematical value of a text term on the given field.
pub open spec fn text_term_v(field: FieldId, text: Seq<char>) -> TermV {
    TermV { field, bytes: text_term_bytes(text) }
}

/// The encoded value of a text term stored under a path inside a JSON field.
pub open spec fn json_term_bytes(path: Seq<char>, text: Seq<char>) -> Seq<u8> {
    seq![TYPE_TAG_JSON] + encode_utf8(path) + seq![JSON_END_OF_PATH] + seq![TYPE_TAG_STR]
        + encode_utf8(text)
}

/// The mathematical value of a JSON-path text term on the given field.
pub open spec fn json_term_v(field: FieldId, path: Seq<char>, text: Seq<char>) -> TermV {
    TermV { field, bytes: json_term_bytes(path, text) }
}

/// The eight big-endian bytes of an unsigned integer: equal integers give
/// equal bytes, and larger integers give lexicographically larger bytes.
pub open spec fn u64_be_bytes(v: u64) -> Seq<u8> {
    seq![
        (v >> 56) as u8,
        (v >> 48) as u8,
        (v >> 40) as u8,
        (v >> 32) as u8,
        (v >> 24) as u8,
        (v >> 16) as u8,
        (v >> 8) as u8,
        v as u8,
    ]
}

/// The unsigned key a signed integer orders by: the value shifted up into
/// the unsigned range, so that the big-endian bytes of the key order as
/// the signed values do.
pub open spec fn i64_order_key(v: i64) -> u64 {
    ((v as int) + 0x8000_0000_0000_0000) as u64
}

/// The encoded value of an unsigned integer term.
pub open spec fn u64_term_bytes(v: u64) -> Seq<u8> {
    seq![TYPE_TAG_U64] + u64_be_bytes(v)
}

/// The mathematical value of an unsigned integer term on the given field.
pub open spec fn u64_term_v(field: FieldId, v: u64) -> TermV {
    TermV { field, bytes: u64_term_bytes(v) }
}

/// The encoded value of a signed integer term.
pub open spec fn i64_term_bytes(v: i64) -> Seq<u8> {
    seq![TYPE_TAG_I64] + u64_be_bytes(i64_order_key(v))
}

/// The mathematical value of a signed integer term on the given field.
pub open spec fn i64_term_v(field: FieldId, v: i64) -> TermV {
    TermV { field, bytes: i64_term_bytes(v) }
}

/// The encoded value of a date term: the date's milliseconds since the
/// Unix epoch, in the order-preserving eight-byte layout signed integer
/// terms use.
pub open spec fn date_term_bytes(millis: i64) -> Seq<u8> {
    seq![TYPE_TAG_DATE] + u64_be_bytes(i64_order_key(millis))
}

/// The mathematical value of a date term on the given field.
pub open spec fn date_term_v(field: FieldId, millis: i64) -> TermV {
    TermV { field, bytes: date_term_bytes(millis) }
}

/// The encoded value of an IP address term: the sixteen bytes of the
/// address in its IPv6 form, big-endian, an IPv4 address mapped into the
/// `::ffff:0:0/96` block.
pub open spec fn ip_term_bytes(octets: Seq<u8>) -> Seq<u8>
    recommends
        octets.len() == 4,
{
    seq![
        TYPE_TAG_IP,
        0u8,
        0u8,
        0u8,
        0u8,
        0u8,
        0u8,
        0u8,
        0u8,
        0u8,
        0u8,
        0xffu8,
        0xffu8,
    ] + octets
}

/// The mathematical value of an IP address term on the given field.
pub open spec fn ip_term_v(field: FieldId, octets: Seq<u8>) -> TermV {
    TermV { field, bytes: ip_term_bytes(octets) }
}

/// The encoded value of a boolean term: false below true, in the same
/// eight-byte layout the integer terms use.
pub open spec fn bool_term_bytes(value: bool) -> Seq<u8> {
    seq![TYPE_TAG_BOOL] + u64_be_bytes(
        if value {
            1u64
        } else {
            0u64
        },
    )
}

/// The mathematical value of a boolean term on the given field.
pub open spec fn bool_term_v(field: FieldId, value: bool) -> TermV {
    TermV { field, bytes: bool_term_bytes(value) }
}

/// Builds a text term on `field`.
pub fn text_term(field: FieldId, text: &str) -> (t: Term)
    ensures
        t@ == text_term_v(field, text@),
{
    let mut bytes: Vec<u8> = Vec::new();
    bytes.push(TYPE_TAG_STR);
    bytes.extend_from_slice(text.as_bytes());
    proof {
        assert(bytes@ =~= text_term_bytes(text@));
    }
    Term { field, bytes }
}

/// Builds a text term stored under `path` inside the JSON field `field`.
pub fn json_term(field: FieldId, path: &str, text: &str) -> (t: Term)
    ensures
        t@ == json_term_v(field, path@, text@),
{
    let mut bytes: Vec<u8> = Vec::new();
    bytes.push(TYPE_TAG_JSON);
    bytes.extend_from_slice(path.as_bytes());
    bytes.push(JSON_END_OF_PATH);
    bytes.push(TYPE_TAG_STR);
    bytes.extend_from_slice(text.as_bytes());
    proof {
        assert(bytes@ =~= json_term_bytes(path@, text@));
    }
    Term { field, bytes }
}

/// Appends the eight big-endian bytes of `v`.
fn push_u64_be(bytes: &mut Vec<u8>, v: u64)
    ensures
        final(bytes)@ == old(bytes)@ + u64_be_bytes(v),
{
    bytes.push((v >> 56) as u8);
    bytes.push((v >> 48) as u8);
    bytes.push((v >> 40) as u8);
    bytes.push((v >> 32) as u8);
    bytes.push((v >> 24) as u8);
    bytes.push((v >> 16) as u8);
    bytes.push((v >> 8) as u8);
    bytes.push(v as u8);
    proof {
        assert(bytes@ =~= old(bytes)@ + u64_be_bytes(v));
    }
}

/// The unsigned key `v` orders by.
fn i64_key(v: i64) -> (k: u64)
    ensures
        k == i64_order_key(v),
{
    if v >= 0 {
        (v as u64) + 0x8000_0000_0000_0000u64
    } else {
        let magnitude = (-(v + 1)) as u64;
        0x7fff_ffff_ffff_ffffu64 - magnitude
    }
}

/// Builds an unsigned integer term on `field`.
pub fn u64_term(field: FieldId, v: u64) -> (t: Term)
    ensures
        t@ == u64_term_v(field, v),
{
    let mut bytes: Vec<u8> = Vec::new();
    bytes.push(TYPE_TAG_U64);
    push_u64_be(&mut bytes, v);
    proof {
        assert(bytes@ =~= u64_term_bytes(v));
    }
    Term { field, bytes }
}

/// Builds a signed integer term on `field`.
pub fn i64_term(field: FieldId, v: i64) -> (t: Term)
    ensures
        t@ == i64_term_v(field, v),
{
    let mut bytes: Vec<u8> = Vec::new();
    bytes.push(TYPE_TAG_I64);
    let key = i64_key(v);
    push_u64_be(&mut bytes, key);
    proof {
        assert(bytes@ =~= i64_term_bytes(v));
    }
    Term { field, bytes }
}

/// Builds a date term on `field` from milliseconds since the Unix epoch.
pub fn date_term(field: FieldId, millis: i64) -> (t: Term)
    ensures
        t@ == date_term_v(field, millis),
{
    let mut bytes: Vec<u8> = Vec::new();
    bytes.push(TYPE_TAG_DATE);
    let key = i64_key(millis);
    push_u64_be(&mut bytes, key);
    proof {
        assert(bytes@ =~= date_term_bytes(millis));
    }
    Term { field, bytes }
}

/// Builds an IP address term on `field` from the address's four octets.
pub fn ip_term(field: FieldId, octets: &Vec<u8>) -> (t: Term)
    requires
        octets@.len() == 4,
    ensures
        t@ == ip_term_v(field, octets@),
{
    let mut bytes: Vec<u8> = Vec::new();
    bytes.push(TYPE_TAG_IP);
    let mut i: usize = 0;
    while i < 10
        invariant
            0 <= i <= 10,
            bytes@.len() == 1 + i,
            bytes@[0] == TYPE_TAG_IP,
            forall|j: int| 1 <= j < bytes@.len() ==> bytes@[j] == 0u8,
        decreases 10 - i,
    {
        bytes.push(0);
        i = i + 1;
    }
    bytes.push(0xff);
    bytes.push(0xff);
    bytes.extend_from_slice(octets.as_slice());
    proof {
        assert(bytes@ =~= ip_term_bytes(octets@));
    }
    Term { field, bytes }
}

/// Builds a boolean term on `field`.
pub fn bool_term(field: FieldId, value: bool) -> (t: Term)
    ensures
        t@ == bool_term_v(field, value),
{
    let mut bytes: Vec<u8> = Vec::new();
    bytes.push(TYPE_TAG_BOOL);
    push_u64_be(&mut bytes, if value { 1 } else { 0 });
    proof {
        assert(bytes@ =~= bool_term_bytes(value));
    }
    Term { field, bytes }
}

impl Term {
    /// A copy of this term with the same field and bytes.
    pub fn duplicate(&self) -> (t: Term)
        ensures
            t@ == self@,
    {
        let mut bytes: Vec<u8> = Vec::new();
        bytes.extend_from_slice(self.bytes.as_slice());
        proof {
            assert(bytes@ =~= self.bytes@);
        }
        Term { field: self.field, bytes }
    }
}

/// Decides equality of two byte strings.
pub fn bytes_eq(a: &Vec<u8>, b: &Vec<u8>) -> (r: bool)
    ensures
        r == (a@ == b@),
{
    if a.len() != b.len() {
        return false;
    }
    let mut i: usize = 0;
    while i < a.len()
        invariant
            a@.len() == b@.len(),
            0 <= i <= a@.len(),
            forall|j: int| 0 <= j < i ==> a@[j] == b@[j],
        decreases a@.len() - i,
    {
        if a[i] != b[i] {
            return false;
        }
        i = i + 1;
    }
    proof {
        assert(a@ =~= b@);
    }
    true
}

/// Decides equality of two terms, as equality of their mathematical values.
pub fn term_eq(a: &Term, b: &Term) -> (r: bool)
    ensures
        r == (a@ == b@),
{
    a.field == b.field && bytes_eq(&a.bytes, &b.bytes)
}

/// Decides equality of two term bounds.
pub fn term_bound_eq(a: &TermBound, b: &TermBound) -> (r: bool)
    ensures
        r == (a@ == b@),
{
    match (a, b) {
        (TermBound::Unbounded, TermBound::Unbounded) => true,
        (TermBound::Included(x), TermBound::Included(y)) => term_eq(x, y),
        (TermBound::Excluded(x), TermBound::Excluded(y)) => term_eq(x, y),
        _ => false,
    }
}

/// Decides equality of two term ranges: start bound, end bound and limit
/// must all be equal.
pub fn term_range_eq(a: &TermRange, b: &TermRange) -> (r: bool)
    ensures
        r == (a@ == b@),
{
    let limits_equal = match (a.limit, b.limit) {
        (Option::None, Option::None) => true,
        (Option::Some(x), Option::Some(y)) => x == y,
        _ => false,
    };
    limits_equal && term_bound_eq(&a.start, &b.start) && term_bound_eq(&a.end, &b.end)
}

} // verus!
