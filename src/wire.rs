//! Byte-level encodings: little-endian integers and the bincode layouts of the
//! few std values the protocol carries.
use vstd::prelude::*;
use byteorder::{ByteOrder, LittleEndian};
use vstd::utf8::{decode_utf8, encode_utf8, valid_utf8};

verus! {

/// Value of the first four bytes of `b`, least significant first.
pub open spec fn le_u32(b: Seq<u8>) -> nat
    recommends
        b.len() >= 4,
{
    b[0] as nat + 256 * (b[1] as nat) + 65536 * (b[2] as nat) + 16777216 * (b[3] as nat)
}

/// Value of the first eight bytes of `b`, least significant first.
pub open spec fn le_u64(b: Seq<u8>) -> nat
    recommends
        b.len() >= 8,
{
    le_u32(b) + 4294967296 * le_u32(b.subrange(4, 8))
}

/// The four bytes of `x`, least significant first.
pub open spec fn u32_le_bytes(x: nat) -> Seq<u8> {
    seq![
        (x % 256) as u8,
        (x / 256 % 256) as u8,
        (x / 65536 % 256) as u8,
        (x / 16777216 % 256) as u8,
    ]
}

/// The eight bytes of `x`, least significant first.
pub open spec fn u64_le_bytes(x: nat) -> Seq<u8> {
    u32_le_bytes(x % 4294967296) + u32_le_bytes(x / 4294967296 % 4294967296)
}

pub proof fn lemma_le_u32_round_trip(x: nat)
    requires
        x < 4294967296,
    ensures
        u32_le_bytes(x).len() == 4,
        le_u32(u32_le_bytes(x)) == x,
{
    let b = u32_le_bytes(x);
    assert(b[0] == x % 256);
    assert(b[1] == x / 256 % 256);
    assert(b[2] == x / 65536 % 256);
    assert(b[3] == x / 16777216 % 256);
    assert(x / 16777216 % 256 == x / 16777216);
    assert(x == x % 256 + 256 * (x / 256 % 256) + 65536 * (x / 65536 % 256) + 16777216 * (x
        / 16777216)) by (nonlinear_arith)
        requires
            x < 4294967296,
    ;
}

pub proof fn lemma_le_u64_round_trip(x: nat)
    requires
        x < 18446744073709551616,
    ensures
        u64_le_bytes(x).len() == 8,
        le_u64(u64_le_bytes(x)) == x,
{
    let lo = x % 4294967296;
    let hi = x / 4294967296 % 4294967296;
    lemma_le_u32_round_trip(lo);
    lemma_le_u32_round_trip(hi);
    let b = u64_le_bytes(x);
    assert(b.subrange(0, 4) =~= u32_le_bytes(lo));
    assert(b.subrange(4, 8) =~= u32_le_bytes(hi));
    assert(le_u32(b) == le_u32(u32_le_bytes(lo)));
    assert(x / 4294967296 % 4294967296 == x / 4294967296);
    vstd::arithmetic::div_mod::lemma_fundamental_div_mod(x as int, 4294967296);
}

/// Relies on byteorder's `LittleEndian::read_u32`: the first four bytes of
/// `buf`, least significant first (it panics on fewer than four).
#[verifier::external_body]
pub(crate) fn read_u32_le(buf: &[u8]) -> (r: u32)
    requires
        buf@.len() >= 4,
    ensures
        r == le_u32(buf@),
{
    LittleEndian::read_u32(buf)
}

/// Relies on byteorder's `LittleEndian::write_u32`: the four bytes of `n`,
/// least significant first.
#[verifier::external_body]
pub(crate) fn u32_le(n: u32) -> (r: Vec<u8>)
    ensures
        r@ == u32_le_bytes(n as nat),
{
    let mut b = [0u8; 4];
    LittleEndian::write_u32(&mut b, n);
    b.to_vec()
}

/// bincode's error, carried unopened inside the library's own errors.
#[verifier::external_type_specification]
#[verifier::external_body]
pub struct ExBincodeErrorKind(bincode::ErrorKind);

/// bincode's layout of a sequence of bytes (also of a string's UTF-8 bytes):
/// its length in eight bytes, then the bytes.
pub open spec fn seq_bytes(b: Seq<u8>) -> Seq<u8> {
    u64_le_bytes(b.len()) + b
}

/// bincode's layout of a `(u32, bytes)` pair, the envelope of one frame.
pub open spec fn envelope_bytes(code: u32, payload: Seq<u8>) -> Seq<u8> {
    u32_le_bytes(code as nat) + seq_bytes(payload)
}

/// `b` starts with a whole length-prefixed sequence.
pub open spec fn seq_complete(b: Seq<u8>) -> bool {
    b.len() >= 8 && 8 + le_u64(b) <= b.len()
}

/// Where the length-prefixed sequence at the start of `b` ends.
pub open spec fn seq_end(b: Seq<u8>) -> int {
    8 + le_u64(b) as int
}

/// The bytes of the length-prefixed sequence at the start of `b`.
pub open spec fn seq_body(b: Seq<u8>) -> Seq<u8> {
    b.subrange(8, seq_end(b))
}

/// `b` starts with a whole length-prefixed sequence that is valid UTF-8.
pub open spec fn str_complete(b: Seq<u8>) -> bool {
    seq_complete(b) && valid_utf8(seq_body(b))
}

/// The text of the length-prefixed string at the start of `b`.
pub open spec fn str_value(b: Seq<u8>) -> Seq<char> {
    decode_utf8(seq_body(b))
}

/// What follows the length-prefixed sequence at the start of `b`.
pub open spec fn after_seq(b: Seq<u8>) -> Seq<u8> {
    b.subrange(seq_end(b), b.len() as int)
}

/// `b` starts with two whole length-prefixed strings, each valid UTF-8.
pub open spec fn str_pair_complete(b: Seq<u8>) -> bool {
    str_complete(b) && str_complete(after_seq(b))
}

/// `b` starts with a whole envelope: a code, then a length-prefixed payload.
pub open spec fn envelope_complete(b: Seq<u8>) -> bool {
    b.len() >= 4 && seq_complete(b.subrange(4, b.len() as int))
}

/// The code at the start of an envelope.
pub open spec fn envelope_code(b: Seq<u8>) -> u32 {
    le_u32(b) as u32
}

/// The payload that an envelope carries after its code.
pub open spec fn envelope_payload(b: Seq<u8>) -> Seq<u8> {
    seq_body(b.subrange(4, b.len() as int))
}

/// Relies on `bincode::serialize` (bincode 1, default options: fixed-width
/// little-endian integers, a sequence as its u64 length then its items) of a
/// `(u32, &[u8])` pair. Writing into a fresh `Vec` with no size limit has no
/// failing path for these types.
#[verifier::external_body]
pub(crate) fn serialize_envelope(code: u32, payload: &[u8]) -> (r: Result<
    Vec<u8>,
    Box<bincode::ErrorKind>,
>)
    ensures
        r is Ok,
        r is Ok ==> r->Ok_0@ == envelope_bytes(code, payload@),
{
    bincode::serialize(&(code, payload))
}

/// Relies on `bincode::deserialize` of a `(u32, Vec<u8>)` pair: it succeeds
/// exactly when the bytes hold the code and the whole payload that the length
/// declares; bytes after it are ignored.
#[verifier::external_body]
pub(crate) fn deserialize_envelope(bytes: &[u8]) -> (r: Result<(u32, Vec<u8>), Box<bincode::ErrorKind>>)
    ensures
        r is Ok <==> envelope_complete(bytes@),
        r is Ok ==> r->Ok_0.0 == envelope_code(bytes@),
        r is Ok ==> r->Ok_0.1@ == envelope_payload(bytes@),
{
    bincode::deserialize::<(u32, Vec<u8>)>(bytes)
}

/// Relies on `bincode::serialize` of a `str`: its UTF-8 length in eight bytes,
/// then its UTF-8 bytes; no failing path when writing into a fresh `Vec`.
#[verifier::external_body]
pub(crate) fn serialize_str(s: &str) -> (r: Result<Vec<u8>, Box<bincode::ErrorKind>>)
    ensures
        r is Ok,
        r is Ok ==> r->Ok_0@ == seq_bytes(encode_utf8(s@)),
{
    bincode::serialize(s)
}

/// Relies on `bincode::serialize` of a `(&str, &str)` pair: the two strings'
/// layouts one after the other; no failing path when writing into a fresh `Vec`.
#[verifier::external_body]
pub(crate) fn serialize_str_pair(a: &str, b: &str) -> (r: Result<Vec<u8>, Box<bincode::ErrorKind>>)
    ensures
        r is Ok,
        r is Ok ==> r->Ok_0@ == seq_bytes(encode_utf8(a@)) + seq_bytes(encode_utf8(b@)),
{
    bincode::serialize(&(a, b))
}

/// Relies on `bincode::deserialize` of a borrowed `&str`: it succeeds exactly
/// when the bytes hold the whole length-prefixed text and that text is valid
/// UTF-8; bytes after it are ignored.
#[verifier::external_body]
pub(crate) fn deserialize_str<'a>(bytes: &'a [u8]) -> (r: Result<&'a str, Box<bincode::ErrorKind>>)
    ensures
        r is Ok <==> str_complete(bytes@),
        r is Ok ==> r->Ok_0@ == str_value(bytes@),
{
    bincode::deserialize::<&'a str>(bytes)
}

/// Relies on `bincode::deserialize` of a `(&str, &str)` pair: two strings read
/// one after the other, each as `deserialize_str` reads one.
#[verifier::external_body]
pub(crate) fn deserialize_str_pair<'a>(bytes: &'a [u8]) -> (r: Result<
    (&'a str, &'a str),
    Box<bincode::ErrorKind>,
>)
    ensures
        r is Ok <==> str_pair_complete(bytes@),
        r is Ok ==> r->Ok_0.0@ == str_value(bytes@),
        r is Ok ==> r->Ok_0.1@ == str_value(after_seq(bytes@)),
{
    bincode::deserialize::<(&'a str, &'a str)>(bytes)
}

} // verus!
