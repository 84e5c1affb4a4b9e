//! The chat payloads. Each message code selects one schema; a payload is the
//! bincode layout of the schema's text fields, one after the other.
pub mod client;
pub mod server;

use vstd::prelude::*;
use vstd::utf8::encode_utf8;
use crate::message_stream::MsgError;
use crate::wire::{
    after_seq, deserialize_str, deserialize_str_pair, seq_bytes, serialize_str,
    serialize_str_pair, str_complete, str_pair_complete, str_value,
};

verus! {

/// The payload of a schema with one text field.
pub open spec fn text_payload(s: Seq<char>) -> Seq<u8> {
    seq_bytes(encode_utf8(s))
}

/// The payload of a schema with two text fields.
pub open spec fn text_pair_payload(a: Seq<char>, b: Seq<char>) -> Seq<u8> {
    text_payload(a) + text_payload(b)
}

/// The text of a one-field payload, when it holds one.
pub open spec fn read_text(data: Seq<u8>) -> Option<Seq<char>> {
    if str_complete(data) {
        Some(str_value(data))
    } else {
        None
    }
}

/// The two texts of a two-field payload, when it holds them.
pub open spec fn read_text_pair(data: Seq<u8>) -> Option<(Seq<char>, Seq<char>)> {
    if str_pair_complete(data) {
        Some((str_value(data), str_value(after_seq(data))))
    } else {
        None
    }
}

pub(crate) fn encode_text(s: &str) -> (r: Vec<u8>)
    ensures
        r@ == text_payload(s@),
{
    match serialize_str(s) {
        Ok(v) => v,
        // serialize_str has no failing path
        Err(_) => Vec::new(),
    }
}

pub(crate) fn encode_text_pair(a: &str, b: &str) -> (r: Vec<u8>)
    ensures
        r@ == text_pair_payload(a@, b@),
{
    match serialize_str_pair(a, b) {
        Ok(v) => v,
        // serialize_str_pair has no failing path
        Err(_) => Vec::new(),
    }
}

pub(crate) fn decode_text<'a>(data: &'a [u8]) -> (r: Result<&'a str, MsgError>)
    ensures
        r is Ok <==> read_text(data@) is Some,
        r is Ok ==> read_text(data@) == Some(r->Ok_0@),
        r is Err ==> r->Err_0 is Deserialize,
{
    match deserialize_str(data) {
        Ok(s) => Ok(s),
        Err(e) => Err(MsgError::Deserialize(e)),
    }
}

pub(crate) fn decode_text_pair<'a>(data: &'a [u8]) -> (r: Result<(&'a str, &'a str), MsgError>)
    ensures
        r is Ok <==> read_text_pair(data@) is Some,
        r is Ok ==> read_text_pair(data@) == Some((r->Ok_0.0@, r->Ok_0.1@)),
        r is Err ==> r->Err_0 is Deserialize,
{
    match deserialize_str_pair(data) {
        Ok(v) => Ok(v),
        Err(e) => Err(MsgError::Deserialize(e)),
    }
}

} // verus!
