//! Messages that a client sends to the server.
use vstd::prelude::*;
use crate::message_stream::MsgError;
use crate::messages::{decode_text, encode_text, read_text, text_payload};

verus! {

/// The codes of the messages that a client sends.
pub enum Message {
    OnRegisterUser,
    OnSent,
}

impl Message {
    pub open spec fn spec_code(self) -> u32 {
        match self {
            Message::OnRegisterUser => 0,
            Message::OnSent => 1,
        }
    }

    /// The code that stands for this message on the wire.
    pub fn code(&self) -> (r: u32)
        ensures
            r == self.spec_code(),
    {
        match self {
            Message::OnRegisterUser => 0,
            Message::OnSent => 1,
        }
    }
}

/// Asks the server to register a user name.
pub struct MsgOnRegisterUser<'a> {
    pub user: &'a str,
}

impl<'a> MsgOnRegisterUser<'a> {
    pub fn to_payload(&self) -> (r: Vec<u8>)
        ensures
            r@ == text_payload(self.user@),
    {
        encode_text(self.user)
    }

    pub fn from_payload(data: &'a [u8]) -> (r: Result<MsgOnRegisterUser<'a>, MsgError>)
        ensures
            r is Ok <==> read_text(data@) is Some,
            r is Ok ==> read_text(data@) == Some(r->Ok_0.user@),
            r is Err ==> r->Err_0 is Deserialize,
    {
        match decode_text(data) {
            Ok(user) => Ok(MsgOnRegisterUser { user }),
            Err(e) => Err(e),
        }
    }
}

/// A line of chat for the server to pass on.
pub struct MsgOnSent<'a> {
    pub msg: &'a str,
}

impl<'a> MsgOnSent<'a> {
    pub fn to_payload(&self) -> (r: Vec<u8>)
        ensures
            r@ == text_payload(self.msg@),
    {
        encode_text(self.msg)
    }

    pub fn from_payload(data: &'a [u8]) -> (r: Result<MsgOnSent<'a>, MsgError>)
        ensures
            r is Ok <==> read_text(data@) is Some,
            r is Ok ==> read_text(data@) == Some(r->Ok_0.msg@),
            r is Err ==> r->Err_0 is Deserialize,
    {
        match decode_text(data) {
            Ok(msg) => Ok(MsgOnSent { msg }),
            Err(e) => Err(e),
        }
    }
}

} // verus!
