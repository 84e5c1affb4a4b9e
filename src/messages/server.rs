//! Messages that the server sends to its clients.
use vstd::prelude::*;
use crate::message_stream::MsgError;
use crate::messages::{
    decode_text, decode_text_pair, encode_text, encode_text_pair, read_text, read_text_pair,
    text_pair_payload, text_payload,
};

verus! {

/// The codes of the messages that the server sends.
pub enum Message {
    OnConnect,
    OnDisconnect,
    OnRegisterUser,
    OnAlreadyRegisteredUser,
    OnRegistrationSuccess,
    OnSent,
}

impl Message {
    pub open spec fn spec_code(self) -> u32 {
        match self {
            Message::OnConnect => 0,
            Message::OnDisconnect => 1,
            Message::OnRegisterUser => 2,
            Message::OnAlreadyRegisteredUser => 3,
            Message::OnRegistrationSuccess => 4,
            Message::OnSent => 5,
        }
    }

    /// The code that stands for this message on the wire.
    pub fn code(&self) -> (r: u32)
        ensures
            r == self.spec_code(),
    {
        match self {
            Message::OnConnect => 0,
            Message::OnDisconnect => 1,
            Message::OnRegisterUser => 2,
            Message::OnAlreadyRegisteredUser => 3,
            Message::OnRegistrationSuccess => 4,
            Message::OnSent => 5,
        }
    }
}

/// A client connected; its schema carries nothing.
pub struct MsgOnConnect {}

/// A user has joined.
pub struct MsgOnRegisterUser<'a> {
    pub user: &'a str,
}

impl<'a> MsgOnRegisterUser<'a> {
    pub fn to_payload(&self) -> (r: Vec<u8>)
        ensures
            r@ == text_payload(self.user@),
    {
        encode_text(self.user)
    }

    pub fn from_payload(data: &'a [u8]) -> (r: Result<MsgOnRegisterUser<'a>, MsgError>)
        ensures
            r is Ok <==> read_text(data@) is Some,
            r is Ok ==> read_text(data@) == Some(r->Ok_0.user@),
            r is Err ==> r->Err_0 is Deserialize,
    {
        match decode_text(data) {
            Ok(user) => Ok(MsgOnRegisterUser { user }),
            Err(e) => Err(e),
        }
    }
}

/// The name that a client asked for is taken.
pub struct MsgAlreadyRegisteredUser<'a> {
    pub user: &'a str,
}

impl<'a> MsgAlreadyRegisteredUser<'a> {
    pub fn to_payload(&self) -> (r: Vec<u8>)
        ensures
            r@ == text_payload(self.user@),
    {
        encode_text(self.user)
    }

    pub fn from_payload(data: &'a [u8]) -> (r: Result<MsgAlreadyRegisteredUser<'a>, MsgError>)
        ensures
            r is Ok <==> read_text(data@) is Some,
            r is Ok ==> read_text(data@) == Some(r->Ok_0.user@),
            r is Err ==> r->Err_0 is Deserialize,
    {
        match decode_text(data) {
            Ok(user) => Ok(MsgAlreadyRegisteredUser { user }),
            Err(e) => Err(e),
        }
    }
}

/// The name that a client asked for is now its own.
pub struct MsgRegistrationSuccess<'a> {
    pub user: &'a str,
}

impl<'a> MsgRegistrationSuccess<'a> {
    pub fn to_payload(&self) -> (r: Vec<u8>)
        ensures
            r@ == text_payload(self.user@),
    {
        encode_text(self.user)
    }

    pub fn from_payload(data: &'a [u8]) -> (r: Result<MsgRegistrationSuccess<'a>, MsgError>)
        ensures
            r is Ok <==> read_text(data@) is Some,
            r is Ok ==> read_text(data@) == Some(r->Ok_0.user@),
            r is Err ==> r->Err_0 is Deserialize,
    {
        match decode_text(data) {
            Ok(user) => Ok(MsgRegistrationSuccess { user }),
            Err(e) => Err(e),
        }
    }
}

/// A registered user has left.
pub struct MsgOnDisconnect<'a> {
    pub user: &'a str,
}

impl<'a> MsgOnDisconnect<'a> {
    pub fn to_payload(&self) -> (r: Vec<u8>)
        ensures
            r@ == text_payload(self.user@),
    {
        encode_text(self.user)
    }

    pub fn from_payload(data: &'a [u8]) -> (r: Result<MsgOnDisconnect<'a>, MsgError>)
        ensures
            r is Ok <==> read_text(data@) is Some,
            r is Ok ==> read_text(data@) == Some(r->Ok_0.user@),
            r is Err ==> r->Err_0 is Deserialize,
    {
        match decode_text(data) {
            Ok(user) => Ok(MsgOnDisconnect { user }),
            Err(e) => Err(e),
        }
    }
}

/// A line of chat from `user`, passed on to the other clients.
pub struct MsgOnSent<'a, 'b> {
    pub user: &'a str,
    pub msg: &'b str,
}

impl<'a, 'b> MsgOnSent<'a, 'b> {
    pub fn to_payload(&self) -> (r: Vec<u8>)
        ensures
            r@ == text_pair_payload(self.user@, self.msg@),
    {
        encode_text_pair(self.user, self.msg)
    }
}

impl<'a> MsgOnSent<'a, 'a> {
    pub fn from_payload(data: &'a [u8]) -> (r: Result<MsgOnSent<'a, 'a>, MsgError>)
        ensures
            r is Ok <==> read_text_pair(data@) is Some,
            r is Ok ==> read_text_pair(data@) == Some((r->Ok_0.user@, r->Ok_0.msg@)),
            r is Err ==> r->Err_0 is Deserialize,
    {
        match decode_text_pair(data) {
            Ok(v) => Ok(MsgOnSent { user: v.0, msg: v.1 }),
            Err(e) => Err(e),
        }
    }
}

} // verus!
