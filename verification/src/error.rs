//! Error values shared by the codec and the client.

use vstd::prelude::*;

verus! {

/// Why a value could not be encoded or decoded.
#[derive(Clone, Copy, Debug, PartialEq, Eq, Structural)]
pub enum XdrError {
    /// The source ran out of bytes before the value was complete.
    UnexpectedEof,
    /// The bytes of a string are not valid UTF-8.
    InvalidUtf8,
    /// A string to encode holds a character outside ASCII.
    NotAscii,
    /// A length does not fit the field that carries it on the wire.
    TooLong,
    /// A boolean was encoded as something other than 0 or 1.
    InvalidBool,
}

impl XdrError {
    /// The text that `message` returns.
    pub open spec fn spec_message(&self) -> Seq<char> {
        match *self {
            XdrError::UnexpectedEof => "unexpected end of data"@,
            XdrError::InvalidUtf8 => "string is not valid UTF-8"@,
            XdrError::NotAscii => "string is not ASCII"@,
            XdrError::TooLong => "length exceeds the wire format"@,
            XdrError::InvalidBool => "boolean is neither 0 nor 1"@,
        }
    }

    /// A short description of the error, for messages.
    pub fn message(&self) -> (text: &'static str)
        ensures
            text@ == self.spec_message(),
    {
        match self {
            XdrError::UnexpectedEof => "unexpected end of data",
            XdrError::InvalidUtf8 => "string is not valid UTF-8",
            XdrError::NotAscii => "string is not ASCII",
            XdrError::TooLong => "length exceeds the wire format",
            XdrError::InvalidBool => "boolean is neither 0 nor 1",
        }
    }
}

/// Why a call, or the search for the service, did not succeed.
#[derive(Clone, Copy, Debug, PartialEq, Eq, Structural)]
pub enum ClientError {
    /// A value could not be encoded, or the reply could not be decoded.
    Xdr(XdrError),
    /// A call was started while the session was not idle.
    NotIdle,
    /// A reply was handed in while no call was in flight.
    NoCallInFlight,
    /// The call with its arguments does not fit into one fragment.
    MessageTooLong,
    /// The server denied the call; the reply state is attached.
    ReplyDenied(u32),
    /// The server accepted the call but did not carry it out; the accept
    /// state is attached.
    CallFailed(u32),
    /// The portmapper knows no address for the service.
    ServerNotAvailable,
    /// The portmapper's answer is no universal address.
    InvalidAddress,
    /// The search for the service was told of something that could not have
    /// happened where it stood.
    UnexpectedEvent,
}

impl ClientError {
    /// A short description of the error, for messages.
    pub fn message(&self) -> (text: &'static str)
        ensures
            text@ == match *self {
                ClientError::Xdr(e) => e.spec_message(),
                ClientError::NotIdle => "a call is already in flight"@,
                ClientError::NoCallInFlight => "no call is in flight"@,
                ClientError::MessageTooLong => "call does not fit into one fragment"@,
                ClientError::ReplyDenied(_) => "call was denied by the server"@,
                ClientError::CallFailed(_) => "call was not carried out by the server"@,
                ClientError::ServerNotAvailable => "clnt_create: Rpc-Server not available"@,
                ClientError::InvalidAddress => "universal address is malformed"@,
                ClientError::UnexpectedEvent => "event does not fit the state"@,
            },
    {
        match self {
            ClientError::Xdr(e) => e.message(),
            ClientError::NotIdle => "a call is already in flight",
            ClientError::NoCallInFlight => "no call is in flight",
            ClientError::MessageTooLong => "call does not fit into one fragment",
            ClientError::ReplyDenied(_) => "call was denied by the server",
            ClientError::CallFailed(_) => "call was not carried out by the server",
            ClientError::ServerNotAvailable => "clnt_create: Rpc-Server not available",
            ClientError::InvalidAddress => "universal address is malformed",
            ClientError::UnexpectedEvent => "event does not fit the state",
        }
    }
}

} // verus!
