//! The session: one call at a time, from arguments to framed request and from
//! framed reply to result.
//!
//! The session holds no socket. `send_request` returns the bytes to put on
//! the stream, and `recv` takes the bytes that came back.

use crate::error::{ClientError, XdrError};
use crate::message::{RpcCall, RpcReply, RpcRequest, MSG_ACCEPTED, MSG_CALL, RPC_VERSION, SUCCESS};
use crate::record::{defragment, fragment_wire, FragmentHeader, FragmentReader, MAX_FRAGMENT_LEN};
use crate::xdr::bigendian::{i32_of_bits, u32_of_be};
use crate::xdr::opaque::{parse_fixed, read_padded};
use crate::xdr::source::{ByteSource, SliceReader};
use crate::xdr::{XdrDeserialize, XdrSerialize};
use vstd::prelude::*;

verus! {

broadcast use crate::xdr::bigendian::group_be_len;

/// The transaction id that every call carries. One call is in flight at a
/// time on an ordered stream, so replies need no matching by id.
pub const XID: u32 = 123456;

/// Where a session stands.
#[derive(Clone, Copy, Debug, PartialEq, Eq, Structural)]
pub enum SessionState {
    /// No call is in flight.
    Idle,
    /// A request was handed out and its reply has not been taken in.
    AwaitingReply,
    /// A reply could not be used. The session is to be discarded.
    Failed,
}

/// A session with one program in one version.
#[derive(Debug)]
pub struct RpcClient {
    program: u32,
    version: u32,
    state: SessionState,
}

/// The buffers of a caller who wants the reply's union written in place: the
/// discriminant into `discriminant`, the bytes of the opaque array that
/// follows it into `data`.
#[derive(Debug)]
pub struct RawResponseUnion<'a, DISCRIMINANT> {
    pub discriminant: &'a mut DISCRIMINANT,
    pub data_length: &'a mut usize,
    pub data: &'a mut [u8],
}

/// The envelope of a call of `procedure`.
pub open spec fn request_envelope(program: u32, version: u32, procedure: u32) -> RpcRequest {
    RpcRequest {
        header: RpcCall { xid: XID, msg_type: MSG_CALL },
        rpc_version: RPC_VERSION,
        program_num: program,
        version_num: version,
        proc_num: procedure,
        credentials: 0,
        verifier: 0,
    }
}

/// A call before framing: the envelope, then the encoded arguments.
pub open spec fn call_message(program: u32, version: u32, procedure: u32, args: Seq<u8>) -> Seq<
    u8,
> {
    request_envelope(program, version, procedure).wire() + args
}

/// What a reply message holds for a caller who expects a `T`: the value
/// behind an envelope that reports success, or the error.
pub open spec fn parse_reply<T: XdrDeserialize>(message: Seq<u8>) -> Result<T::Model, ClientError> {
    match RpcReply::parse(message) {
        Err(e) => Err(ClientError::Xdr(e)),
        Ok((reply, k)) => if reply.reply_state != MSG_ACCEPTED {
            Err(ClientError::ReplyDenied(reply.reply_state))
        } else if reply.accept_state != SUCCESS {
            Err(ClientError::CallFailed(reply.accept_state))
        } else {
            match T::parse(message.skip(k as int)) {
                Err(e) => Err(ClientError::Xdr(e)),
                Ok((value, _)) => Ok(value),
            }
        },
    }
}

/// The length that a reply message announces for the opaque array of its
/// union, or the error that stands before it.
pub open spec fn raw_union_length(message: Seq<u8>) -> Result<u32, ClientError> {
    match RpcReply::parse(message) {
        Err(e) => Err(ClientError::Xdr(e)),
        Ok((reply, k)) => if reply.reply_state != MSG_ACCEPTED {
            Err(ClientError::ReplyDenied(reply.reply_state))
        } else if reply.accept_state != SUCCESS {
            Err(ClientError::CallFailed(reply.accept_state))
        } else if message.skip(k as int).len() < 8 {
            Err(ClientError::Xdr(XdrError::UnexpectedEof))
        } else {
            Ok(u32_of_be(message.skip(k as int).skip(4)))
        },
    }
}

/// What a reply message holds for a caller who wants its union as it is:
/// the discriminant and the bytes of the array behind it, or the error.
pub open spec fn parse_raw_union(message: Seq<u8>) -> Result<(i32, Seq<u8>), ClientError> {
    match raw_union_length(message) {
        Err(e) => Err(e),
        Ok(len) => {
            let body = message.skip(24);
            match parse_fixed(body.skip(8), len as nat) {
                Err(e) => Err(ClientError::Xdr(e)),
                Ok((data, _)) => Ok((i32_of_bits(u32_of_be(body)), data)),
            }
        },
    }
}

/// Reads the envelope of a reply and tells whether it reports success.
fn read_reply_envelope<R: ByteSource>(reader: &mut R) -> (r: Result<(), ClientError>)
    ensures
        match r {
            Ok(_) => match RpcReply::parse(old(reader).remaining()) {
                Ok((reply, k)) => {
                    &&& reply.reply_state == MSG_ACCEPTED
                    &&& reply.accept_state == SUCCESS
                    &&& k <= old(reader).remaining().len()
                    &&& final(reader).remaining() == old(reader).remaining().skip(k as int)
                },
                Err(_) => false,
            },
            Err(e) => match RpcReply::parse(old(reader).remaining()) {
                Err(x) => e == ClientError::Xdr(x),
                Ok((reply, _)) => if reply.reply_state != MSG_ACCEPTED {
                    e == ClientError::ReplyDenied(reply.reply_state)
                } else {
                    reply.accept_state != SUCCESS && e == ClientError::CallFailed(
                        reply.accept_state,
                    )
                },
            },
        },
{
    let reply = match RpcReply::deserialize(reader) {
        Ok(reply) => reply,
        Err(e) => {
            return Err(ClientError::Xdr(e));
        },
    };
    if reply.reply_state != MSG_ACCEPTED {
        return Err(ClientError::ReplyDenied(reply.reply_state));
    }
    if reply.accept_state != SUCCESS {
        return Err(ClientError::CallFailed(reply.accept_state));
    }
    Ok(())
}

/// Writes `src` over `dst`, byte for byte.
fn copy_into(dst: &mut [u8], src: &[u8])
    requires
        src@.len() == old(dst)@.len(),
    ensures
        final(dst)@ == src@,
{
    let mut i: usize = 0;
    while i < src.len()
        invariant
            i <= src@.len(),
            src@.len() == dst@.len(),
            forall|j: int| 0 <= j < i ==> dst@[j] == src@[j],
        decreases src@.len() - i,
    {
        dst[i] = src[i];
        i += 1;
    }
    assert(dst@ =~= src@);
}

/// Builds the bytes of one call: a single fragment, marked as the last, that
/// holds the envelope and the encoded arguments.
pub fn encode_call<A: XdrSerialize>(program: u32, version: u32, procedure: u32, args: &A) -> (r:
    Result<Vec<u8>, ClientError>)
    ensures
        match r {
            Ok(bytes) => {
                let message = call_message(program, version, procedure, args.wire());
                &&& args.encode_error() is None
                &&& message.len() <= MAX_FRAGMENT_LEN
                &&& bytes@ == fragment_wire(message, true)
            },
            Err(e) => match args.encode_error() {
                Some(x) => e == ClientError::Xdr(x),
                None => e == ClientError::MessageTooLong && call_message(
                    program,
                    version,
                    procedure,
                    args.wire(),
                ).len() > MAX_FRAGMENT_LEN,
            },
        },
{
    let request = RpcRequest {
        header: RpcCall { xid: XID, msg_type: MSG_CALL },
        rpc_version: RPC_VERSION,
        program_num: program,
        version_num: version,
        proc_num: procedure,
        credentials: 0,
        verifier: 0,
    };
    let mut message: Vec<u8> = Vec::new();
    let _ = request.serialize(&mut message);
    match args.serialize(&mut message) {
        Ok(_) => {},
        Err(e) => {
            return Err(ClientError::Xdr(e));
        },
    }
    assert(message@ =~= call_message(program, version, procedure, args.wire()));
    if message.len() > MAX_FRAGMENT_LEN as usize {
        return Err(ClientError::MessageTooLong);
    }
    let fragment_header = FragmentHeader::new(true, message.len() as u32);
    let mut bytes: Vec<u8> = Vec::new();
    let _ = fragment_header.serialize(&mut bytes);
    bytes.append(&mut message);
    assert(bytes@ =~= fragment_wire(
        call_message(program, version, procedure, args.wire()),
        true,
    ));
    Ok(bytes)
}

/// Reads one reply from `stream`, which holds what came back from the
/// server, fragment headers included. The reply is put together from as many
/// fragments as it spans.
pub fn decode_reply<T: XdrDeserialize>(stream: &[u8]) -> (r: Result<T, ClientError>)
    ensures
        match parse_reply::<T>(defragment(stream@, 0)) {
            Ok(value) => r is Ok && r->Ok_0.model() == value,
            Err(e) => r == Err::<T, ClientError>(e),
        },
{
    let mut reader = FragmentReader::new(SliceReader::new(stream));
    read_reply_envelope(&mut reader)?;
    match T::deserialize(&mut reader) {
        Ok(value) => Ok(value),
        Err(e) => Err(ClientError::Xdr(e)),
    }
}

/// Looks into a reply and tells how long the opaque array of its union is,
/// so that a caller can hold a buffer of that length ready. `stream` holds
/// what came back from the server, fragment headers included.
pub fn raw_union_len(stream: &[u8]) -> (r: Result<usize, ClientError>)
    ensures
        match raw_union_length(defragment(stream@, 0)) {
            Ok(len) => r == Ok::<usize, ClientError>(len as usize),
            Err(e) => r == Err::<usize, ClientError>(e),
        },
{
    let mut reader = FragmentReader::new(SliceReader::new(stream));
    read_reply_envelope(&mut reader)?;
    if let Err(e) = i32::deserialize(&mut reader) {
        return Err(ClientError::Xdr(e));
    }
    match u32::deserialize(&mut reader) {
        Ok(len) => Ok(len as usize),
        Err(e) => Err(ClientError::Xdr(e)),
    }
}

impl RpcClient {
    /// The program that this session calls.
    pub closed spec fn spec_program(&self) -> u32 {
        self.program
    }

    /// The version of the program that this session calls.
    pub closed spec fn spec_version(&self) -> u32 {
        self.version
    }

    /// Where this session stands.
    pub closed spec fn spec_state(&self) -> SessionState {
        self.state
    }

    /// An idle session with `program` in `version`.
    pub fn new(program: u32, version: u32) -> (client: Self)
        ensures
            client.spec_program() == program,
            client.spec_version() == version,
            client.spec_state() == SessionState::Idle,
    {
        RpcClient { program, version, state: SessionState::Idle }
    }

    /// The program that this session calls.
    pub fn program(&self) -> (program: u32)
        ensures
            program == self.spec_program(),
    {
        self.program
    }

    /// The version of the program that this session calls.
    pub fn version(&self) -> (version: u32)
        ensures
            version == self.spec_version(),
    {
        self.version
    }

    /// Where this session stands.
    pub fn state(&self) -> (state: SessionState)
        ensures
            state == self.spec_state(),
    {
        self.state
    }

    /// Starts a call of `procedure` with `args` and returns the bytes to put
    /// on the stream: one fragment, marked as the last, that holds the
    /// envelope and the arguments.
    ///
    /// The session must be idle and is then awaiting the reply. Where the
    /// call cannot be made, the session stands as before.
    pub fn send_request<A: XdrSerialize>(&mut self, procedure: u32, args: &A) -> (r: Result<
        Vec<u8>,
        ClientError,
    >)
        ensures
            final(self).spec_program() == old(self).spec_program(),
            final(self).spec_version() == old(self).spec_version(),
            match r {
                Ok(bytes) => {
                    let message = call_message(
                        old(self).spec_program(),
                        old(self).spec_version(),
                        procedure,
                        args.wire(),
                    );
                    &&& old(self).spec_state() == SessionState::Idle
                    &&& args.encode_error() is None
                    &&& message.len() <= MAX_FRAGMENT_LEN
                    &&& bytes@ == fragment_wire(message, true)
                    &&& final(self).spec_state() == SessionState::AwaitingReply
                },
                Err(e) => {
                    &&& final(self).spec_state() == old(self).spec_state()
                    &&& e == if old(self).spec_state() != SessionState::Idle {
                        ClientError::NotIdle
                    } else if args.encode_error() is Some {
                        ClientError::Xdr(args.encode_error().unwrap())
                    } else {
                        ClientError::MessageTooLong
                    }
                    &&& old(self).spec_state() == SessionState::Idle && args.encode_error() is None
                        ==> call_message(
                        old(self).spec_program(),
                        old(self).spec_version(),
                        procedure,
                        args.wire(),
                    ).len() > MAX_FRAGMENT_LEN
                },
            },
    {
        match self.state {
            SessionState::Idle => {},
            _ => {
                return Err(ClientError::NotIdle);
            },
        }
        let bytes = encode_call(self.program, self.version, procedure, args)?;
        self.state = SessionState::AwaitingReply;
        Ok(bytes)
    }

    /// Takes in the reply to the call in flight and returns its result.
    ///
    /// `stream` holds what came back from the server, fragment headers
    /// included. The reply is put together from as many fragments as it
    /// spans. After a result the session is idle again; after an error it has
    /// failed. Without a call in flight nothing is read and the session
    /// stands as before.
    pub fn recv<T: XdrDeserialize>(&mut self, stream: &[u8]) -> (r: Result<T, ClientError>)
        ensures
            final(self).spec_program() == old(self).spec_program(),
            final(self).spec_version() == old(self).spec_version(),
            old(self).spec_state() != SessionState::AwaitingReply ==> r == Err::<T, ClientError>(
                ClientError::NoCallInFlight,
            ) && final(self).spec_state() == old(self).spec_state(),
            old(self).spec_state() == SessionState::AwaitingReply ==> match parse_reply::<T>(
                defragment(stream@, 0),
            ) {
                Ok(value) => r is Ok && r->Ok_0.model() == value && final(self).spec_state()
                    == SessionState::Idle,
                Err(e) => r == Err::<T, ClientError>(e) && final(self).spec_state()
                    == SessionState::Failed,
            },
    {
        match self.state {
            SessionState::AwaitingReply => {},
            _ => {
                return Err(ClientError::NoCallInFlight);
            },
        }
        match decode_reply::<T>(stream) {
            Ok(value) => {
                self.state = SessionState::Idle;
                Ok(value)
            },
            Err(e) => {
                self.state = SessionState::Failed;
                Err(e)
            },
        }
    }

    /// Takes in the reply to the call in flight and writes the union that it
    /// holds into the caller's buffers: the discriminant, and the bytes of
    /// the opaque array behind it.
    ///
    /// The array must have exactly the length of `target.data`; a caller learns
    /// that length from `raw_union_len`. On any error the buffers are left as
    /// they were.
    pub fn recv_raw_union<'a>(&mut self, stream: &[u8], target: RawResponseUnion<'a, i32>) -> (r:
        Result<(), ClientError>)
        requires
            old(self).spec_state() == SessionState::AwaitingReply ==> match raw_union_length(
                defragment(stream@, 0),
            ) {
                Ok(len) => len == old(target.data)@.len(),
                Err(_) => true,
            },
        ensures
            final(self).spec_program() == old(self).spec_program(),
            final(self).spec_version() == old(self).spec_version(),
            *final(target.data_length) == *old(target.data_length),
            old(self).spec_state() != SessionState::AwaitingReply ==> r == Err::<(), ClientError>(
                ClientError::NoCallInFlight,
            ) && final(self).spec_state() == old(self).spec_state(),
            old(self).spec_state() == SessionState::AwaitingReply ==> match parse_raw_union(
                defragment(stream@, 0),
            ) {
                Ok((discriminant, data)) => {
                    &&& r is Ok
                    &&& *final(target.discriminant) == discriminant
                    &&& final(target.data)@ == data
                    &&& final(self).spec_state() == SessionState::Idle
                },
                Err(e) => r == Err::<(), ClientError>(e) && final(self).spec_state()
                    == SessionState::Failed,
            },
            r is Err ==> *final(target.discriminant) == *old(target.discriminant),
            r is Err ==> final(target.data)@ == old(target.data)@,
    {
        match self.state {
            SessionState::AwaitingReply => {},
            _ => {
                return Err(ClientError::NoCallInFlight);
            },
        }
        let mut reader = FragmentReader::new(SliceReader::new(stream));
        match read_reply_envelope(&mut reader) {
            Ok(_) => {},
            Err(e) => {
                self.state = SessionState::Failed;
                return Err(e);
            },
        }
        let ghost body = reader.remaining();
        let discriminant = match i32::deserialize(&mut reader) {
            Ok(discriminant) => discriminant,
            Err(e) => {
                self.state = SessionState::Failed;
                return Err(ClientError::Xdr(e));
            },
        };
        let data_len = match u32::deserialize(&mut reader) {
            Ok(data_len) => data_len,
            Err(e) => {
                self.state = SessionState::Failed;
                return Err(ClientError::Xdr(e));
            },
        };
        proof {
            assert(body.skip(4).skip(4) =~= body.skip(8));
        }
        let data = match read_padded(&mut reader, data_len as usize) {
            Ok(data) => data,
            Err(e) => {
                self.state = SessionState::Failed;
                return Err(ClientError::Xdr(e));
            },
        };
        *target.discriminant = discriminant;
        copy_into(target.data, data.as_slice());
        self.state = SessionState::Idle;
        Ok(())
    }
}

} // verus!
