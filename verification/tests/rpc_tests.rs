//! Calls against a service that runs in this process: the request bytes that
//! the client hands out are answered by a function that decodes them, carries
//! the procedure out and frames the reply.

use oncrpc::client::{RpcClient, SessionState};
use oncrpc::error::{ClientError, XdrError};
use oncrpc::message::{RpcCall, RpcReply, RpcRequest};
use oncrpc::record::{FragmentHeader, FragmentReader};
use oncrpc::xdr::source::{ByteSource, SliceReader};
use oncrpc::xdr::{XdrDeserialize, XdrSerialize};

const PROGRAM: u32 = 99;
const VERSION: u32 = 1;
const ADD: u32 = 1;
const STRUCT_MUL_FIELDS: u32 = 2;
const STRUCT_COMBINE: u32 = 3;
const UNION_TEST: u32 = 4;
const UNION_PARAM: u32 = 5;

#[derive(Debug, PartialEq)]
struct MyStruct {
    x: i32,
    y: i32,
}

impl XdrSerialize for MyStruct {
    fn len(&self) -> usize {
        XdrSerialize::len(&self.x) + XdrSerialize::len(&self.y)
    }

    fn serialize(&self, out: &mut Vec<u8>) -> Result<(), XdrError> {
        self.x.serialize(out)?;
        self.y.serialize(out)?;
        Ok(())
    }
}

impl XdrDeserialize for MyStruct {
    type Model = ();

    fn deserialize<R: ByteSource>(reader: &mut R) -> Result<Self, XdrError> {
        Ok(MyStruct { x: XdrDeserialize::deserialize(reader)?, y: XdrDeserialize::deserialize(reader)? })
    }
}

struct Args2<'a> {
    x0: &'a i32,
    x1: &'a i32,
}

impl<'a> XdrSerialize for Args2<'a> {
    fn len(&self) -> usize {
        XdrSerialize::len(&self.x0) + XdrSerialize::len(&self.x1)
    }

    fn serialize(&self, out: &mut Vec<u8>) -> Result<(), XdrError> {
        self.x0.serialize(out)?;
        self.x1.serialize(out)?;
        Ok(())
    }
}

#[derive(Debug, PartialEq)]
enum ResultUnion {
    Case0 { int_res: i32 },
    Case20 { float_res: f32 },
    CaseDefault(i32),
}

impl XdrSerialize for ResultUnion {
    fn len(&self) -> usize {
        match self {
            ResultUnion::Case0 { int_res } => 4 + XdrSerialize::len(int_res),
            ResultUnion::Case20 { float_res } => 4 + XdrSerialize::len(&float_res.to_bits()),
            ResultUnion::CaseDefault(i) => XdrSerialize::len(i),
        }
    }

    fn serialize(&self, out: &mut Vec<u8>) -> Result<(), XdrError> {
        match self {
            ResultUnion::Case0 { int_res } => {
                0i32.serialize(out)?;
                int_res.serialize(out)
            }
            ResultUnion::Case20 { float_res } => {
                20i32.serialize(out)?;
                float_res.to_bits().serialize(out)
            }
            ResultUnion::CaseDefault(i) => i.serialize(out),
        }
    }
}

impl XdrDeserialize for ResultUnion {
    type Model = ();

    fn deserialize<R: ByteSource>(reader: &mut R) -> Result<Self, XdrError> {
        let discriminant = i32::deserialize(reader)?;
        Ok(match discriminant {
            0 => ResultUnion::Case0 { int_res: i32::deserialize(reader)? },
            20 => ResultUnion::Case20 { float_res: f32::from_bits(u32::deserialize(reader)?) },
            i => ResultUnion::CaseDefault(i),
        })
    }
}

/// Frames `message` as fragments of at most `chunk` bytes.
fn frame_in_chunks(message: &[u8], chunk: usize) -> Vec<u8> {
    let mut out = Vec::new();
    let mut at = 0;
    loop {
        let end = usize::min(at + chunk, message.len());
        let last = end == message.len();
        FragmentHeader::new(last, (end - at) as u32).serialize(&mut out).unwrap();
        out.extend_from_slice(&message[at..end]);
        at = end;
        if last {
            return out;
        }
    }
}

/// The service: decodes one framed request and returns the framed reply.
fn serve(request: &[u8], chunk: usize) -> Vec<u8> {
    let mut reader = FragmentReader::new(SliceReader::new(request));
    let envelope = RpcRequest::deserialize(&mut reader).unwrap();
    assert_eq!(envelope.header.msg_type, 0);
    assert_eq!(envelope.rpc_version, 2);
    assert_eq!(envelope.program_num, PROGRAM);
    assert_eq!(envelope.version_num, VERSION);
    let mut message = Vec::new();
    let reply = RpcReply {
        header: RpcCall { xid: envelope.header.xid, msg_type: 1 },
        reply_state: 0,
        verifier: 0,
        accept_state: 0,
    };
    reply.serialize(&mut message).unwrap();
    match envelope.proc_num {
        ADD => {
            let a = i32::deserialize(&mut reader).unwrap();
            let b = i32::deserialize(&mut reader).unwrap();
            (a + b).serialize(&mut message).unwrap();
        }
        STRUCT_MUL_FIELDS => {
            let s = MyStruct::deserialize(&mut reader).unwrap();
            (s.x * s.y).serialize(&mut message).unwrap();
        }
        STRUCT_COMBINE => {
            let x = i32::deserialize(&mut reader).unwrap();
            let y = i32::deserialize(&mut reader).unwrap();
            MyStruct { x, y }.serialize(&mut message).unwrap();
        }
        UNION_TEST => {
            let which = i32::deserialize(&mut reader).unwrap();
            let result = match which {
                0 => ResultUnion::Case0 { int_res: 1 },
                20 => ResultUnion::Case20 { float_res: 1.0 },
                other => ResultUnion::CaseDefault(other),
            };
            result.serialize(&mut message).unwrap();
        }
        UNION_PARAM => {
            let value = match ResultUnion::deserialize(&mut reader).unwrap() {
                ResultUnion::Case0 { int_res } => int_res,
                ResultUnion::Case20 { float_res } => float_res as i32,
                ResultUnion::CaseDefault(_) => -1,
            };
            value.serialize(&mut message).unwrap();
        }
        other => panic!("unknown procedure {}", other),
    }
    frame_in_chunks(&message, chunk)
}

struct RPCConnection {
    client: RpcClient,
    chunk: usize,
}

impl RPCConnection {
    fn new(chunk: usize) -> Self {
        RPCConnection { client: RpcClient::new(PROGRAM, VERSION), chunk }
    }

    fn call<T: XdrDeserialize>(&mut self, procedure: u32, args: impl XdrSerialize) -> Result<T, ClientError> {
        let request = self.client.send_request(procedure, &args)?;
        assert_eq!(self.client.state(), SessionState::AwaitingReply);
        let reply = serve(&request, self.chunk);
        self.client.recv(&reply)
    }
}

#[test]
fn rpc_tests_addition() {
    let mut rpc_connection = RPCConnection::new(1 << 20);
    let value: i32 = rpc_connection.call(ADD, Args2 { x0: &2, x1: &3 }).expect("Rpc-Call failed");
    assert!(value == 5, "Add Test failed");
}

#[test]
fn network_test_addition() {
    let mut rpc_connection = RPCConnection::new(3);
    let value: i32 = rpc_connection.call(ADD, Args2 { x0: &2, x1: &3 }).expect("Rpc-Call failed");
    assert!(value == 5, "Addition failed");
    assert_eq!(rpc_connection.client.state(), SessionState::Idle);
}

#[test]
fn struct_param() {
    let mut rpc_connection = RPCConnection::new(1 << 20);
    let my_struct = MyStruct { x: 2, y: -5 };
    let value: i32 = rpc_connection.call(STRUCT_MUL_FIELDS, &my_struct).expect("Rpc-Call failed");
    assert!(value == -10, "Struct Test failed");
}

#[test]
fn struct_return() {
    let mut rpc_connection = RPCConnection::new(5);
    let value: MyStruct =
        rpc_connection.call(STRUCT_COMBINE, Args2 { x0: &5, x1: &-20 }).expect("Rpc-Call failed");
    assert!(value.x == 5 && value.y == -20, "Struct Test failed");
}

#[test]
fn union_return() {
    let mut rpc_connection = RPCConnection::new(1 << 20);
    let value: ResultUnion = rpc_connection.call(UNION_TEST, &20i32).expect("Rpc-Call failed");
    assert!(
        match value {
            ResultUnion::Case0 { int_res: _ } => panic!("Wrong Type"),
            ResultUnion::Case20 { float_res } => float_res,
            ResultUnion::CaseDefault(_) => panic!("Wrong Type"),
        } == 1.0f32,
        "Union Test failed"
    );

    let value: ResultUnion = rpc_connection.call(UNION_TEST, &0i32).expect("Rpc-Call failed");
    assert!(
        match value {
            ResultUnion::Case0 { int_res } => int_res,
            ResultUnion::Case20 { float_res: _ } => panic!("Wrong Type"),
            ResultUnion::CaseDefault(_) => panic!("Wrong Type"),
        } == 1i32,
        "Union Test failed"
    );
}

#[test]
fn union_param() {
    let mut rpc_con = RPCConnection::new(1 << 20);
    let param = ResultUnion::Case20 { float_res: 8.0f32 };
    let value: i32 = rpc_con.call(UNION_PARAM, &param).expect("Rpc-Call failed");
    assert!(value == 8, "Union Test failed");
}

#[test]
fn request_bytes_are_exact() {
    let mut client = RpcClient::new(0x11223344, 7);
    let bytes = client.send_request(9, &5u32).unwrap();
    let expected: Vec<u8> = vec![
        0x80, 0, 0, 44, // last fragment, 44 bytes
        0, 1, 0xe2, 0x40, // xid 123456
        0, 0, 0, 0, // call
        0, 0, 0, 2, // rpc version
        0x11, 0x22, 0x33, 0x44, // program
        0, 0, 0, 7, // version
        0, 0, 0, 9, // procedure
        0, 0, 0, 0, 0, 0, 0, 0, // credentials
        0, 0, 0, 0, 0, 0, 0, 0, // verifier
        0, 0, 0, 5, // argument
    ];
    assert_eq!(bytes, expected);
}

#[test]
fn second_call_before_reply_is_refused() {
    let mut client = RpcClient::new(1, 1);
    client.send_request(1, &1u32).unwrap();
    assert_eq!(client.send_request(1, &1u32), Err(ClientError::NotIdle));
    assert_eq!(client.state(), SessionState::AwaitingReply);
}

#[test]
fn reply_without_call_is_refused() {
    let mut client = RpcClient::new(1, 1);
    let r: Result<u32, ClientError> = client.recv(&[]);
    assert_eq!(r, Err(ClientError::NoCallInFlight));
    assert_eq!(client.state(), SessionState::Idle);
}

fn reply_with(reply_state: u32, accept_state: u32, body: &[u8]) -> Vec<u8> {
    let mut message = Vec::new();
    RpcReply { header: RpcCall { xid: 123456, msg_type: 1 }, reply_state, verifier: 0, accept_state }
        .serialize(&mut message)
        .unwrap();
    message.extend_from_slice(body);
    frame_in_chunks(&message, 1 << 20)
}

#[test]
fn denied_reply_is_an_error() {
    let mut client = RpcClient::new(1, 1);
    client.send_request(1, &1u32).unwrap();
    let r: Result<u32, ClientError> = client.recv(&reply_with(1, 0, &[0, 0, 0, 5]));
    assert_eq!(r, Err(ClientError::ReplyDenied(1)));
    assert_eq!(client.state(), SessionState::Failed);
}

#[test]
fn unsuccessful_reply_is_an_error() {
    let mut client = RpcClient::new(1, 1);
    client.send_request(1, &1u32).unwrap();
    let r: Result<u32, ClientError> = client.recv(&reply_with(0, 3, &[0, 0, 0, 5]));
    assert_eq!(r, Err(ClientError::CallFailed(3)));
}

#[test]
fn short_reply_is_an_error() {
    let mut client = RpcClient::new(1, 1);
    client.send_request(1, &1u32).unwrap();
    let r: Result<u32, ClientError> = client.recv(&reply_with(0, 0, &[0, 0, 5]));
    assert_eq!(r, Err(ClientError::Xdr(XdrError::UnexpectedEof)));
    assert_eq!(client.state(), SessionState::Failed);
}

#[test]
fn non_ascii_argument_is_refused() {
    let mut client = RpcClient::new(1, 1);
    let r = client.send_request(1, &String::from("h\u{e9}"));
    assert_eq!(r, Err(ClientError::Xdr(XdrError::NotAscii)));
    assert_eq!(client.state(), SessionState::Idle);
}
