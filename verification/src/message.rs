//! The envelopes of a call and of its reply.

use crate::error::XdrError;
use crate::xdr::bigendian::{
    be_u32, be_u64, lemma_u32_round_trip, lemma_u64_round_trip, u32_of_be, u64_of_be,
};
use crate::xdr::source::ByteSource;
use crate::xdr::{XdrDeserialize, XdrRoundTrip, XdrSerialize};
use vstd::prelude::*;

verus! {

broadcast use crate::xdr::bigendian::group_be_len;

/// Message type of a call.
pub const MSG_CALL: u32 = 0;

/// Message type of a reply.
pub const MSG_REPLY: u32 = 1;

/// The version of the RPC protocol that this client speaks.
pub const RPC_VERSION: u32 = 2;

/// Reply state of a call that the server took on.
pub const MSG_ACCEPTED: u32 = 0;

/// Accept state of a call that the server carried out.
pub const SUCCESS: u32 = 0;

/// What every message starts with: the transaction id and the message type.
#[derive(Clone, Copy, Debug, PartialEq, Eq, Structural)]
pub struct RpcCall {
    pub xid: u32,
    pub msg_type: u32,
}

/// The envelope of a call. Credentials and verifier are the null
/// authentication: a flavor of zero and an empty body, which is eight zero
/// bytes each.
#[derive(Clone, Copy, Debug, PartialEq, Eq, Structural)]
pub struct RpcRequest {
    pub header: RpcCall,
    pub rpc_version: u32,
    pub program_num: u32,
    pub version_num: u32,
    pub proc_num: u32,
    pub credentials: u64,
    pub verifier: u64,
}

/// The envelope of a reply that the result follows.
#[derive(Clone, Copy, Debug, PartialEq, Eq, Structural)]
pub struct RpcReply {
    pub header: RpcCall,
    pub reply_state: u32,
    pub verifier: u64,
    pub accept_state: u32,
}

/// The 32-bit word that starts at byte `at` of `bytes`.
pub open spec fn word_at(bytes: Seq<u8>, at: int) -> u32 {
    u32_of_be(bytes.skip(at))
}

/// The 64-bit word that starts at byte `at` of `bytes`.
pub open spec fn dword_at(bytes: Seq<u8>, at: int) -> u64 {
    u64_of_be(bytes.skip(at))
}

/// Where `all` goes on at `at` with the bytes of `x`, the word at `at` is `x`
/// and `all` goes on behind it with what follows those bytes.
pub proof fn lemma_word_step(all: Seq<u8>, at: int, x: u32, tail: Seq<u8>)
    requires
        0 <= at <= all.len(),
        all.skip(at) == be_u32(x) + tail,
    ensures
        word_at(all, at) == x,
        at + 4 <= all.len(),
        all.skip(at + 4) == tail,
{
    lemma_u32_round_trip(x, tail);
    assert(all.skip(at).len() == 4 + tail.len());
    assert(all.skip(at + 4) =~= all.skip(at).skip(4));
    assert((be_u32(x) + tail).skip(4) =~= tail);
}

/// Where `all` goes on at `at` with the bytes of `x`, the double word at `at`
/// is `x` and `all` goes on behind it with what follows those bytes.
pub proof fn lemma_dword_step(all: Seq<u8>, at: int, x: u64, tail: Seq<u8>)
    requires
        0 <= at <= all.len(),
        all.skip(at) == be_u64(x) + tail,
    ensures
        dword_at(all, at) == x,
        at + 8 <= all.len(),
        all.skip(at + 8) == tail,
{
    lemma_u64_round_trip(x, tail);
    assert(all.skip(at).len() == 8 + tail.len());
    assert(all.skip(at + 8) =~= all.skip(at).skip(8));
    assert((be_u64(x) + tail).skip(8) =~= tail);
}

/// Joining sequences is associative.
pub proof fn lemma_join_assoc(a: Seq<u8>, b: Seq<u8>, c: Seq<u8>)
    ensures
        (a + b) + c == a + (b + c),
{
    assert((a + b) + c =~= a + (b + c));
}

impl XdrSerialize for RpcCall {
    open spec fn encode_error(&self) -> Option<XdrError> {
        None
    }

    open spec fn wire(&self) -> Seq<u8> {
        be_u32(self.xid) + be_u32(self.msg_type)
    }

    fn len(&self) -> (n: usize) {
        XdrSerialize::len(&self.xid) + XdrSerialize::len(&self.msg_type)
    }

    fn serialize(&self, out: &mut Vec<u8>) -> (r: Result<(), XdrError>) {
        self.xid.serialize(out)?;
        self.msg_type.serialize(out)?;
        assert(out@ =~= old(out)@ + self.wire());
        Ok(())
    }
}

impl XdrDeserialize for RpcCall {
    type Model = RpcCall;

    open spec fn model(&self) -> RpcCall {
        *self
    }

    open spec fn parse(bytes: Seq<u8>) -> Result<(RpcCall, nat), XdrError> {
        if bytes.len() < 8 {
            Err(XdrError::UnexpectedEof)
        } else {
            Ok((RpcCall { xid: word_at(bytes, 0), msg_type: word_at(bytes, 4) }, 8))
        }
    }

    fn deserialize<R: ByteSource>(reader: &mut R) -> (r: Result<Self, XdrError>) {
        let ghost all = reader.remaining();
        proof {
            assert(all.skip(0) =~= all);
            assert(Self::parse(all) is Err <==> all.len() < 8);
        }
        let xid = u32::deserialize(reader)?;
        let msg_type = u32::deserialize(reader)?;
        proof {
            assert(all.skip(4).skip(4) =~= all.skip(8));
            assert(Self::parse(all)->Ok_0.0 == (RpcCall { xid, msg_type }).model());
        }
        Ok(RpcCall { xid, msg_type })
    }
}

impl XdrRoundTrip for RpcCall {
    proof fn lemma_round_trip(&self, rest: Seq<u8>) {
        let all = self.wire() + rest;
        let t1 = be_u32(self.msg_type) + rest;
        lemma_join_assoc(be_u32(self.xid), be_u32(self.msg_type), rest);
        assert(all.skip(0) =~= all);
        lemma_word_step(all, 0, self.xid, t1);
        lemma_word_step(all, 4, self.msg_type, rest);
    }
}

impl XdrSerialize for RpcRequest {
    open spec fn encode_error(&self) -> Option<XdrError> {
        None
    }

    open spec fn wire(&self) -> Seq<u8> {
        self.header.wire() + be_u32(self.rpc_version) + be_u32(self.program_num) + be_u32(
            self.version_num,
        ) + be_u32(self.proc_num) + be_u64(self.credentials) + be_u64(self.verifier)
    }

    fn len(&self) -> (n: usize) {
        XdrSerialize::len(&self.header) + XdrSerialize::len(&self.rpc_version) + XdrSerialize::len(
            &self.program_num,
        ) + XdrSerialize::len(&self.version_num) + XdrSerialize::len(&self.proc_num)
            + XdrSerialize::len(&self.credentials) + XdrSerialize::len(&self.verifier)
    }

    fn serialize(&self, out: &mut Vec<u8>) -> (r: Result<(), XdrError>) {
        self.header.serialize(out)?;
        self.rpc_version.serialize(out)?;
        self.program_num.serialize(out)?;
        self.version_num.serialize(out)?;
        self.proc_num.serialize(out)?;
        self.credentials.serialize(out)?;
        self.verifier.serialize(out)?;
        assert(out@ =~= old(out)@ + self.wire());
        Ok(())
    }
}

impl XdrDeserialize for RpcRequest {
    type Model = RpcRequest;

    open spec fn model(&self) -> RpcRequest {
        *self
    }

    open spec fn parse(bytes: Seq<u8>) -> Result<(RpcRequest, nat), XdrError> {
        if bytes.len() < 40 {
            Err(XdrError::UnexpectedEof)
        } else {
            Ok(
                (
                    RpcRequest {
                        header: RpcCall { xid: word_at(bytes, 0), msg_type: word_at(bytes, 4) },
                        rpc_version: word_at(bytes, 8),
                        program_num: word_at(bytes, 12),
                        version_num: word_at(bytes, 16),
                        proc_num: word_at(bytes, 20),
                        credentials: dword_at(bytes, 24),
                        verifier: dword_at(bytes, 32),
                    },
                    40,
                ),
            )
        }
    }

    fn deserialize<R: ByteSource>(reader: &mut R) -> (r: Result<Self, XdrError>) {
        let ghost all = reader.remaining();
        proof {
            assert(all.skip(0) =~= all);
            assert(Self::parse(all) is Err <==> all.len() < 40);
        }
        let header = RpcCall::deserialize(reader)?;
        let rpc_version = u32::deserialize(reader)?;
        proof {
            assert(all.skip(8).skip(4) =~= all.skip(12));
        }
        let program_num = u32::deserialize(reader)?;
        proof {
            assert(all.skip(12).skip(4) =~= all.skip(16));
        }
        let version_num = u32::deserialize(reader)?;
        proof {
            assert(all.skip(16).skip(4) =~= all.skip(20));
        }
        let proc_num = u32::deserialize(reader)?;
        proof {
            assert(all.skip(20).skip(4) =~= all.skip(24));
        }
        let credentials = u64::deserialize(reader)?;
        proof {
            assert(all.skip(24).skip(8) =~= all.skip(32));
        }
        let verifier = u64::deserialize(reader)?;
        proof {
            assert(all.skip(32).skip(8) =~= all.skip(40));
            assert(all.skip(8).skip(0) =~= all.skip(8));
            assert(all.skip(8).skip(4) =~= all.skip(12));
            let request = RpcRequest {
                header,
                rpc_version,
                program_num,
                version_num,
                proc_num,
                credentials,
                verifier,
            };
            assert(Self::parse(all)->Ok_0.0 == request.model());
        }
        Ok(
            RpcRequest {
                header,
                rpc_version,
                program_num,
                version_num,
                proc_num,
                credentials,
                verifier,
            },
        )
    }
}

impl XdrRoundTrip for RpcRequest {
    proof fn lemma_round_trip(&self, rest: Seq<u8>) {
        let all = self.wire() + rest;
        let w0 = be_u32(self.header.xid);
        let w1 = be_u32(self.header.msg_type);
        let w2 = be_u32(self.rpc_version);
        let w3 = be_u32(self.program_num);
        let w4 = be_u32(self.version_num);
        let w5 = be_u32(self.proc_num);
        let d6 = be_u64(self.credentials);
        let d7 = be_u64(self.verifier);
        let t7 = d7 + rest;
        let t6 = d6 + t7;
        let t5 = w5 + t6;
        let t4 = w4 + t5;
        let t3 = w3 + t4;
        let t2 = w2 + t3;
        let t1 = w1 + t2;
        lemma_join_assoc(w0 + w1 + w2 + w3 + w4 + w5 + d6, d7, rest);
        lemma_join_assoc(w0 + w1 + w2 + w3 + w4 + w5, d6, t7);
        lemma_join_assoc(w0 + w1 + w2 + w3 + w4, w5, t6);
        lemma_join_assoc(w0 + w1 + w2 + w3, w4, t5);
        lemma_join_assoc(w0 + w1 + w2, w3, t4);
        lemma_join_assoc(w0 + w1, w2, t3);
        lemma_join_assoc(w0, w1, t2);
        assert(all == w0 + t1);
        assert(all.skip(0) =~= all);
        lemma_word_step(all, 0, self.header.xid, t1);
        lemma_word_step(all, 4, self.header.msg_type, t2);
        lemma_word_step(all, 8, self.rpc_version, t3);
        lemma_word_step(all, 12, self.program_num, t4);
        lemma_word_step(all, 16, self.version_num, t5);
        lemma_word_step(all, 20, self.proc_num, t6);
        lemma_dword_step(all, 24, self.credentials, t7);
        lemma_dword_step(all, 32, self.verifier, rest);
    }
}

impl XdrSerialize for RpcReply {
    open spec fn encode_error(&self) -> Option<XdrError> {
        None
    }

    open spec fn wire(&self) -> Seq<u8> {
        self.header.wire() + be_u32(self.reply_state) + be_u64(self.verifier) + be_u32(
            self.accept_state,
        )
    }

    fn len(&self) -> (n: usize) {
        XdrSerialize::len(&self.header) + XdrSerialize::len(&self.reply_state) + XdrSerialize::len(
            &self.verifier,
        ) + XdrSerialize::len(&self.accept_state)
    }

    fn serialize(&self, out: &mut Vec<u8>) -> (r: Result<(), XdrError>) {
        self.header.serialize(out)?;
        self.reply_state.serialize(out)?;
        self.verifier.serialize(out)?;
        self.accept_state.serialize(out)?;
        assert(out@ =~= old(out)@ + self.wire());
        Ok(())
    }
}

impl XdrDeserialize for RpcReply {
    type Model = RpcReply;

    open spec fn model(&self) -> RpcReply {
        *self
    }

    open spec fn parse(bytes: Seq<u8>) -> Result<(RpcReply, nat), XdrError> {
        if bytes.len() < 24 {
            Err(XdrError::UnexpectedEof)
        } else {
            Ok(
                (
                    RpcReply {
                        header: RpcCall { xid: word_at(bytes, 0), msg_type: word_at(bytes, 4) },
                        reply_state: word_at(bytes, 8),
                        verifier: dword_at(bytes, 12),
                        accept_state: word_at(bytes, 20),
                    },
                    24,
                ),
            )
        }
    }

    fn deserialize<R: ByteSource>(reader: &mut R) -> (r: Result<Self, XdrError>) {
        let ghost all = reader.remaining();
        proof {
            assert(all.skip(0) =~= all);
            assert(Self::parse(all) is Err <==> all.len() < 24);
        }
        let header = RpcCall::deserialize(reader)?;
        let reply_state = u32::deserialize(reader)?;
        proof {
            assert(all.skip(8).skip(4) =~= all.skip(12));
        }
        let verifier = u64::deserialize(reader)?;
        proof {
            assert(all.skip(12).skip(8) =~= all.skip(20));
        }
        let accept_state = u32::deserialize(reader)?;
        proof {
            assert(all.skip(20).skip(4) =~= all.skip(24));
            assert(all.skip(8).skip(0) =~= all.skip(8));
            let reply = RpcReply { header, reply_state, verifier, accept_state };
            assert(Self::parse(all)->Ok_0.0 == reply.model());
        }
        Ok(RpcReply { header, reply_state, verifier, accept_state })
    }
}

impl XdrRoundTrip for RpcReply {
    proof fn lemma_round_trip(&self, rest: Seq<u8>) {
        let all = self.wire() + rest;
        let w0 = be_u32(self.header.xid);
        let w1 = be_u32(self.header.msg_type);
        let w2 = be_u32(self.reply_state);
        let d3 = be_u64(self.verifier);
        let w4 = be_u32(self.accept_state);
        let t4 = w4 + rest;
        let t3 = d3 + t4;
        let t2 = w2 + t3;
        let t1 = w1 + t2;
        lemma_join_assoc(w0 + w1 + w2 + d3, w4, rest);
        lemma_join_assoc(w0 + w1 + w2, d3, t4);
        lemma_join_assoc(w0 + w1, w2, t3);
        lemma_join_assoc(w0, w1, t2);
        assert(all == w0 + t1);
        assert(all.skip(0) =~= all);
        lemma_word_step(all, 0, self.header.xid, t1);
        lemma_word_step(all, 4, self.header.msg_type, t2);
        lemma_word_step(all, 8, self.reply_state, t3);
        lemma_dword_step(all, 12, self.verifier, t4);
        lemma_word_step(all, 20, self.accept_state, rest);
    }
}

} // verus!
