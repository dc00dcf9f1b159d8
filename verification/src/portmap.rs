//! The portmapper: where a client asks for the address of a service.
//!
//! A client first connects to the portmapper at its well-known port, asks it
//! with an ordinary call for the universal address of the program it wants,
//! and then connects to that address. `Bootstrap` takes the decisions of this
//! exchange; the caller opens the connections and moves the bytes.

use crate::client::{call_message, decode_reply, encode_call, parse_reply, RpcClient, SessionState};
use crate::error::{ClientError, XdrError};
use crate::message::lemma_join_assoc;
use crate::record::{defragment, fragment_wire, MAX_FRAGMENT_LEN};
use crate::universal::{parse_universal, universal_text, UniversalAddr};
use crate::xdr::bigendian::{be_u32, lemma_u32_round_trip};
use crate::xdr::source::ByteSource;
use crate::xdr::string::{text_encode_error, text_wire};
use crate::xdr::{XdrDeserialize, XdrRoundTrip, XdrSerialize};
use vstd::prelude::*;
use vstd::string::StringExecFns;

verus! {

broadcast use crate::xdr::bigendian::group_be_len;

/// The port at which a portmapper listens.
pub const PORTMAP_PORT: u16 = 111;

/// The program number of the portmapper itself.
pub const PORTMAP_PROGRAM: u32 = 100000;

/// The version of the portmapper that this client speaks.
pub const PORTMAP_VERSION: u32 = 4;

/// The procedure that asks for the address of a program.
pub const GETADDR: u32 = 3;

/// The argument of the portmapper's procedures: a program in a version, the
/// transport it is wanted on, an address and the owner of the entry.
#[derive(Debug, PartialEq, Eq)]
pub struct Rpcb {
    pub program: u32,
    pub version: u32,
    pub netid: String,
    pub address: String,
    pub owner: String,
}

/// What an `Rpcb` stands for.
pub ghost struct RpcbModel {
    pub program: u32,
    pub version: u32,
    pub netid: Seq<char>,
    pub address: Seq<char>,
    pub owner: Seq<char>,
}

impl XdrSerialize for Rpcb {
    open spec fn encode_error(&self) -> Option<XdrError> {
        rpcb_encode_error(self.model())
    }

    open spec fn wire(&self) -> Seq<u8> {
        rpcb_wire(self.model())
    }

    fn len(&self) -> (n: usize) {
        XdrSerialize::len(&self.program).saturating_add(XdrSerialize::len(&self.version))
            .saturating_add(XdrSerialize::len(&self.netid)).saturating_add(
            XdrSerialize::len(&self.address),
        ).saturating_add(XdrSerialize::len(&self.owner))
    }

    fn serialize(&self, out: &mut Vec<u8>) -> (r: Result<(), XdrError>) {
        let start = out.len();
        self.program.serialize(out)?;
        self.version.serialize(out)?;
        let mut r = self.netid.serialize(out);
        if r.is_ok() {
            r = self.address.serialize(out);
        }
        if r.is_ok() {
            r = self.owner.serialize(out);
        }
        match r {
            Ok(_) => {
                assert(out@ =~= old(out)@ + self.wire());
                Ok(())
            },
            Err(e) => {
                out.truncate(start);
                assert(out@ =~= old(out)@);
                Err(e)
            },
        }
    }
}

impl XdrDeserialize for Rpcb {
    type Model = RpcbModel;

    open spec fn model(&self) -> RpcbModel {
        RpcbModel {
            program: self.program,
            version: self.version,
            netid: self.netid@,
            address: self.address@,
            owner: self.owner@,
        }
    }

    open spec fn parse(bytes: Seq<u8>) -> Result<(RpcbModel, nat), XdrError> {
        match u32::parse(bytes) {
            Err(e) => Err(e),
            Ok((program, _)) => match u32::parse(bytes.skip(4)) {
                Err(e) => Err(e),
                Ok((version, _)) => match String::parse(bytes.skip(8)) {
                    Err(e) => Err(e),
                    Ok((netid, k1)) => match String::parse(bytes.skip((8 + k1) as int)) {
                        Err(e) => Err(e),
                        Ok((address, k2)) => match String::parse(bytes.skip((8 + k1 + k2) as int)) {
                            Err(e) => Err(e),
                            Ok((owner, k3)) => Ok(
                                (
                                    RpcbModel { program, version, netid, address, owner },
                                    8 + k1 + k2 + k3,
                                ),
                            ),
                        },
                    },
                },
            },
        }
    }

    fn deserialize<R: ByteSource>(reader: &mut R) -> (r: Result<Self, XdrError>) {
        let ghost all = reader.remaining();
        let program = u32::deserialize(reader)?;
        let version = u32::deserialize(reader)?;
        proof {
            assert(all.skip(4).skip(4) =~= all.skip(8));
        }
        let netid = String::deserialize(reader)?;
        let ghost k1 = String::parse(all.skip(8))->Ok_0.1;
        proof {
            assert(all.skip(8).skip(k1 as int) =~= all.skip((8 + k1) as int));
        }
        let address = String::deserialize(reader)?;
        let ghost k2 = String::parse(all.skip((8 + k1) as int))->Ok_0.1;
        proof {
            assert(all.skip((8 + k1) as int).skip(k2 as int) =~= all.skip((8 + k1 + k2) as int));
        }
        let owner = String::deserialize(reader)?;
        let ghost k3 = String::parse(all.skip((8 + k1 + k2) as int))->Ok_0.1;
        proof {
            assert(all.skip((8 + k1 + k2) as int).skip(k3 as int) =~= all.skip((8 + k1 + k2 + k3) as int));
        }
        let rpcb = Rpcb { program, version, netid, address, owner };
        proof {
            assert(Self::parse(all)->Ok_0.0 == rpcb.model());
        }
        Ok(rpcb)
    }
}

impl XdrRoundTrip for Rpcb {
    proof fn lemma_round_trip(&self, rest: Seq<u8>) {
        let all = self.wire() + rest;
        let w0 = be_u32(self.program);
        let w1 = be_u32(self.version);
        let s2 = self.netid.wire();
        let s3 = self.address.wire();
        let s4 = self.owner.wire();
        let t4 = s4 + rest;
        let t3 = s3 + t4;
        let t2 = s2 + t3;
        let t1 = w1 + t2;
        lemma_join_assoc(w0 + w1 + s2 + s3, s4, rest);
        lemma_join_assoc(w0 + w1 + s2, s3, t4);
        lemma_join_assoc(w0 + w1, s2, t3);
        lemma_join_assoc(w0, w1, t2);
        assert(all == w0 + t1);
        lemma_u32_round_trip(self.program, t1);
        assert(all.skip(4) =~= t1);
        lemma_u32_round_trip(self.version, t2);
        assert(all.skip(8) =~= t2);
        self.netid.lemma_round_trip(t3);
        let k1 = s2.len();
        assert(all.skip((8 + k1) as int) =~= t3);
        self.address.lemma_round_trip(t4);
        let k2 = s3.len();
        assert(all.skip((8 + k1 + k2) as int) =~= t4);
        self.owner.lemma_round_trip(rest);
    }
}

/// The argument with which a client asks the portmapper at `portmapper` for
/// the address of `program` in `version` on TCP.
pub fn getaddr_args(program: u32, version: u32, portmapper: &UniversalAddr) -> (rpcb: Rpcb)
    ensures
        rpcb.program == program,
        rpcb.version == version,
        rpcb.netid@ == "tcp"@,
        rpcb.address@ == crate::universal::universal_text(
            portmapper.spec_host(),
            portmapper.spec_port(),
        ),
        rpcb.owner@ == "rpclib"@,
{
    Rpcb {
        program,
        version,
        netid: String::from_str("tcp"),
        address: portmapper.to_string(),
        owner: String::from_str("rpclib"),
    }
}

/// What the portmapper's answer `text` says: the address of the service, or
/// that the service is not registered, or that the answer is no address.
pub open spec fn resolved(text: Seq<char>) -> Result<(Seq<char>, u16), ClientError> {
    if text.len() == 0 {
        Err(ClientError::ServerNotAvailable)
    } else {
        match parse_universal(text) {
            Some(addr) => Ok(addr),
            None => Err(ClientError::InvalidAddress),
        }
    }
}

/// Reads the portmapper's answer. An empty answer means that the service is
/// not registered.
pub fn resolve_address(text: &str) -> (r: Result<UniversalAddr, ClientError>)
    ensures
        match r {
            Ok(addr) => resolved(text@) == Ok::<(Seq<char>, u16), ClientError>(
                (addr.spec_host(), addr.spec_port()),
            ),
            Err(e) => resolved(text@) == Err::<(Seq<char>, u16), ClientError>(e),
        },
{
    if text.unicode_len() == 0 {
        return Err(ClientError::ServerNotAvailable);
    }
    UniversalAddr::from_str(text)
}

/// Where the search for a service stands.
#[derive(Clone, Copy, Debug, PartialEq, Eq, Structural)]
pub enum BootstrapStage {
    /// Nothing has happened yet.
    Start,
    /// The connection to the portmapper is being opened.
    ConnectingPortmapper,
    /// The portmapper has been asked and has not answered.
    AwaitingAddress,
    /// The connection to the service is being opened.
    ConnectingService,
    /// The session with the service has been handed out.
    Done,
    /// The search has failed.
    Failed,
}

/// What the caller reports to the search.
#[derive(Debug)]
pub enum BootstrapEvent {
    /// The search is to begin.
    Start,
    /// The connection that was asked for is open.
    Connected,
    /// These bytes came back on the connection, fragment headers included.
    Reply(Vec<u8>),
}

/// What the search asks of the caller.
#[derive(Debug)]
pub enum BootstrapAction {
    /// Open a connection to this address, then report `Connected`.
    Connect(UniversalAddr),
    /// Put these bytes on the connection, then report the bytes of one
    /// message that come back.
    Exchange(Vec<u8>),
    /// Keep the last connection for this session. The search is over.
    Ready(RpcClient),
    /// Give up with this error. The search is over.
    Fail(ClientError),
}

/// An event, as contracts speak of it.
pub ghost enum EventModel {
    Start,
    Connected,
    Reply(Seq<u8>),
}

/// An action, as contracts speak of it.
pub ghost enum ActionModel {
    Connect(Seq<char>, u16),
    Exchange(Seq<u8>),
    Ready(u32, u32),
    Fail(ClientError),
}

impl BootstrapEvent {
    /// The event, as contracts speak of it.
    pub open spec fn model(&self) -> EventModel {
        match self {
            BootstrapEvent::Start => EventModel::Start,
            BootstrapEvent::Connected => EventModel::Connected,
            BootstrapEvent::Reply(stream) => EventModel::Reply(stream@),
        }
    }
}

impl BootstrapAction {
    /// The action, as contracts speak of it. A session that is handed out
    /// is idle.
    pub open spec fn model(&self) -> ActionModel {
        match self {
            BootstrapAction::Connect(addr) => ActionModel::Connect(
                addr.spec_host(),
                addr.spec_port(),
            ),
            BootstrapAction::Exchange(bytes) => ActionModel::Exchange(bytes@),
            BootstrapAction::Ready(client) => ActionModel::Ready(
                client.spec_program(),
                client.spec_version(),
            ),
            BootstrapAction::Fail(e) => ActionModel::Fail(*e),
        }
    }

    /// Whether a session that this action hands out is idle.
    pub open spec fn hands_out_idle(&self) -> bool {
        match self {
            BootstrapAction::Ready(client) => client.spec_state() == SessionState::Idle,
            _ => true,
        }
    }
}

/// The argument of the question to the portmapper at `host`.
pub open spec fn getaddr_model(host: Seq<char>, program: u32, version: u32) -> RpcbModel {
    RpcbModel {
        program,
        version,
        netid: "tcp"@,
        address: universal_text(host, PORTMAP_PORT),
        owner: "rpclib"@,
    }
}

/// Why `rpcb` has no encoding, or `None` when it has one.
pub open spec fn rpcb_encode_error(rpcb: RpcbModel) -> Option<XdrError> {
    if text_encode_error(rpcb.netid) is Some {
        text_encode_error(rpcb.netid)
    } else if text_encode_error(rpcb.address) is Some {
        text_encode_error(rpcb.address)
    } else {
        text_encode_error(rpcb.owner)
    }
}

/// The bytes that stand for `rpcb` on the wire.
pub open spec fn rpcb_wire(rpcb: RpcbModel) -> Seq<u8> {
    be_u32(rpcb.program) + be_u32(rpcb.version) + text_wire(rpcb.netid) + text_wire(rpcb.address)
        + text_wire(rpcb.owner)
}

/// What the search does with the question to the portmapper: it hands out
/// the bytes of the call, or fails where the call cannot be made.
pub open spec fn ask(host: Seq<char>, program: u32, version: u32) -> ActionModel {
    let rpcb = getaddr_model(host, program, version);
    let message = call_message(PORTMAP_PROGRAM, PORTMAP_VERSION, GETADDR, rpcb_wire(rpcb));
    match rpcb_encode_error(rpcb) {
        Some(e) => ActionModel::Fail(ClientError::Xdr(e)),
        None => if message.len() > MAX_FRAGMENT_LEN {
            ActionModel::Fail(ClientError::MessageTooLong)
        } else {
            ActionModel::Exchange(fragment_wire(message, true))
        },
    }
}

/// What the search does with the portmapper's answer: it asks for a
/// connection to the address in it, or fails where there is none.
pub open spec fn answer(stream: Seq<u8>) -> ActionModel {
    match parse_reply::<String>(defragment(stream, 0)) {
        Err(e) => ActionModel::Fail(e),
        Ok(text) => match resolved(text) {
            Err(e) => ActionModel::Fail(e),
            Ok((host, port)) => ActionModel::Connect(host, port),
        },
    }
}

/// The action that the search takes on `event` where it stands at `stage`.
pub open spec fn next_action(
    stage: BootstrapStage,
    host: Seq<char>,
    program: u32,
    version: u32,
    event: EventModel,
) -> ActionModel {
    match (stage, event) {
        (BootstrapStage::Start, EventModel::Start) => ActionModel::Connect(host, PORTMAP_PORT),
        (BootstrapStage::ConnectingPortmapper, EventModel::Connected) => ask(
            host,
            program,
            version,
        ),
        (BootstrapStage::AwaitingAddress, EventModel::Reply(stream)) => answer(stream),
        (BootstrapStage::ConnectingService, EventModel::Connected) => ActionModel::Ready(
            program,
            version,
        ),
        _ => ActionModel::Fail(ClientError::UnexpectedEvent),
    }
}

/// The stage that the search is at after it has taken `action` at `stage`.
pub open spec fn next_stage(stage: BootstrapStage, action: ActionModel) -> BootstrapStage {
    match action {
        ActionModel::Fail(_) => BootstrapStage::Failed,
        ActionModel::Ready(_, _) => BootstrapStage::Done,
        ActionModel::Exchange(_) => BootstrapStage::AwaitingAddress,
        ActionModel::Connect(_, _) => if stage == BootstrapStage::Start {
            BootstrapStage::ConnectingPortmapper
        } else {
            BootstrapStage::ConnectingService
        },
    }
}

/// The search for the service `program` in `version` on one host.
#[derive(Debug)]
pub struct Bootstrap {
    host: String,
    program: u32,
    version: u32,
    stage: BootstrapStage,
}

impl Bootstrap {
    /// The host on which the service is looked for, as text.
    pub closed spec fn spec_host(&self) -> Seq<char> {
        self.host@
    }

    /// The program that is looked for.
    pub closed spec fn spec_program(&self) -> u32 {
        self.program
    }

    /// The version of the program that is looked for.
    pub closed spec fn spec_version(&self) -> u32 {
        self.version
    }

    /// Where the search stands.
    pub closed spec fn spec_stage(&self) -> BootstrapStage {
        self.stage
    }

    /// A search that has not begun.
    pub fn new(host: String, program: u32, version: u32) -> (search: Self)
        ensures
            search.spec_host() == host@,
            search.spec_program() == program,
            search.spec_version() == version,
            search.spec_stage() == BootstrapStage::Start,
    {
        Bootstrap { host, program, version, stage: BootstrapStage::Start }
    }

    /// Where the search stands.
    pub fn stage(&self) -> (stage: BootstrapStage)
        ensures
            stage == self.spec_stage(),
    {
        self.stage
    }

    /// Takes the next decision: what to do now that `event` has happened.
    pub fn step(&mut self, event: BootstrapEvent) -> (action: BootstrapAction)
        ensures
            final(self).spec_host() == old(self).spec_host(),
            final(self).spec_program() == old(self).spec_program(),
            final(self).spec_version() == old(self).spec_version(),
            action.model() == next_action(
                old(self).spec_stage(),
                old(self).spec_host(),
                old(self).spec_program(),
                old(self).spec_version(),
                event.model(),
            ),
            action.hands_out_idle(),
            final(self).spec_stage() == next_stage(old(self).spec_stage(), action.model()),
    {
        let action = match (self.stage, event) {
            (BootstrapStage::Start, BootstrapEvent::Start) => BootstrapAction::Connect(
                UniversalAddr::new(self.host.clone(), PORTMAP_PORT),
            ),
            (BootstrapStage::ConnectingPortmapper, BootstrapEvent::Connected) => {
                let portmapper = UniversalAddr::new(self.host.clone(), PORTMAP_PORT);
                let rpcb = getaddr_args(self.program, self.version, &portmapper);
                match encode_call(PORTMAP_PROGRAM, PORTMAP_VERSION, GETADDR, &rpcb) {
                    Ok(bytes) => BootstrapAction::Exchange(bytes),
                    Err(e) => BootstrapAction::Fail(e),
                }
            },
            (BootstrapStage::AwaitingAddress, BootstrapEvent::Reply(stream)) => {
                match decode_reply::<String>(stream.as_slice()) {
                    Err(e) => BootstrapAction::Fail(e),
                    Ok(text) => match resolve_address(text.as_str()) {
                        Err(e) => BootstrapAction::Fail(e),
                        Ok(addr) => BootstrapAction::Connect(addr),
                    },
                }
            },
            (BootstrapStage::ConnectingService, BootstrapEvent::Connected) => {
                BootstrapAction::Ready(RpcClient::new(self.program, self.version))
            },
            _ => BootstrapAction::Fail(ClientError::UnexpectedEvent),
        };
        self.stage = match &action {
            BootstrapAction::Fail(_) => BootstrapStage::Failed,
            BootstrapAction::Ready(_) => BootstrapStage::Done,
            BootstrapAction::Exchange(_) => BootstrapStage::AwaitingAddress,
            BootstrapAction::Connect(_) => match self.stage {
                BootstrapStage::Start => BootstrapStage::ConnectingPortmapper,
                _ => BootstrapStage::ConnectingService,
            },
        };
        action
    }
}

} // verus!
