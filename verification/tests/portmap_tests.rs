use oncrpc::client::SessionState;
use oncrpc::error::ClientError;
use oncrpc::message::{RpcCall, RpcReply, RpcRequest};
use oncrpc::portmap::{
    getaddr_args, resolve_address, Bootstrap, BootstrapAction, BootstrapEvent, BootstrapStage, Rpcb,
};
use oncrpc::record::{FragmentHeader, FragmentReader};
use oncrpc::universal::{push_decimal, UniversalAddr};
use oncrpc::xdr::source::SliceReader;
use oncrpc::xdr::{XdrDeserialize, XdrSerialize};

#[test]
fn universal_address_is_ip_dot_high_dot_low() {
    assert_eq!(UniversalAddr::new(String::from("127.0.0.1"), 111).to_string(), "127.0.0.1.0.111");
    assert_eq!(UniversalAddr::new(String::from("127.0.0.1"), 32775).to_string(), "127.0.0.1.128.7");
    assert_eq!(UniversalAddr::new(String::from("::1"), 65535).to_string(), "::1.255.255");
    assert_eq!(UniversalAddr::new(String::from("10.0.0.9"), 0).to_string(), "10.0.0.9.0.0");
}

#[test]
fn universal_address_is_read_back() {
    let addr = UniversalAddr::from_str("127.0.0.1.128.7").unwrap();
    assert_eq!(addr.host(), "127.0.0.1");
    assert_eq!(addr.port(), 128 * 256 + 7);
    assert_eq!(addr.port(), 32775);
}

#[test]
fn universal_addresses_round_trip() {
    let hosts = ["127.0.0.1", "0.0.0.0", "192.168.1.254", "::1", "fe80::1", "2001:db8::ff00:42:8329"];
    let ports = [0u16, 1, 7, 9, 10, 99, 100, 111, 255, 256, 2049, 32775, 65280, 65535];
    for host in hosts {
        for port in ports {
            let text = UniversalAddr::new(String::from(host), port).to_string();
            let addr = UniversalAddr::from_str(&text).unwrap();
            assert_eq!((addr.host(), addr.port()), (host, port));
        }
    }
}

#[test]
fn malformed_universal_addresses_are_refused() {
    for text in ["", "1", "1.2", "h.1.", "h..2", "h.256.1", "h.1.256", "h.a.1", "h.1.-2", "h.+.1", "h\u{e9}.1.2", "h.1.2 "] {
        assert_eq!(UniversalAddr::from_str(text), Err(ClientError::InvalidAddress), "{:?}", text);
    }
}

#[test]
fn octets_are_read_as_the_standard_library_reads_them() {
    for text in ["h.007.+5", "h.0.0", "h.255.255", ".1.2", "a.b.c.1.2", "h.0000000000000000000001.2"] {
        let addr = UniversalAddr::from_str(text).unwrap();
        let mut parts = text.rsplitn(3, '.');
        let low: u8 = parts.next().unwrap().parse().unwrap();
        let high: u8 = parts.next().unwrap().parse().unwrap();
        assert_eq!(addr.port(), u16::from_be_bytes([high, low]));
        assert_eq!(addr.host(), parts.next().unwrap());
    }
}

#[test]
fn decimal_has_no_leading_zeros() {
    for n in 0..=255u8 {
        let mut text = String::from(">");
        push_decimal(&mut text, n);
        assert_eq!(text, format!(">{}", n));
    }
}

#[test]
fn empty_answer_means_not_registered() {
    assert_eq!(resolve_address(""), Err(ClientError::ServerNotAvailable));
    assert_eq!(resolve_address("nonsense"), Err(ClientError::InvalidAddress));
    assert_eq!(resolve_address("1.2.3.4.0.80").map(|a| a.port()), Ok(80));
}

#[test]
fn getaddr_argument_names_the_portmapper() {
    let rpcb = getaddr_args(7, 3, &UniversalAddr::new(String::from("127.0.0.1"), 111));
    assert_eq!(
        rpcb,
        Rpcb {
            program: 7,
            version: 3,
            netid: String::from("tcp"),
            address: String::from("127.0.0.1.0.111"),
            owner: String::from("rpclib"),
        }
    );
    let mut bytes = Vec::new();
    rpcb.serialize(&mut bytes).unwrap();
    assert_eq!(bytes.len(), rpcb.len());
    let mut out = vec![1u8];
    let bad = Rpcb { owner: String::from("\u{e9}"), ..getaddr_args(7, 3, &UniversalAddr::new(String::from("h"), 1)) };
    assert_eq!(bad.serialize(&mut out), Err(oncrpc::error::XdrError::NotAscii));
    assert_eq!(out, vec![1u8]);
    assert_eq!(bytes.len(), 4 + 4 + 8 + 20 + 12);
    let mut reader = SliceReader::new(&bytes);
    assert_eq!(Rpcb::deserialize(&mut reader), Ok(rpcb));
}

fn portmapper_answers(request: &[u8], answer: &str) -> Vec<u8> {
    let mut reader = FragmentReader::new(SliceReader::new(request));
    let envelope = RpcRequest::deserialize(&mut reader).unwrap();
    assert_eq!(envelope.program_num, 100000);
    assert_eq!(envelope.version_num, 4);
    assert_eq!(envelope.proc_num, 3);
    let rpcb = Rpcb::deserialize(&mut reader).unwrap();
    assert_eq!(rpcb.program, 0x2000_0001);
    assert_eq!(rpcb.version, 2);
    assert_eq!(rpcb.netid, "tcp");
    assert_eq!(rpcb.address, "127.0.0.1.0.111");
    let mut message = Vec::new();
    RpcReply { header: RpcCall { xid: envelope.header.xid, msg_type: 1 }, reply_state: 0, verifier: 0, accept_state: 0 }
        .serialize(&mut message)
        .unwrap();
    String::from(answer).serialize(&mut message).unwrap();
    let mut out = Vec::new();
    FragmentHeader::new(true, message.len() as u32).serialize(&mut out).unwrap();
    out.extend(message);
    out
}

#[test]
fn getaddr_exchange_resolves_the_port() {
    let mut search = Bootstrap::new(String::from("127.0.0.1"), 0x2000_0001, 2);
    assert_eq!(search.stage(), BootstrapStage::Start);
    match search.step(BootstrapEvent::Start) {
        BootstrapAction::Connect(addr) => assert_eq!((addr.host(), addr.port()), ("127.0.0.1", 111)),
        other => panic!("unexpected {:?}", other),
    }
    assert_eq!(search.stage(), BootstrapStage::ConnectingPortmapper);
    let request = match search.step(BootstrapEvent::Connected) {
        BootstrapAction::Exchange(bytes) => bytes,
        other => panic!("unexpected {:?}", other),
    };
    assert_eq!(search.stage(), BootstrapStage::AwaitingAddress);
    let reply = portmapper_answers(&request, "127.0.0.1.128.7");
    match search.step(BootstrapEvent::Reply(reply)) {
        BootstrapAction::Connect(addr) => {
            assert_eq!(addr.host(), "127.0.0.1");
            assert_eq!(addr.port(), 128 * 256 + 7);
            assert_eq!(addr.port(), 32775);
        }
        other => panic!("unexpected {:?}", other),
    }
    assert_eq!(search.stage(), BootstrapStage::ConnectingService);
    match search.step(BootstrapEvent::Connected) {
        BootstrapAction::Ready(client) => {
            assert_eq!(client.program(), 0x2000_0001);
            assert_eq!(client.version(), 2);
            assert_eq!(client.state(), SessionState::Idle);
        }
        other => panic!("unexpected {:?}", other),
    }
    assert_eq!(search.stage(), BootstrapStage::Done);
}

#[test]
fn unregistered_service_fails_the_search() {
    let mut search = Bootstrap::new(String::from("127.0.0.1"), 0x2000_0001, 2);
    search.step(BootstrapEvent::Start);
    let request = match search.step(BootstrapEvent::Connected) {
        BootstrapAction::Exchange(bytes) => bytes,
        other => panic!("unexpected {:?}", other),
    };
    let reply = portmapper_answers(&request, "");
    match search.step(BootstrapEvent::Reply(reply)) {
        BootstrapAction::Fail(e) => {
            assert_eq!(e, ClientError::ServerNotAvailable);
            assert_eq!(e.message(), "clnt_create: Rpc-Server not available");
        }
        other => panic!("unexpected {:?}", other),
    }
    assert_eq!(search.stage(), BootstrapStage::Failed);
}

#[test]
fn events_out_of_order_fail_the_search() {
    let mut search = Bootstrap::new(String::from("127.0.0.1"), 1, 1);
    match search.step(BootstrapEvent::Connected) {
        BootstrapAction::Fail(e) => assert_eq!(e, ClientError::UnexpectedEvent),
        other => panic!("unexpected {:?}", other),
    }
    assert_eq!(search.stage(), BootstrapStage::Failed);
    match search.step(BootstrapEvent::Start) {
        BootstrapAction::Fail(e) => assert_eq!(e, ClientError::UnexpectedEvent),
        other => panic!("unexpected {:?}", other),
    }
}
