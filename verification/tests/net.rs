use arc::net::config::{arg_or_env, non_empty, EnvVars, SessionConfig, Transport};
use arc::net::controller::{dispatch, Controller, ControllerError, Progress};
use arc::net::error::NetError;
use arc::net::session::{
    hello, join_relay, open_frame, recv_direct_payload, recv_relay_payload, seal_frame,
    wait_for_peer, PakeStage, Payload, SocketMessage,
};
use arc::proto::codec::{from_cbor, to_cbor, MAX_FRAME_BYTES};
use arc::proto::crypto::{Channel, Reassembly};
use arc::proto::error::ProtoError;
use arc::proto::id::{PairingCode, RequestId, Role, SessionId};
use arc::proto::relay::{ClientMsg, RelayErrorKind, ServerMsg};
use arc::proto::wire::{
    Command, Event, Frame, RemoteError, RemoteErrorKind, Reply, Response,
};

fn linked() -> (Channel, Channel) {
    let code = PairingCode::parse("TEST-1234").expect("code");
    let (controller, a) = PakeStage::start(&code, Role::Controller);
    let (runner, b) = PakeStage::start(&code, Role::Runner);
    let (controller, first) = controller.advance(Some(b)).ok().expect("controller");
    let (runner, _) = runner.advance(Some(a)).ok().expect("runner");
    let (runner, second) = runner.advance(first).ok().expect("runner channel");
    let (controller, _) = controller.advance(second).ok().expect("controller channel");
    (controller, runner)
}

fn env() -> EnvVars {
    EnvVars { direct: None, relay_url: None, session: None, pairing: None }
}

#[test]
fn frames_cross_the_channel() {
    let (mut controller, mut runner) = linked();
    let records = seal_frame(&mut controller, || Ok(b"frame".to_vec())).expect("sealed");
    assert_eq!(records.len(), 1);
    let got = open_frame(&mut runner, &records[0], |b: &[u8]| Ok(b.to_vec())).expect("opened");
    assert_eq!(got, Some(b"frame".to_vec()));
    let records = seal_frame(&mut controller, || Ok(vec![1])).expect("sealed");
    let bad = open_frame::<u8, _>(&mut runner, &records[0], |_: &[u8]| Err("no".to_string()));
    assert_eq!(bad, Err(NetError::Proto(ProtoError::Decode("no".to_string()))));
}

#[test]
fn missing_handshake_message_ends_the_session() {
    let code = PairingCode::parse("TEST-1234").expect("code");
    let (controller, _) = PakeStage::start(&code, Role::Controller);
    assert_eq!(controller.advance(None).err(), Some(NetError::Closed));
}

#[test]
fn encoded_frames_are_limited() {
    assert_eq!(to_cbor(|| Ok(vec![1])), Ok(vec![1]));
    assert_eq!(to_cbor(|| Err("x".to_string())), Err(ProtoError::Encode("x".to_string())));
    let size = MAX_FRAME_BYTES + 1;
    let big = vec![0u8; size];
    let too_large = ProtoError::FrameTooLarge { size, max: MAX_FRAME_BYTES };
    assert_eq!(from_cbor(&big, |_: &[u8]| Ok(())), Err(too_large));
    assert_eq!(from_cbor(&[1], |b: &[u8]| Ok(b.len())), Ok(1));
}

#[test]
fn reassembly_waits_for_the_last_chunk() {
    let mut r = Reassembly::new();
    assert_eq!(r.accept(&[0, 1, 2]), Ok(None));
    assert_eq!(r.accept(&[1, 3]), Ok(Some(vec![1, 2, 3])));
    assert_eq!(r.accept(&[1]), Ok(Some(vec![])));
    assert!(matches!(r.accept(&[]), Err(ProtoError::Crypto(_))));
}

#[test]
fn reassembly_is_bounded() {
    let mut r = Reassembly::new();
    let mut chunk = vec![0u8; 60_001];
    chunk[0] = 0;
    let mut refused = false;
    for _ in 0..2000 {
        match r.accept(&chunk) {
            Ok(None) => {}
            Err(ProtoError::ReassemblyOverflow { .. }) => {
                refused = true;
                break;
            }
            _ => panic!("unexpected"),
        }
    }
    assert!(refused);
}

#[test]
fn joining_the_relay() {
    let id = SessionId::from_bytes([3; 16]);
    assert_eq!(
        hello(id, Role::Runner),
        ClientMsg::Hello { session: id, role: Role::Runner, protocol_version: 1 }
    );
    assert_eq!(join_relay(Some(ServerMsg::Welcome { peer_present: true })), Ok(true));
    assert_eq!(join_relay(None), Err(NetError::Closed));
    let taken = ServerMsg::Error { kind: RelayErrorKind::RoleTaken, message: "busy".to_string() };
    assert!(matches!(join_relay(Some(taken)), Err(NetError::Relay(_))));
    assert_eq!(wait_for_peer(Some(ServerMsg::PeerJoined)), Ok(true));
    assert_eq!(wait_for_peer(Some(ServerMsg::Pong)), Ok(false));
    assert_eq!(wait_for_peer(None), Err(NetError::Closed));
}

#[test]
fn payloads_are_told_from_notices() {
    let data = ServerMsg::Relay { data: vec![1] };
    assert!(matches!(recv_relay_payload(Some(data)), Ok(Payload::Data(d)) if d == vec![1]));
    assert!(matches!(recv_relay_payload(Some(ServerMsg::PeerLeft)), Ok(Payload::Gone)));
    assert!(matches!(recv_relay_payload(Some(ServerMsg::Pong)), Ok(Payload::Skip)));
    let binary = SocketMessage::Binary(vec![2]);
    assert!(matches!(recv_direct_payload(binary), Payload::Data(d) if d == vec![2]));
    assert!(matches!(recv_direct_payload(SocketMessage::Close), Payload::Gone));
    assert!(matches!(recv_direct_payload(SocketMessage::Other), Payload::Skip));
}

#[test]
fn requests_are_numbered() {
    let mut c = Controller::new();
    let (a, frame) = c.request(Command::ListWindows);
    let (b, _) = c.request(Command::ListWindows);
    assert_ne!(a, b);
    assert!(matches!(frame, Frame::Request(r) if r.id == a && r.command == Command::ListWindows));
}

#[test]
fn answers_are_matched_by_number() {
    let id = RequestId(4);
    let answer = |id: u64, result| Some(Frame::Response(Response { id: RequestId(id), result }));
    assert!(matches!(
        dispatch(id, answer(4, Ok(Reply::Ack))),
        Progress::Done(Ok(Reply::Ack))
    ));
    assert!(matches!(dispatch(id, answer(5, Ok(Reply::Ack))), Progress::Skip));
    let denied = RemoteError { kind: RemoteErrorKind::Denied, message: "no".to_string() };
    match dispatch(id, answer(4, Err(denied))) {
        Progress::Done(Err(e)) => {
            assert!(!e.is_fatal());
            assert!(matches!(e, ControllerError::Remote(r) if r.message == "no"));
        }
        _ => panic!("no answer"),
    }
    match dispatch(id, None) {
        Progress::Done(Err(e)) => assert!(e.is_fatal()),
        _ => panic!("no end"),
    }
    let event = Event::Stdout { id, chunk: "x".to_string() };
    assert!(matches!(dispatch(id, Some(Frame::Event(event))), Progress::Event(_)));
    assert!(matches!(dispatch(id, Some(Frame::TunnelEof)), Progress::Skip));
}

#[test]
fn endpoint_comes_from_argument_or_environment() {
    assert_eq!(non_empty(Some(String::new())), None);
    assert_eq!(non_empty(Some("x".to_string())), Some("x".to_string()));
    assert_eq!(
        arg_or_env(None, Some("e".to_string()), "KEY", "thing"),
        Ok("e".to_string())
    );
    assert!(matches!(arg_or_env(None, None, "KEY", "thing"), Err(NetError::Config(_))));
    let config = SessionConfig::from_args_and_env(
        Some("ws://relay".to_string()),
        Some("0f".repeat(16)),
        Some("test-1234".to_string()),
        env(),
    )
    .ok()
    .expect("config");
    assert_eq!(config.transport, Transport::Relay { url: "ws://relay".to_string() });
    assert_eq!(config.session.to_string(), "0f".repeat(16));
    assert_eq!(config.pairing.as_str(), "TEST-1234");
}

#[test]
fn direct_address_wins_over_the_relay() {
    let vars = EnvVars {
        direct: Some("10.0.0.1:9".to_string()),
        relay_url: Some("ws://relay".to_string()),
        session: Some("0f".repeat(16)),
        pairing: Some("TEST-1234".to_string()),
    };
    let config = SessionConfig::from_env(vars).ok().expect("config");
    assert_eq!(config.transport, Transport::Direct { addr: "10.0.0.1:9".to_string() });
}

#[test]
fn incomplete_configuration_is_refused() {
    assert!(matches!(SessionConfig::from_env(env()), Err(NetError::Config(_))));
    let bad = SessionConfig::from_args_and_env(
        Some("ws://relay".to_string()),
        Some("zz".to_string()),
        Some("TEST-1234".to_string()),
        env(),
    );
    assert!(bad.is_err());
}

#[test]
fn errors_are_worded() {
    let e = NetError::Proto(ProtoError::InvalidSessionId);
    assert_eq!(ControllerError::Net(e.clone()).to_string(), e.to_string());
    assert_ne!(NetError::Closed.to_string(), NetError::PeerGone.to_string());
    for e in [
        ProtoError::Encode("x".to_string()),
        ProtoError::Decode("x".to_string()),
        ProtoError::Crypto("x".to_string()),
        ProtoError::Rng("x".to_string()),
    ] {
        assert!(e.to_string().ends_with('x'));
    }
}
