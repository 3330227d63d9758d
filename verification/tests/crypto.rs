use arc::net::session::PakeStage;
use arc::proto::crypto::{derive_psk, Channel, Handshake, Pake};
use arc::proto::error::ProtoError;
use arc::proto::id::{PairingCode, Role};

/// Runs a full symmetric exchange between two codes and returns both keys.
fn pake_keys(code_a: &str, code_b: &str) -> ([u8; 32], [u8; 32]) {
    let (a, msg_a) = Pake::start(&PairingCode::parse(code_a).expect("a"));
    let (b, msg_b) = Pake::start(&PairingCode::parse(code_b).expect("b"));
    let key_a = a.finish(&msg_b).expect("finish a");
    let key_b = b.finish(&msg_a).expect("finish b");
    (key_a, key_b)
}

fn paired_channels() -> (Channel, Channel) {
    let (psk_a, psk_b) = pake_keys("TEST-1234", "TEST-1234");
    assert_eq!(psk_a, psk_b, "same code must agree on a key");
    let mut initiator = Handshake::initiator(&psk_a).ok().expect("initiator");
    let mut responder = Handshake::responder(&psk_b).ok().expect("responder");
    let m1 = initiator.write().expect("m1");
    responder.read(&m1).expect("read m1");
    let m2 = responder.write().expect("m2");
    initiator.read(&m2).expect("read m2");
    assert!(initiator.is_finished() && responder.is_finished());
    (
        initiator.finish().ok().expect("c1"),
        responder.finish().ok().expect("c2"),
    )
}

#[test]
fn small_message_single_chunk_round_trip() {
    let (mut ctrl, mut runner) = paired_channels();
    let msg = b"open notepad";
    let records = ctrl.seal(msg).expect("seal");
    assert_eq!(records.len(), 1);
    let mut got = None;
    for r in &records {
        got = runner.open(r).expect("open");
    }
    assert_eq!(got.as_deref(), Some(&msg[..]));
}

#[test]
fn large_message_chunks_and_reassembles() {
    let (mut ctrl, mut runner) = paired_channels();
    let payload: Vec<u8> = (0..200_000u32).map(|i| (i % 251) as u8).collect();
    let records = ctrl.seal(&payload).expect("seal");
    assert!(records.len() >= 4, "expected multiple chunks");
    let mut assembled = None;
    for r in &records {
        if let Some(done) = runner.open(r).expect("open") {
            assembled = Some(done);
        }
    }
    assert_eq!(assembled, Some(payload));
}

#[test]
fn pake_same_code_agrees() {
    let (key_a, key_b) = pake_keys("TEST-1234", "TEST-1234");
    assert_eq!(key_a, key_b);
}

#[test]
fn pake_different_code_diverges() {
    let (key_a, key_b) = pake_keys("TEST-1234", "ZZZZ-ZZZZ");
    assert_ne!(key_a, key_b, "different codes must not agree");
}

#[test]
fn wrong_pairing_code_fails_handshake() {
    let (psk_a, psk_b) = pake_keys("TEST-1234", "ZZZZ-ZZZZ");
    let mut initiator = Handshake::initiator(&psk_a).ok().expect("init");
    let mut responder = Handshake::responder(&psk_b).ok().expect("resp");
    let m1 = initiator.write().expect("m1");
    assert!(responder.read(&m1).is_err());
}

#[test]
fn empty_message_takes_one_record() {
    let (mut ctrl, mut runner) = paired_channels();
    let records = ctrl.seal(b"").expect("seal");
    assert_eq!(records.len(), 1);
    assert_eq!(runner.open(&records[0]).expect("open"), Some(Vec::new()));
}

#[test]
fn records_are_as_long_as_their_chunks() {
    let (mut ctrl, _) = paired_channels();
    for (len, sizes) in [
        (0, vec![17]),
        (1, vec![18]),
        (65518, vec![65535]),
        (65519, vec![65535, 18]),
        (131036, vec![65535, 65535]),
    ] {
        let records = ctrl.seal(&vec![7u8; len]).expect("seal");
        let got: Vec<usize> = records.iter().map(Vec::len).collect();
        assert_eq!(got, sizes);
        assert_eq!(got.iter().sum::<usize>(), len + 17 * records.len());
    }
}

#[test]
fn replayed_record_is_refused() {
    let (mut ctrl, mut runner) = paired_channels();
    let records = ctrl.seal(b"once").expect("seal");
    assert_eq!(runner.open(&records[0]).expect("open"), Some(b"once".to_vec()));
    assert!(matches!(runner.open(&records[0]), Err(ProtoError::Crypto(_))));
}

#[test]
fn short_exchange_message_is_refused() {
    let (a, _) = Pake::start(&PairingCode::parse("TEST-1234").expect("code"));
    assert!(matches!(a.finish(&[0u8; 4]), Err(ProtoError::Crypto(_))));
}

#[test]
fn unfinished_handshake_gives_no_channel() {
    let (psk, _) = pake_keys("TEST-1234", "TEST-1234");
    let handshake = Handshake::initiator(&psk).ok().expect("initiator");
    assert!(!handshake.is_finished());
    assert!(handshake.finish().is_err());
}

#[test]
fn channel_key_depends_on_the_secret() {
    assert_ne!(derive_psk(b"one"), derive_psk(b"two"));
    assert_eq!(derive_psk(b"one"), derive_psk(b"one"));
}

#[test]
fn staged_handshake_links_both_roles() {
    let code = PairingCode::parse("TEST-1234").expect("code");
    let (controller, from_controller) = PakeStage::start(&code, Role::Controller);
    let (runner, from_runner) = PakeStage::start(&code, Role::Runner);
    let (controller, first) = controller.advance(Some(from_runner)).ok().expect("controller");
    let (runner, none) = runner.advance(Some(from_controller)).ok().expect("runner");
    assert!(none.is_none());
    let (mut runner_channel, second) = runner.advance(first).ok().expect("runner channel");
    let (mut controller_channel, none) =
        controller.advance(second).ok().expect("controller channel");
    assert!(none.is_none());
    let records = controller_channel.seal(b"hello").expect("seal");
    assert_eq!(runner_channel.open(&records[0]).expect("open"), Some(b"hello".to_vec()));
}
