use arc::proto::error::ProtoError;
use arc::proto::id::{PairingCode, Role, SessionId};

#[test]
fn session_id_hex_round_trip() {
    let id = SessionId::from_bytes([
        0x00, 0x11, 0x22, 0x33, 0x44, 0x55, 0x66, 0x77, 0x88, 0x99, 0xaa, 0xbb, 0xcc, 0xdd, 0xee,
        0xff,
    ]);
    let text = id.to_string();
    assert_eq!(text, "00112233445566778899aabbccddeeff");
    assert_eq!(SessionId::from_str(&text), Ok(id));
}

#[test]
fn session_id_rejects_bad_input() {
    assert_eq!(
        SessionId::from_str("xyz"),
        Err(ProtoError::InvalidSessionId)
    );
    assert_eq!(
        SessionId::from_str("zz112233445566778899aabbccddeeff"),
        Err(ProtoError::InvalidSessionId)
    );
}

#[test]
fn pairing_code_normalizes_and_validates() {
    let code = PairingCode::parse(" test-1234 ").expect("valid code");
    assert_eq!(code.as_str(), "TEST-1234");
    assert!(PairingCode::parse("TEST").is_err());
    assert!(PairingCode::parse("TEST-123").is_err());
    assert!(PairingCode::parse("7I8H-JK2M").is_err()); // 'I' not in alphabet
}

#[test]
fn generated_credentials_are_valid_and_fresh() {
    let s1 = SessionId::generate().expect("rng");
    let s2 = SessionId::generate().expect("rng");
    assert_ne!(s1, s2, "session ids should differ");
    assert_eq!(SessionId::from_str(&s1.to_string()), Ok(s1));

    let p = PairingCode::generate().expect("rng");
    // Round-trips through the validating parser.
    assert!(PairingCode::parse(p.as_str()).expect("valid") == p);
}

#[test]
fn tailnet_auto_is_a_valid_code() {
    let auto = PairingCode::tailnet_auto();
    assert!(PairingCode::parse(auto.as_str()).expect("valid") == auto);
}

#[test]
fn role_peer_is_involution() {
    assert_eq!(Role::Controller.peer(), Role::Runner);
    assert_eq!(Role::Controller.peer().peer(), Role::Controller);
}

#[test]
fn a_log_shows_no_code() {
    let code = PairingCode::parse("TEST-1234").ok().expect("code");
    assert_eq!(code.redacted(), "PairingCode(****-****)");
}
