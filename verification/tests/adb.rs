use arc::adb::cipher::Cipher;
use arc::adb::connect::{
    accept_stls, file_mode, fourcc, hello, open_service, parse_mode, parse_sync_status, push_file,
    read_header, run_shell, scan_slice, speaks_adb, sync_frame, write_msg, AdbStream, Message,
    OpenAction, OpenEvent, Opening, A_CLSE, A_CNXN, A_OKAY, A_STLS, A_WRTE,
};
use arc::adb::key::{modinv_pow2_32, write_le_padded, AdbKey};
use arc::adb::pairing::{
    build_peer_info, label, pair, password, read_packet, write_packet, PairAction, PairEvent,
    Pairing,
};
use arc::adb::AdbError;

#[test]
fn roundtrip_advances_counters() {
    let key = [7u8; 64];
    let mut a = Cipher::from_spake2_key(&key);
    let mut b = Cipher::from_spake2_key(&key);
    let ct = a.encrypt(b"hello").unwrap();
    assert_eq!(ct.len(), 5 + 16, "ciphertext = plaintext + GCM tag");
    assert_eq!(b.decrypt(&ct).unwrap(), b"hello");
    let ct2 = a.encrypt(b"world").unwrap();
    assert_eq!(b.decrypt(&ct2).unwrap(), b"world");
}

#[test]
fn wrong_key_fails_to_decrypt() {
    let mut a = Cipher::from_spake2_key(&[1u8; 64]);
    let mut b = Cipher::from_spake2_key(&[2u8; 64]);
    let ct = a.encrypt(b"secret").unwrap();
    assert!(b.decrypt(&ct).is_err());
}

#[test]
fn tls_identity_builds() {
    let key = AdbKey::generate().unwrap_or_else(|e| panic!("{}", e.to_string()));
    let (cert, _key) = key.tls_identity().unwrap_or_else(|e| panic!("{}", e.to_string()));
    assert!(!cert.is_empty());
}

#[test]
fn certificate_follows_from_the_key() {
    let key = AdbKey::generate().unwrap_or_else(|e| panic!("{}", e.to_string()));
    let again = AdbKey::from_pkcs8_pem(&key.to_pkcs8_pem())
        .unwrap_or_else(|e| panic!("{}", e.to_string()));
    let first = key.tls_identity().unwrap_or_else(|e| panic!("{}", e.to_string()));
    let second = again.tls_identity().unwrap_or_else(|e| panic!("{}", e.to_string()));
    assert_eq!(first, second);
    assert!(first.0.windows(3).any(|w| w == b"arc"));
}

#[test]
fn from_pkcs8_pem_tolerates_surrounding_whitespace() {
    let key = AdbKey::generate().unwrap_or_else(|e| panic!("{}", e.to_string()));
    let pem = key.to_pkcs8_pem();
    let again = AdbKey::from_pkcs8_pem(&format!("  {pem}    \n"))
        .unwrap_or_else(|e| panic!("{}", e.to_string()));
    assert_eq!(again.to_pkcs8_pem(), pem);
    assert_eq!(again.android_pubkey_line("arc"), key.android_pubkey_line("arc"));
}

#[test]
fn modinv_is_inverse() {
    for a in [1u32, 3, 5, 65537, 0x9F3B_1D01, u32::MAX] {
        assert_eq!(a.wrapping_mul(modinv_pow2_32(a)), 1, "a={a:#x}");
    }
}

#[test]
fn public_key_has_the_fixed_layout() {
    let key = AdbKey::generate().unwrap_or_else(|e| panic!("{}", e.to_string()));
    let encoded = key.encode_android_pubkey();
    assert_eq!(encoded.len(), 524);
    assert_eq!(&encoded[..4], &[64, 0, 0, 0]);
    assert_eq!(&encoded[520..], &[1, 0, 1, 0]);
    let n0 = u32::from_le_bytes([encoded[8], encoded[9], encoded[10], encoded[11]]);
    let n0inv = u32::from_le_bytes([encoded[4], encoded[5], encoded[6], encoded[7]]);
    assert_eq!(n0.wrapping_mul(n0inv), u32::MAX);
    // The square of two to the 2048th, so it is smaller than the modulus.
    let (modulus, rr) = (&encoded[8..264], &encoded[264..520]);
    assert!(rr.iter().rev().lt(modulus.iter().rev()));
    let line = key.android_pubkey_line("arc@host");
    assert!(line.ends_with(" arc@host"));
    assert_eq!(line.len(), 700 + 9);
}

#[test]
fn bad_key_is_refused() {
    match AdbKey::from_pkcs8_pem("no key") {
        Err(AdbError::Protocol(m)) => assert!(m.starts_with("load adbkey: ")),
        _ => panic!("accepted"),
    }
}

#[test]
fn padding_fills_and_cuts() {
    assert_eq!(write_le_padded(&[1, 2], 4), vec![1, 2, 0, 0]);
    assert_eq!(write_le_padded(&[1, 2, 3], 2), vec![1, 2]);
}

#[test]
fn nonce_counts_up_from_the_low_byte() {
    assert_eq!(Cipher::nonce(0x0102), vec![2, 1, 0, 0, 0, 0, 0, 0, 0, 0, 0, 0]);
}

#[test]
fn errors_read_as_sentences() {
    assert_eq!(AdbError::Io("x".to_string()).to_string(), "io: x");
    assert_eq!(AdbError::Tls("x".to_string()).to_string(), "tls: x");
    assert_eq!(AdbError::Protocol("x".to_string()).to_string(), "protocol: x");
    assert_eq!(
        AdbError::PairingRejected.to_string(),
        "pairing rejected by adbd (wrong code, or framing mismatch)"
    );
}

#[test]
fn pairing_packets_are_framed() {
    let packet = write_packet(1, b"abc");
    assert_eq!(packet, vec![1, 1, 0, 0, 0, 3, b'a', b'b', b'c']);
    assert_eq!(read_packet(&packet[..6]), Ok((1, 3)));
    assert_eq!(
        read_packet(&[2, 0, 0, 0, 0, 1]),
        Err(AdbError::Protocol("bad header version 2".to_string()))
    );
    assert_eq!(
        read_packet(&[1, 0, 0, 0, 0, 0]),
        Err(AdbError::Protocol("bad payload size 0".to_string()))
    );
    assert_eq!(
        read_packet(&[1, 0, 0, 0, 0x40, 1]),
        Err(AdbError::Protocol("bad payload size 16385".to_string()))
    );
}

#[test]
fn peer_info_is_padded() {
    let info = build_peer_info("key name");
    assert_eq!(info.len(), 8192);
    assert_eq!(info[0], 0);
    assert_eq!(&info[1..9], b"key name");
    assert!(info[9..].iter().all(|b| *b == 0));
}

#[test]
fn password_is_bound_to_the_channel() {
    assert_eq!(password("123456", &[9, 8]), b"123456\x09\x08".to_vec());
    assert_eq!(label(), b"adb-label\0".to_vec());
}

#[test]
fn pairing_runs_to_its_end() {
    let secret = vec![5u8; 64];
    let mut device = Cipher::from_spake2_key(&secret);
    let (state, action) = pair(Pairing::Start, PairEvent::Made(vec![1; 32]), "line");
    assert!(matches!(action, PairAction::Send(p) if p.len() == 38 && p[1] == 0));
    let message = PairEvent::Packet { typ: 0, payload: vec![2; 32] };
    let (state, action) = pair(state, message, "line");
    assert!(matches!(action, PairAction::Process(m) if m == vec![2; 32]));
    let (state, action) = pair(state, PairEvent::Secret(Some(secret)), "line");
    let PairAction::Send(packet) = action else { panic!("nothing sent") };
    assert_eq!(packet[1], 1);
    let info = device.decrypt(&packet[6..]).expect("genuine");
    assert_eq!(info, build_peer_info("line"));
    let mut theirs = vec![0u8; 8192];
    theirs[0] = 7;
    let payload = device.encrypt(&theirs).expect("sealed");
    let (state, action) = pair(state, PairEvent::Packet { typ: 1, payload }, "line");
    assert!(matches!(state, Pairing::Over));
    assert!(matches!(action, PairAction::Paired(7)));
}

#[test]
fn pairing_fails_where_it_should() {
    let wrong = PairEvent::Packet { typ: 1, payload: vec![1] };
    let (_, action) = pair(Pairing::AwaitMessage, wrong, "line");
    assert!(matches!(action, PairAction::Fail(AdbError::Protocol(m))
        if m == "expected SPAKE2_MSG, got 1"));
    let (_, action) = pair(Pairing::AwaitSecret, PairEvent::Secret(None), "line");
    assert!(matches!(action, PairAction::Fail(AdbError::PairingRejected)));
    let forged = PairEvent::Packet { typ: 1, payload: vec![0; 40] };
    let cipher = Cipher::from_spake2_key(&[1; 64]);
    let (_, action) = pair(Pairing::AwaitPeerInfo(cipher), forged, "line");
    assert!(matches!(action, PairAction::Fail(AdbError::Protocol(m))
        if m == "aes-gcm decrypt failed"));
    let mut device = Cipher::from_spake2_key(&[1; 64]);
    let short = PairEvent::Packet { typ: 1, payload: device.encrypt(b"x").expect("sealed") };
    let cipher = Cipher::from_spake2_key(&[1; 64]);
    let (_, action) = pair(Pairing::AwaitPeerInfo(cipher), short, "line");
    assert!(matches!(action, PairAction::Fail(AdbError::Protocol(m))
        if m == "peer info size 1 != 8192"));
}

#[test]
fn messages_round_trip() {
    let m = Message { command: A_WRTE, arg0: 1, arg1: 0x0102_0304, payload: vec![7; 5] };
    let bytes = write_msg(&m);
    assert_eq!(bytes.len(), 29);
    let header = read_header(&bytes[..24]).expect("header");
    assert_eq!((header.command, header.arg0, header.arg1, header.size), (A_WRTE, 1, 0x0102_0304, 5));
    assert_eq!(&bytes[24..], &[7; 5]);
    let mut bad = bytes.clone();
    bad[20] ^= 1;
    assert_eq!(
        read_header(&bad[..24]),
        Err(AdbError::Protocol("bad magic for cmd WRTE".to_string()))
    );
    let mut big = bytes;
    big[14] = 0xff;
    assert_eq!(
        read_header(&big[..24]),
        Err(AdbError::Protocol("payload too big: 16711685".to_string()))
    );
}

#[test]
fn service_is_opened_step_by_step() {
    assert_eq!(fourcc(A_CNXN), "CNXN");
    assert_eq!(hello().payload, b"host::features=shell_v2,cmd".to_vec());
    let stls = Message { command: A_STLS, arg0: 0, arg1: 0, payload: vec![] };
    let okay = Message { command: A_OKAY, arg0: 42, arg1: 1, payload: vec![] };
    let banner = Message { command: A_CNXN, arg0: 0, arg1: 0, payload: vec![] };
    assert!(speaks_adb(&stls) && !speaks_adb(&okay));
    assert_eq!(accept_stls(&stls).expect("stls").command, A_STLS);
    assert_eq!(
        accept_stls(&okay),
        Err(AdbError::Protocol("expected STLS, got OKAY".to_string()))
    );
    let open = open_service(&banner, &run_shell("id")).expect("open");
    assert_eq!(open.payload, b"shell:id\0".to_vec());
    assert_eq!(
        open_service(&okay, "sync:"),
        Err(AdbError::Protocol("expected CNXN banner, got OKAY".to_string()))
    );
    let stream = AdbStream::opened(&okay, "sync:").expect("stream");
    assert_eq!(stream.remote_id, 42);
    assert_eq!(
        AdbStream::opened(&stls, "sync:"),
        Err(AdbError::Protocol("OPEN sync: refused: STLS".to_string()))
    );
    assert_eq!(stream.write_all(b"x").arg1, 42);
    assert_eq!(stream.written(&okay), Ok(()));
    assert_eq!(
        stream.written(&stls),
        Err(AdbError::Protocol("expected OKAY after WRTE, got STLS".to_string()))
    );
    let data = Message { command: A_WRTE, arg0: 42, arg1: 1, payload: vec![3] };
    let got = stream.read_next(data).expect("data");
    assert_eq!(got.data, Some(vec![3]));
    assert_eq!(got.answer.expect("ack").command, A_OKAY);
    let close = Message { command: A_CLSE, arg0: 42, arg1: 1, payload: vec![] };
    assert_eq!(stream.read_next(close).expect("close").data, None);
    assert_eq!(stream.read_next(okay).expect("okay").data, Some(vec![]));
    assert!(stream.read_next(stls).is_err());
    assert_eq!(stream.close().command, A_CLSE);
}

/// What a device puts together from the writes between the first and the last.
fn received(writes: &[Vec<u8>]) -> Vec<u8> {
    let mut out = Vec::new();
    let stream: Vec<u8> = writes.concat();
    let mut at = 0;
    while at < stream.len() {
        assert_eq!(&stream[at..at + 4], b"DATA");
        let n = u32::from_le_bytes([
            stream[at + 4],
            stream[at + 5],
            stream[at + 6],
            stream[at + 7],
        ]) as usize;
        out.extend_from_slice(&stream[at + 8..at + 8 + n]);
        at += 8 + n;
    }
    out
}

#[test]
fn push_delivers_the_file() {
    for size in [0usize, 1, 65_536, 65_537, 3_000_000] {
        let data: Vec<u8> = (0..size).map(|i| (i % 251) as u8).collect();
        let writes = push_file(&data, "/data/local/tmp/x", 0o100755, 5);
        let last = writes.len() - 1;
        assert_eq!(writes[0], sync_frame("SEND", b"/data/local/tmp/x,33261"));
        assert_eq!(writes[last], b"DONE\x05\0\0\0".to_vec());
        assert!(writes.iter().all(|w| w.len() <= 1024 * 1024));
        assert_eq!(received(&writes[1..last]), data);
    }
}

#[test]
fn push_status_is_read() {
    assert_eq!(parse_sync_status(b"OKAY\0\0\0\0"), Ok(()));
    assert_eq!(
        parse_sync_status(b"OK"),
        Err(AdbError::Protocol("short sync status".to_string()))
    );
    assert_eq!(
        parse_sync_status(b"FAIL\x04\0\0\0nope!"),
        Err(AdbError::Protocol("sync push failed: nope".to_string()))
    );
    assert_eq!(
        parse_sync_status(b"FAIL\xff\0\0\0no"),
        Err(AdbError::Protocol("sync push failed: no".to_string()))
    );
    assert_eq!(
        parse_sync_status(b"WHAT\0\0\0\0"),
        Err(AdbError::Protocol("unexpected sync status WHAT".to_string()))
    );
}

#[test]
fn port_scan_covers_the_range_once() {
    let mut next = 32768u32;
    for thread in 0..128 {
        let (first, last) = scan_slice(thread);
        assert_eq!(u32::from(first), next);
        next = u32::from(last) + 1;
    }
    assert_eq!(next, 61000);
}

#[test]
fn mode_is_octal() {
    assert_eq!(parse_mode(Some("755")), 0o755);
    assert_eq!(parse_mode(Some("+17")), 0o17);
    assert_eq!(parse_mode(Some("8")), 0o644);
    assert_eq!(parse_mode(Some("+")), 0o644);
    assert_eq!(parse_mode(Some("37777777777")), u32::MAX);
    assert_eq!(parse_mode(Some("40000000000")), 0o644);
    assert_eq!(parse_mode(None), 0o644);
    assert_eq!(file_mode(0o644), 0o100644);
}

#[test]
fn service_is_opened_on_a_secure_channel() {
    let message = |command, arg0| Message { command, arg0, arg1: 0, payload: vec![] };
    let received = |command, arg0| OpenEvent::Received(message(command, arg0));
    let (state, action) = AdbStream::open(Opening::Announced, received(A_STLS, 0), "sync:");
    assert!(matches!(action, OpenAction::Secure(m) if m.command == A_STLS));
    let (state, action) = AdbStream::open(state, OpenEvent::Secured, "sync:");
    assert!(matches!(action, OpenAction::Wait));
    let (state, action) = AdbStream::open(state, received(A_CNXN, 0), "sync:");
    assert!(matches!(action, OpenAction::Send(m) if m.payload == b"sync:\0"));
    let (_, action) = AdbStream::open(state, received(A_OKAY, 9), "sync:");
    assert!(matches!(action, OpenAction::Opened(stream) if stream.remote_id == 9));
    let (end, action) = AdbStream::open(state, received(A_CLSE, 9), "sync:");
    assert_eq!(end, Opening::Over);
    assert!(matches!(
        action,
        OpenAction::Fail(AdbError::Protocol(m)) if m == "OPEN sync: refused: CLSE"
    ));
    let (_, action) = AdbStream::open(Opening::Announced, received(A_CNXN, 0), "sync:");
    assert!(matches!(action, OpenAction::Fail(_)));
}
