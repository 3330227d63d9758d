//! Pairing with a device: the packets, and what is sent and expected at each step.
//! The code that the device shows, bound to the secure channel, is the password of
//! the key exchange; the public keys are then exchanged under the shared secret.

use vstd::prelude::*;

use crate::adb::cipher::{gcm_opened, gcm_sealed, hkdf_sha256, key_purpose, nonce_of, Cipher};
use crate::adb::{is_protocol, protocol, AdbError};
use crate::bytes;
use crate::number;
use crate::text;

verus! {

/// Packet type of a message of the key exchange.
pub const PKT_SPAKE2_MSG: u8 = 0;

/// Packet type of a public key.
pub const PKT_PEER_INFO: u8 = 1;

/// Version in every packet header.
pub const HEADER_VERSION: u8 = 1;

/// Largest payload of a packet.
pub const MAX_PAYLOAD: usize = 16384;

/// Size of the structure that carries a public key.
pub const PEER_INFO_SIZE: usize = 8192;

/// The label by which the secure channel exports keying material, with the zero
/// byte that ends it.
pub open spec fn export_label() -> Seq<u8> {
    vstd::utf8::encode_utf8("adb-label\0"@)
}

/// How many bytes of keying material are exported.
pub const EXPORT_LEN: usize = 64;

/// The label by which the secure channel exports keying material.
pub fn label() -> (r: Vec<u8>)
    ensures
        r@ == export_label(),
{
    "adb-label\0".as_bytes_vec()
}

/// The structure that carries a public key line: a type, the line, and zeros. A line
/// that is too long is cut off.
pub open spec fn peer_info(line: Seq<u8>) -> Seq<u8> {
    seq![0u8] + bytes::padded(line, (PEER_INFO_SIZE - 1) as nat)
}

/// Builds the structure that carries a public key line.
pub fn build_peer_info(pubkey_line: &str) -> (info: Vec<u8>)
    ensures
        info@ == peer_info(vstd::utf8::encode_utf8(pubkey_line@)),
        info@.len() == PEER_INFO_SIZE,
{
    let line = pubkey_line.as_bytes();
    let mut info: Vec<u8> = vec![0];
    let mut i: usize = 0;
    assert(info@ =~= seq![0u8] + bytes::padded(line@, 0));
    while i < PEER_INFO_SIZE - 1
        invariant
            i <= PEER_INFO_SIZE - 1,
            info@ == seq![0u8] + bytes::padded(line@, i as nat),
        decreases PEER_INFO_SIZE - i,
    {
        info.push(
            if i < line.len() {
                line[i]
            } else {
                0
            },
        );
        i = i + 1;
        assert(info@ =~= seq![0u8] + bytes::padded(line@, i as nat));
    }
    info
}

/// A packet: version, type, the size of the payload with the highest byte first, and
/// the payload.
pub open spec fn packet_of(typ: u8, payload: Seq<u8>) -> Seq<u8> {
    seq![HEADER_VERSION, typ] + bytes::le_bytes(payload.len(), 4).reverse() + payload
}

/// Builds a packet.
pub fn write_packet(typ: u8, payload: &[u8]) -> (out: Vec<u8>)
    requires
        payload@.len() <= u32::MAX,
    ensures
        out@ == packet_of(typ, payload@),
{
    let size = bytes::u32_le(payload.len() as u32);
    proof {
        bytes::lemma_le_bytes_len(payload@.len(), 4);
    }
    let mut out: Vec<u8> = vec![HEADER_VERSION, typ, size[3], size[2], size[1], size[0]];
    assert(out@ =~= seq![HEADER_VERSION, typ] + bytes::le_bytes(payload@.len(), 4).reverse());
    bytes::extend(&mut out, payload);
    out
}

/// The size in a packet header.
pub open spec fn header_size(header: Seq<u8>) -> nat {
    bytes::le_value(header.subrange(2, 6).reverse())
}

/// Reads a packet header: the type and the size of the payload that follows.
pub fn read_packet(header: &[u8]) -> (r: Result<(u8, usize), AdbError>)
    requires
        header@.len() == 6,
    ensures
        match r {
            Ok((typ, size)) => header@[0] == HEADER_VERSION && typ == header@[1] && size
                == header_size(header@) && 0 < size <= MAX_PAYLOAD,
            Err(e) => if header@[0] != HEADER_VERSION {
                is_protocol(e, "bad header version "@ + number::decimal(header@[0] as nat))
            } else {
                (header_size(header@) == 0 || header_size(header@) > MAX_PAYLOAD) && is_protocol(
                    e,
                    "bad payload size "@ + number::decimal(header_size(header@)),
                )
            },
        },
{
    if header[0] != HEADER_VERSION {
        return Err(
            protocol(
                text::join2(
                    "bad header version ",
                    number::decimal_text(header[0] as u64).as_str(),
                ),
            ),
        );
    }
    let low: Vec<u8> = vec![header[5], header[4], header[3], header[2]];
    let size: u32 = bytes::read_u32_le(low.as_slice(), 0);
    assert(low@.subrange(0, 4) =~= header@.subrange(2, 6).reverse());
    if size == 0 || size > 16384 {
        return Err(
            protocol(
                text::join2("bad payload size ", number::decimal_text(size as u64).as_str()),
            ),
        );
    }
    Ok((header[1], size as usize))
}

/// The header of a packet whose payload is neither empty nor too large is read back.
pub proof fn law_packet_round_trip(typ: u8, payload: Seq<u8>)
    requires
        0 < payload.len() <= MAX_PAYLOAD,
    ensures
        ({
            let header = packet_of(typ, payload).take(6);
            &&& header[0] == HEADER_VERSION
            &&& header[1] == typ
            &&& header_size(header) == payload.len()
            &&& packet_of(typ, payload).skip(6) == payload
        }),
{
    let size = bytes::le_bytes(payload.len(), 4);
    bytes::lemma_le_bytes_len(payload.len(), 4);
    let packet = packet_of(typ, payload);
    assert(packet.take(6).subrange(2, 6) =~= size.reverse());
    assert(size.reverse().reverse() =~= size);
    assert(bytes::bytes_range(4) == 0x1_0000_0000) by {
        reveal_with_fuel(bytes::bytes_range, 5);
    }
    bytes::law_le_round_trip(payload.len(), 4);
    assert(packet.skip(6) =~= payload);
}

/// The password of the key exchange: the code, bound to the channel by the keying
/// material that it exported.
pub fn password(code: &str, exported: &[u8]) -> (r: Vec<u8>)
    ensures
        r@ == vstd::utf8::encode_utf8(code@) + exported@,
{
    let mut r = code.as_bytes_vec();
    bytes::extend(&mut r, exported);
    r
}

/// Takes the device's answer to the first message of the key exchange.
pub fn spake_answer(typ: u8, payload: Vec<u8>) -> (r: Result<Vec<u8>, AdbError>)
    ensures
        match r {
            Ok(message) => typ == PKT_SPAKE2_MSG && message == payload,
            Err(e) => typ != PKT_SPAKE2_MSG && is_protocol(
                e,
                "expected SPAKE2_MSG, got "@ + number::decimal(typ as nat),
            ),
        },
{
    if typ != PKT_SPAKE2_MSG {
        return Err(
            protocol(
                text::join2(
                    "expected SPAKE2_MSG, got ",
                    number::decimal_text(typ as u64).as_str(),
                ),
            ),
        );
    }
    Ok(payload)
}

/// What follows once the shared secret is known, or is not: a wrong code. The public
/// key line goes out under the cipher that the secret keys.
pub fn send_peer_info(key_material: Option<Vec<u8>>, pubkey_line: &str) -> (r: Result<
    (Cipher, Vec<u8>),
    AdbError,
>)
    ensures
        match key_material {
            None => r == Err::<(Cipher, Vec<u8>), AdbError>(AdbError::PairingRejected),
            Some(secret) => r matches Ok((cipher, packet)) && cipher.well_formed() && cipher.key()
                == hkdf_sha256(secret@, key_purpose()) && cipher.sealed() == 1 && cipher.opened()
                == 0 && packet@ == packet_of(
                PKT_PEER_INFO,
                gcm_sealed(
                    cipher.key(),
                    nonce_of(0),
                    peer_info(vstd::utf8::encode_utf8(pubkey_line@)),
                ),
            ),
        },
{
    let secret = match key_material {
        Some(secret) => secret,
        None => {
            return Err(AdbError::PairingRejected);
        },
    };
    let mut cipher = Cipher::from_spake2_key(secret.as_slice());
    let info = build_peer_info(pubkey_line);
    match cipher.encrypt(info.as_slice()) {
        Ok(sealed) => {
            let packet = write_packet(PKT_PEER_INFO, sealed.as_slice());
            Ok((cipher, packet))
        },
        Err(e) => Err(e),
    }
}

/// Takes the device's public key, which ends the pairing, and returns its type.
pub fn finish_pairing(cipher: &mut Cipher, typ: u8, payload: &[u8]) -> (r: Result<u8, AdbError>)
    requires
        old(cipher).well_formed(),
        old(cipher).opened() < u64::MAX,
    ensures
        ({
            let opened = gcm_opened(old(cipher).key(), nonce_of(old(cipher).opened()), payload@);
            &&& final(cipher).well_formed()
            &&& final(cipher).key() == old(cipher).key()
            &&& final(cipher).sealed() == old(cipher).sealed()
            &&& final(cipher).opened() == old(cipher).opened() + if typ == PKT_PEER_INFO
                && opened is Some {
                1int
            } else {
                0
            }
            &&& match r {
                Ok(kind) => typ == PKT_PEER_INFO && (opened matches Some(info) && info.len()
                    == PEER_INFO_SIZE && kind == info[0]),
                Err(e) => if typ != PKT_PEER_INFO {
                    is_protocol(e, "expected PEER_INFO, got "@ + number::decimal(typ as nat))
                } else {
                    match opened {
                        None => is_protocol(e, "aes-gcm decrypt failed"@),
                        Some(info) => info.len() != PEER_INFO_SIZE && is_protocol(
                            e,
                            "peer info size "@ + number::decimal(info.len()) + " != 8192"@,
                        ),
                    }
                },
            }
        }),
{
    if typ != PKT_PEER_INFO {
        return Err(
            protocol(
                text::join2("expected PEER_INFO, got ", number::decimal_text(typ as u64).as_str()),
            ),
        );
    }
    let info = match cipher.decrypt(payload) {
        Ok(info) => info,
        Err(e) => {
            return Err(e);
        },
    };
    if info.len() != PEER_INFO_SIZE {
        return Err(
            protocol(
                text::join3(
                    "peer info size ",
                    number::decimal_text(info.len() as u64).as_str(),
                    " != 8192",
                ),
            ),
        );
    }
    Ok(info[0])
}

/// Where a pairing stands.
pub enum Pairing {
    /// The first message of the key exchange is to be sent.
    Start,
    /// The device's message of the key exchange is awaited.
    AwaitMessage,
    /// The shared secret is being worked out.
    AwaitSecret,
    /// The device's public key is awaited.
    AwaitPeerInfo(Cipher),
    /// It is over.
    Over,
}

/// What happened.
pub enum PairEvent {
    /// The key exchange made its first message.
    Made(Vec<u8>),
    /// A packet came in.
    Packet {
        /// Its type.
        typ: u8,
        /// Its payload.
        payload: Vec<u8>,
    },
    /// The key exchange gave a shared secret, or refused the device's message.
    Secret(Option<Vec<u8>>),
}

/// What to do.
pub enum PairAction {
    /// Send these bytes, and wait for a packet.
    Send(Vec<u8>),
    /// Hand this message to the key exchange.
    Process(Vec<u8>),
    /// The device is paired; its key is of this type.
    Paired(u8),
    /// The pairing failed.
    Fail(AdbError),
}

impl Pairing {
    /// The cipher can be used.
    pub open spec fn well_formed(self) -> bool {
        self matches Pairing::AwaitPeerInfo(cipher) ==> cipher.well_formed() && cipher.opened() == 0
    }

    /// Whether an event is one that the pairing waits for.
    pub open spec fn awaits(self, event: PairEvent) -> bool {
        match self {
            Pairing::Start => event matches PairEvent::Made(m) && m@.len() <= u32::MAX,
            Pairing::AwaitMessage => event is Packet,
            Pairing::AwaitSecret => event is Secret,
            Pairing::AwaitPeerInfo(_) => event is Packet,
            Pairing::Over => false,
        }
    }
}

/// What the device's last packet comes to.
pub open spec fn pairing_end(cipher: Cipher, typ: u8, payload: Seq<u8>, action: PairAction) -> bool {
    let opened = gcm_opened(cipher.key(), nonce_of(0), payload);
    match action {
        PairAction::Paired(kind) => typ == PKT_PEER_INFO && (opened matches Some(info) && info.len()
            == PEER_INFO_SIZE && kind == info[0]),
        PairAction::Fail(e) => if typ != PKT_PEER_INFO {
            is_protocol(e, "expected PEER_INFO, got "@ + number::decimal(typ as nat))
        } else {
            match opened {
                None => is_protocol(e, "aes-gcm decrypt failed"@),
                Some(info) => info.len() != PEER_INFO_SIZE && is_protocol(
                    e,
                    "peer info size "@ + number::decimal(info.len()) + " != 8192"@,
                ),
            }
        },
        _ => false,
    }
}

/// Takes a pairing one step further. Only a device that knows the code comes by the
/// secret, and only with the secret can it send a public key that opens.
pub fn pair(state: Pairing, event: PairEvent, pubkey_line: &str) -> (r: (Pairing, PairAction))
    requires
        state.well_formed(),
        state.awaits(event),
    ensures
        r.0.well_formed(),
        r.1 is Fail ==> r.0 is Over,
        match (state, event) {
            (Pairing::Start, PairEvent::Made(m)) => r.0 is AwaitMessage && (
            r.1 matches PairAction::Send(out) && out@ == packet_of(PKT_SPAKE2_MSG, m@)),
            (Pairing::AwaitMessage, PairEvent::Packet { typ, payload }) => if typ
                == PKT_SPAKE2_MSG {
                r.0 is AwaitSecret && r.1 == PairAction::Process(payload)
            } else {
                r.1 matches PairAction::Fail(e) && is_protocol(
                    e,
                    "expected SPAKE2_MSG, got "@ + number::decimal(typ as nat),
                )
            },
            (Pairing::AwaitSecret, PairEvent::Secret(None)) => r.1 == PairAction::Fail(
                AdbError::PairingRejected,
            ),
            (Pairing::AwaitSecret, PairEvent::Secret(Some(secret))) => (
            r.0 matches Pairing::AwaitPeerInfo(cipher) && cipher.key() == hkdf_sha256(
                secret@,
                key_purpose(),
            )) && (r.1 matches PairAction::Send(out) && out@ == packet_of(
                PKT_PEER_INFO,
                gcm_sealed(
                    hkdf_sha256(secret@, key_purpose()),
                    nonce_of(0),
                    peer_info(vstd::utf8::encode_utf8(pubkey_line@)),
                ),
            )),
            (Pairing::AwaitPeerInfo(cipher), PairEvent::Packet { typ, payload }) => r.0 is Over
                && pairing_end(cipher, typ, payload@, r.1),
            _ => false,
        },
{
    match (state, event) {
        (Pairing::Start, PairEvent::Made(m)) => (
            Pairing::AwaitMessage,
            PairAction::Send(write_packet(PKT_SPAKE2_MSG, m.as_slice())),
        ),
        (Pairing::AwaitMessage, PairEvent::Packet { typ, payload }) => match spake_answer(
            typ,
            payload,
        ) {
            Ok(message) => (Pairing::AwaitSecret, PairAction::Process(message)),
            Err(e) => (Pairing::Over, PairAction::Fail(e)),
        },
        (Pairing::AwaitSecret, PairEvent::Secret(secret)) => match send_peer_info(
            secret,
            pubkey_line,
        ) {
            Ok((cipher, packet)) => (Pairing::AwaitPeerInfo(cipher), PairAction::Send(packet)),
            Err(e) => (Pairing::Over, PairAction::Fail(e)),
        },
        (Pairing::AwaitPeerInfo(cipher), PairEvent::Packet { typ, payload }) => {
            let mut keyed = cipher;
            match finish_pairing(&mut keyed, typ, payload.as_slice()) {
                Ok(kind) => (Pairing::Over, PairAction::Paired(kind)),
                Err(e) => (Pairing::Over, PairAction::Fail(e)),
            }
        },
        _ => (Pairing::Over, PairAction::Fail(AdbError::PairingRejected)),
    }
}

/// The structure that carries a public key line begins with a zero, holds the bytes
/// of the line behind it, and is filled up with zeros to 8192 bytes.
pub proof fn law_peer_info_carries_the_line(line: &str, info: Vec<u8>)
    requires
        build_peer_info.ensures((line,), info),
    ensures
        info@.len() == 8192,
        info@[0] == 0,
        forall|i: int|
            1 <= i < 8192 ==> #[trigger] info@[i] == if i - 1 < vstd::utf8::encode_utf8(
                line@,
            ).len() {
                vstd::utf8::encode_utf8(line@)[i - 1]
            } else {
                0u8
            },
{
}

/// The number in four bytes, the highest first.
pub open spec fn highest_first(a: u8, b: u8, c: u8, d: u8) -> int {
    a * 16777216 + b * 65536 + c * 256 + d
}

proof fn lemma_highest_first(s: Seq<u8>)
    requires
        s.len() == 4,
    ensures
        bytes::le_value(s.reverse()) == highest_first(s[0], s[1], s[2], s[3]),
{
    reveal_with_fuel(bytes::le_value, 5);
    let r = s.reverse();
    assert(r.skip(1)[0] == r[1]);
    assert(r.skip(1).skip(1)[0] == r[2]);
    assert(r.skip(1).skip(1).skip(1)[0] == r[3]);
    assert(r.skip(1).skip(1).skip(1).skip(1).len() == 0);
}

/// A packet is the version 1, its type, the size of the payload with the highest
/// byte first, and the payload.
pub proof fn law_packet_begins_with_its_size(typ: u8, payload: &[u8], out: Vec<u8>)
    requires
        payload@.len() <= u32::MAX,
        write_packet.ensures((typ, payload), out),
    ensures
        out@.len() == 6 + payload@.len(),
        out@[0] == 1,
        out@[1] == typ,
        highest_first(out@[2], out@[3], out@[4], out@[5]) == payload@.len(),
        out@.skip(6) == payload@,
{
    let size = bytes::le_bytes(payload@.len(), 4);
    bytes::lemma_le_bytes_len(payload@.len(), 4);
    assert(out@.subrange(2, 6) =~= size.reverse());
    assert(size.reverse().reverse() =~= size);
    assert(bytes::bytes_range(4) == 0x1_0000_0000) by {
        reveal_with_fuel(bytes::bytes_range, 5);
    }
    bytes::law_le_round_trip(payload@.len(), 4);
    lemma_highest_first(out@.subrange(2, 6));
    assert(out@.skip(6) =~= payload@);
}

/// A packet header is accepted exactly if its version is 1 and it announces between
/// 1 and 16384 bytes; the type and that number are what it says.
pub proof fn law_header_is_taken_at_its_word(header: &[u8], r: Result<(u8, usize), AdbError>)
    requires
        header@.len() == 6,
        read_packet.ensures((header,), r),
    ensures
        r is Ok <==> header@[0] == 1 && 1 <= highest_first(
            header@[2],
            header@[3],
            header@[4],
            header@[5],
        ) <= 16384,
        r matches Ok(h) ==> h.0 == header@[1] && h.1 == highest_first(
            header@[2],
            header@[3],
            header@[4],
            header@[5],
        ),
        r matches Err(e) ==> e is Protocol,
{
    lemma_highest_first(header@.subrange(2, 6));
}

/// A pairing sends the message of the key exchange in a packet of type 0, takes only
/// a packet of type 0 for an answer, and hands it on as it came.
pub proof fn law_pairing_exchanges_keys(
    start: Pairing,
    made: Vec<u8>,
    line: &str,
    first: (Pairing, PairAction),
    typ: u8,
    payload: Vec<u8>,
    second: (Pairing, PairAction),
    message: &[u8],
    sent: Vec<u8>,
)
    requires
        start is Start,
        made@.len() <= u32::MAX,
        pair.ensures((start, PairEvent::Made(made), line), first),
        pair.ensures((first.0, PairEvent::Packet { typ, payload }, line), second),
        message@ == made@,
        write_packet.ensures((0u8, message), sent),
    ensures
        first.1 matches PairAction::Send(out) && out@ == sent@,
        second.1 is Process <==> typ == 0,
        second.1 matches PairAction::Process(message) ==> message@ == payload@,
        typ != 0 ==> second.1 is Fail && second.0 is Over,
{
}

/// Once the secret is known, the public key line is sent sealed in a packet of type
/// 1, and the device is paired exactly if its packet of type 1 opens under the same
/// secret, as its first message, to 8192 bytes; their first tells the type of its
/// key. Without a secret the pairing is rejected.
pub proof fn law_pairing_ends_with_the_device_key(
    waiting: Pairing,
    secret: Option<Vec<u8>>,
    line: &str,
    first: (Pairing, PairAction),
    typ: u8,
    payload: Vec<u8>,
    second: (Pairing, PairAction),
    material: &[u8],
    cipher: Cipher,
    info: Vec<u8>,
)
    requires
        waiting is AwaitSecret,
        pair.ensures((waiting, PairEvent::Secret(secret), line), first),
        secret is Some ==> pair.ensures(
            (first.0, PairEvent::Packet { typ, payload }, line),
            second,
        ),
        secret matches Some(s) ==> material@ == s@,
        Cipher::from_spake2_key.ensures((material,), cipher),
        build_peer_info.ensures((line,), info),
    ensures
        secret is None ==> first.1 == PairAction::Fail(AdbError::PairingRejected) && first.0 is Over,
        secret is Some ==> {
            let sealed = gcm_sealed(cipher.key(), nonce_of(0), info@);
            &&& (first.1 matches PairAction::Send(out) && out@.len() == 6 + sealed.len() && out@[0]
                == 1 && out@[1] == 1 && out@.skip(6) == sealed)
            &&& second.0 is Over
            &&& second.1 is Paired || second.1 is Fail
            &&& second.1 is Paired <==> typ == 1 && (gcm_opened(
                cipher.key(),
                nonce_of(0),
                payload@,
            ) matches Some(theirs) && theirs.len() == 8192)
            &&& second.1 matches PairAction::Paired(kind) ==> (gcm_opened(
                cipher.key(),
                nonce_of(0),
                payload@,
            ) matches Some(theirs) && kind == theirs[0])
        },
{
    if let Some(s) = secret {
        let sealed = gcm_sealed(cipher.key(), nonce_of(0), info@);
        bytes::lemma_le_bytes_len(sealed.len(), 4);
        if let PairAction::Send(out) = first.1 {
            assert(out@.skip(6) =~= sealed);
        }
    }
}

} // verus!
