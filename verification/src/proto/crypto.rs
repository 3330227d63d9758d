//! Transport security: a Noise channel between controller and runner, keyed by
//! a secret that both sides agree on from the pairing code by a balanced PAKE.
//!
//! The pairing code has little entropy, so it is never used as a key. Both
//! peers run a symmetric SPAKE2 exchange ([`Pake::start`], [`Pake::finish`]):
//! one message each way yields a key that only parties knowing the code can
//! derive. A wrong code yields a different key, which the Noise handshake then
//! rejects.
//!
//! Noise caps a message at 65535 bytes, while a logical message may be tens of
//! MiB. [`Channel::seal`] splits a message into ordered records, each carrying a
//! one-byte continuation flag, and [`Channel::open`] puts them together again.

use blake2::Digest;
use vstd::prelude::*;

use crate::proto::codec::MAX_FRAME_BYTES;
use crate::proto::error::ProtoError;
use crate::proto::id::{PairingCode, Role};

verus! {

/// Hard cap on a single Noise message.
pub const NOISE_MAX_MESSAGE: usize = 65535;

/// Length of the authentication tag that ends every record.
pub const TAG_LEN: usize = 16;

/// One leading flag byte per chunk.
pub const FLAG_LEN: usize = 1;

/// Most plaintext bytes that a chunk carries, flag and tag excluded.
pub const MAX_CHUNK_DATA: usize = 65518;

/// Flag of a chunk that others follow.
pub const FLAG_MORE: u8 = 0;

/// Flag of the last chunk of a message.
pub const FLAG_FINAL: u8 = 1;

/// Scratch room for a handshake message.
pub const HANDSHAKE_OVERHEAD: usize = 512;

/// A Noise session past its handshake.
#[verifier::external_type_specification]
#[verifier::external_body]
pub struct ExTransportState(snow::TransportState);

/// A Noise session in its handshake.
#[verifier::external_type_specification]
#[verifier::external_body]
pub struct ExHandshakeState(snow::HandshakeState);

/// What a Noise operation may fail with.
#[verifier::external_type_specification]
#[verifier::external_body]
pub struct ExNoiseError(snow::Error);

/// What a SPAKE2 exchange may fail with.
#[verifier::external_type_specification]
#[verifier::external_body]
pub struct ExSpake2Error(spake2::Error);

/// One side of a SPAKE2 exchange over Ed25519, between its two messages.
#[verifier::external_body]
pub struct PakeState {
    inner: spake2::Spake2<spake2::Ed25519Group>,
}

/// What a SPAKE2 side was started with and what it sent: the password, the
/// identity, and its own message.
pub uninterp spec fn pake_party(state: PakeState) -> (Seq<u8>, Seq<u8>, Seq<u8>);

/// What finishing a SPAKE2 side with the peer's message gives: the shared
/// secret, or nothing if the message is not acceptable.
pub uninterp spec fn pake_outcome(state: PakeState, peer: Seq<u8>) -> Option<Seq<u8>>;

/// The BLAKE2s-256 digest of a byte string.
pub uninterp spec fn blake2s256(data: Seq<u8>) -> Seq<u8>;

/// What a Noise session past its handshake holds: whether it can carry records
/// both ways, then key and message counter of the sending and of the receiving
/// direction.
pub uninterp spec fn noise_link(state: snow::TransportState) -> (
    bool,
    (Seq<u8>, u64),
    (Seq<u8>, u64),
);

/// The Noise record that carries `plain` as message `count` under `key`.
pub uninterp spec fn noise_record(key: Seq<u8>, count: u64, plain: Seq<u8>) -> Seq<u8>;

/// Where a Noise handshake stands: its pre-shared key, the messages exchanged so
/// far, and whether it is the side that writes the first one.
pub uninterp spec fn noise_progress(state: snow::HandshakeState) -> (
    Seq<u8>,
    Seq<Seq<u8>>,
    bool,
);

/// The keys that a Noise handshake ends with, out of its pre-shared key and its
/// messages: that of the side that wrote first, and that of the other.
pub uninterp spec fn noise_keys(psk: Seq<u8>, messages: Seq<Seq<u8>>) -> (Seq<u8>, Seq<u8>);

/// A handshake without messages.
pub open spec fn no_messages() -> Seq<Seq<u8>> {
    Seq::empty()
}

/// Whether it is the turn of a side to write: the sides take turns.
pub open spec fn may_write(messages: Seq<Seq<u8>>, first: bool) -> bool {
    messages.len() < 2 && first == (messages.len() == 0)
}

/// Whether it is the turn of a side to read.
pub open spec fn may_read(messages: Seq<Seq<u8>>, first: bool) -> bool {
    messages.len() < 2 && first == (messages.len() == 1)
}

/// `Spake2::<Ed25519Group>::start_symmetric`: starts a side with the password
/// and the identity. Its message is the byte 0x53 and 32 more; they depend on a
/// secret drawn at random.
#[verifier::external_body]
fn pake_start(password: &[u8], identity: &[u8]) -> (r: (PakeState, Vec<u8>))
    ensures
        pake_party(r.0) == (password@, identity@, r.1@),
        r.1@.len() == 33,
        r.1@[0] == 0x53,
{
    let (inner, message) = spake2::Spake2::<spake2::Ed25519Group>::start_symmetric(
        &spake2::Password::new(password),
        &spake2::Identity::new(identity),
    );
    (PakeState { inner }, message)
}

/// `Spake2::finish`: the shared secret of 32 bytes, a function of the side and of
/// the peer's message. A message that is not 33 bytes long is refused. Two
/// symmetric sides with the same password and identity that hand each other
/// their messages both succeed and get the same secret.
#[verifier::external_body]
fn pake_finish(state: PakeState, peer: &[u8]) -> (r: Result<Vec<u8>, spake2::Error>)
    ensures
        match r {
            Ok(shared) => pake_outcome(state, peer@) == Some(shared@) && shared@.len() == 32,
            Err(_) => pake_outcome(state, peer@) is None,
        },
        peer@.len() != 33 ==> r is Err,
        forall|other: PakeState|
            #![trigger pake_party(other)]
            pake_party(other).0 == pake_party(state).0 && pake_party(other).1 == pake_party(state).1
                && pake_party(other).2 == peer@ && peer@[0] == 0x53 && pake_party(state).2[0]
                == 0x53 ==> r is Ok && pake_outcome(other, pake_party(state).2) == Some((r->Ok_0)@),
{
    state.inner.finish(peer)
}

/// `Blake2s256` of the blake2 crate over the whole input: 32 bytes.
#[verifier::external_body]
pub(crate) fn digest(data: &[u8]) -> (out: [u8; 32])
    ensures
        out@ == blake2s256(data@),
{
    blake2::Blake2s256::digest(data).into()
}

/// `snow::Builder` with the given protocol name and a pre-shared key in slot 0,
/// built as initiator or responder. For this name and a key of 32 bytes it
/// succeeds. The pattern has two messages, the initiator's first.
#[verifier::external_body]
fn noise_start(params: &str, psk: &[u8], initiator: bool) -> (r: Result<
    snow::HandshakeState,
    snow::Error,
>)
    requires
        params@ == "Noise_NNpsk0_25519_ChaChaPoly_BLAKE2s"@,
        psk@.len() == 32,
    ensures
        r is Ok,
        noise_progress(r->Ok_0) == (psk@, no_messages(), initiator),
{
    let builder = snow::Builder::new(params.parse()?).psk(0, psk);
    if initiator {
        builder.build_initiator()
    } else {
        builder.build_responder()
    }
}

/// `HandshakeState::write_message` with an empty payload and `room` bytes to
/// write to. It succeeds exactly when it is this side's turn and the message, an
/// ephemeral key of 32 bytes and a tag of 16, has room. The key is drawn at
/// random. A failure leaves the handshake where it was.
#[verifier::external_body]
fn noise_write_handshake(state: &mut snow::HandshakeState, room: usize) -> (r: Result<
    Vec<u8>,
    snow::Error,
>)
    ensures
        ({
            let (psk, messages, first) = noise_progress(*old(state));
            match r {
                Ok(message) => may_write(messages, first) && room >= 48 && message@.len() == 48
                    && noise_progress(*final(state)) == (psk, messages.push(message@), first),
                Err(_) => !(may_write(messages, first) && room >= 48) && noise_progress(
                    *final(state),
                ) == noise_progress(*old(state)),
            }
        }),
{
    let mut out = vec![0u8; room];
    let n = state.write_message(&[], &mut out)?;
    out.truncate(n);
    Ok(out)
}

/// `HandshakeState::read_message` with `room` bytes for the payload. It refuses
/// out of turn, past the last message, and a message over 65535 bytes or that
/// does not authenticate; a failure leaves the handshake where it was. A message
/// that the other side wrote as the next one, with the same pre-shared key and
/// after the same messages, is read.
#[verifier::external_body]
fn noise_read_handshake(state: &mut snow::HandshakeState, message: &[u8], room: usize) -> (r:
    Result<usize, snow::Error>)
    ensures
        ({
            let (psk, messages, first) = noise_progress(*old(state));
            match r {
                Ok(_) => may_read(messages, first) && message@.len() <= 65535 && noise_progress(
                    *final(state),
                ) == (psk, messages.push(message@), first),
                Err(_) => noise_progress(*final(state)) == noise_progress(*old(state)),
            }
        }),
        forall|peer: snow::HandshakeState|
            #![trigger noise_progress(peer)]
            may_read(noise_progress(*old(state)).1, noise_progress(*old(state)).2)
                && noise_progress(peer) == (
                noise_progress(*old(state)).0,
                noise_progress(*old(state)).1.push(message@),
                !noise_progress(*old(state)).2,
            ) ==> r is Ok,
{
    let mut out = vec![0u8; room];
    state.read_message(message, &mut out)
}

/// `HandshakeState::is_handshake_finished`: whether both messages were exchanged.
#[verifier::external_body]
fn noise_finished(state: &snow::HandshakeState) -> (r: bool)
    ensures
        r == (noise_progress(*state).1.len() == 2),
{
    state.is_handshake_finished()
}

/// `HandshakeState::into_transport_mode`: succeeds exactly when the handshake is
/// finished. The session carries records both ways and both counters start at
/// zero. The keys follow from the pre-shared key and the messages; what is the
/// sending key on one side is the receiving key on the other.
#[verifier::external_body]
fn noise_transport(state: snow::HandshakeState) -> (r: Result<snow::TransportState, snow::Error>)
    ensures
        ({
            let (psk, messages, first) = noise_progress(state);
            let (forth, back) = noise_keys(psk, messages);
            match r {
                Ok(session) => messages.len() == 2 && noise_link(session) == (if first {
                    (true, (forth, 0u64), (back, 0u64))
                } else {
                    (true, (back, 0u64), (forth, 0u64))
                }),
                Err(_) => messages.len() != 2,
            }
        }),
{
    state.into_transport_mode()
}

/// `TransportState::write_message`: one record, 16 bytes longer than the payload.
/// On a session that carries records both ways it succeeds exactly when the
/// record is within 65535 bytes and `room`, and the counter is not at its end.
#[verifier::external_body]
fn noise_write(state: &mut snow::TransportState, payload: &[u8], room: usize) -> (r: Result<
    Vec<u8>,
    snow::Error,
>)
    ensures
        ({
            let (usable, send, receive) = noise_link(*old(state));
            match r {
                Ok(record) => record@ == noise_record(send.0, send.1, payload@) && record@.len()
                    == payload@.len() + 16 && noise_link(*final(state)) == (
                    usable,
                    (send.0, (send.1 + 1) as u64),
                    receive,
                ) && send.1 < u64::MAX && payload@.len() + 16 <= 65535,
                Err(_) => noise_link(*final(state)) == noise_link(*old(state)),
            }
        }),
        noise_link(*old(state)).0 && noise_link(*old(state)).1.1 < u64::MAX && payload@.len() + 16
            <= 65535 && payload@.len() + 16 <= room ==> r is Ok,
{
    let mut out = vec![0u8; room];
    let n = state.write_message(payload, &mut out)?;
    out.truncate(n);
    Ok(out)
}

/// `TransportState::read_message`, with as much room as the record is long. On a
/// session that carries records both ways whose counter is not at its end, it
/// gives back the payload of the record that carries it under the receiving key
/// and counter, and refuses what is no such record or longer than 65535 bytes.
/// A failure leaves the session as it was.
#[verifier::external_body]
fn noise_read(state: &mut snow::TransportState, record: &[u8]) -> (r: Result<
    Vec<u8>,
    snow::Error,
>)
    ensures
        ({
            let (usable, send, receive) = noise_link(*old(state));
            match r {
                Ok(plain) => receive.1 < u64::MAX && record@.len() <= 65535 && record@
                    == noise_record(receive.0, receive.1, plain@) && plain@.len() + 16
                    == record@.len() && noise_link(*final(state)) == (
                    usable,
                    send,
                    (receive.0, (receive.1 + 1) as u64),
                ),
                Err(_) => noise_link(*final(state)) == noise_link(*old(state)),
            }
        }),
        forall|plain: Seq<u8>|
            record@ == #[trigger] noise_record(
                noise_link(*old(state)).2.0,
                noise_link(*old(state)).2.1,
                plain,
            ) && record@.len() <= 65535 && noise_link(*old(state)).0 && noise_link(
                *old(state),
            ).2.1 < u64::MAX ==> r is Ok && (r->Ok_0)@ == plain,
{
    let mut out = vec![0u8; record.len()];
    let n = state.read_message(record, &mut out)?;
    out.truncate(n);
    Ok(out)
}

/// The pre-shared key made of a shared secret: a digest with a fixed prefix, so
/// that it is 32 bytes long and of no other use.
pub open spec fn psk_of(shared: Seq<u8>) -> Seq<u8> {
    blake2s256(vstd::utf8::encode_utf8("arc/psk/v2"@) + shared)
}

/// Derives the pre-shared key from the shared secret.
pub fn derive_psk(shared: &[u8]) -> (psk: [u8; 32])
    ensures
        psk@ == psk_of(shared@),
{
    let mut data: Vec<u8> = Vec::new();
    data.extend_from_slice("arc/psk/v2".as_bytes());
    data.extend_from_slice(shared);
    assert(data@ =~= vstd::utf8::encode_utf8("arc/psk/v2"@) + shared@);
    digest(&data)
}

/// One side of a symmetric SPAKE2 password-authenticated key exchange.
pub struct Pake {
    state: PakeState,
}

impl Pake {
    /// The pairing code the side was started with, as bytes.
    pub closed spec fn password(self) -> Seq<u8> {
        pake_party(self.state).0
    }

    /// The message the side sends to its peer.
    pub closed spec fn message(self) -> Seq<u8> {
        pake_party(self.state).2
    }

    /// The secret that finishing with the peer's message gives, if it does.
    pub closed spec fn outcome(self, peer: Seq<u8>) -> Option<Seq<u8>> {
        pake_outcome(self.state, peer)
    }

    /// Every side uses the same identity and sends a symmetric message.
    #[verifier::type_invariant]
    pub closed spec fn symmetric(self) -> bool {
        pake_party(self.state).1 == vstd::utf8::encode_utf8("arc/spake/v1"@) && pake_party(self.state).2.len()
            == 33 && pake_party(self.state).2[0] == 0x53
    }

    /// Begins the exchange, returning the outbound message for the peer.
    #[must_use]
    pub fn start(code: &PairingCode) -> (r: (Self, Vec<u8>))
        ensures
            r.0.password() == vstd::utf8::encode_utf8(code@),
            r.0.message() == r.1@,
            r.0.symmetric(),
            r.1@.len() == 33,
            r.1@[0] == 0x53,
    {
        let (state, message) = pake_start(code.as_str().as_bytes(), "arc/spake/v1".as_bytes());
        (Pake { state }, message)
    }

    /// Completes the exchange with the peer's message, deriving the 32-byte
    /// pre-shared key. A peer with the same code derives the same key; one with
    /// another code derives another, with no error here.
    pub fn finish(self, peer_message: &[u8]) -> (r: Result<[u8; 32], ProtoError>)
        ensures
            match r {
                Ok(psk) => self.outcome(peer_message@) is Some && psk@ == psk_of(
                    self.outcome(peer_message@)->0,
                ),
                Err(e) => self.outcome(peer_message@) is None && e is Crypto,
            },
            peer_message@.len() != 33 ==> r is Err,
            forall|other: Pake|
                #![trigger other.message()]
                other.symmetric() && other.password() == self.password() && other.message()
                    == peer_message@ ==> r is Ok && other.outcome(self.message()) is Some
                    && (r->Ok_0)@ == psk_of(other.outcome(self.message())->0),
    {
        proof {
            use_type_invariant(&self);
        }
        match pake_finish(self.state, peer_message) {
            Ok(shared) => Ok(derive_psk(&shared)),
            Err(e) => Err(ProtoError::Crypto(e.to_string())),
        }
    }
}

/// The handshake half of the channel. Drive it to completion with
/// [`Handshake::write`] and [`Handshake::read`], then call
/// [`Handshake::finish`].
pub struct Handshake {
    inner: snow::HandshakeState,
}

impl Handshake {
    /// The pre-shared key, the messages exchanged so far, and whether this is the
    /// side that writes first.
    pub closed spec fn progress(self) -> (Seq<u8>, Seq<Seq<u8>>, bool) {
        noise_progress(self.inner)
    }

    /// Builds the initiator (the [`Role::Controller`]) side.
    pub fn initiator(psk: &[u8; 32]) -> (r: Result<Self, ProtoError>)
        ensures
            r matches Ok(h) && h.progress() == (psk@, no_messages(), true),
    {
        Handshake::build(psk, Role::Controller)
    }

    /// Builds the responder (the [`Role::Runner`]) side.
    pub fn responder(psk: &[u8; 32]) -> (r: Result<Self, ProtoError>)
        ensures
            r matches Ok(h) && h.progress() == (psk@, no_messages(), false),
    {
        Handshake::build(psk, Role::Runner)
    }

    fn build(psk: &[u8; 32], role: Role) -> (r: Result<Self, ProtoError>)
        ensures
            r matches Ok(h) && h.progress() == (psk@, no_messages(), role == Role::Controller),
    {
        let initiator = match role {
            Role::Controller => true,
            Role::Runner => false,
        };
        match noise_start("Noise_NNpsk0_25519_ChaChaPoly_BLAKE2s", psk.as_slice(), initiator) {
            Ok(inner) => Ok(Handshake { inner }),
            Err(e) => Err(ProtoError::Crypto(e.to_string())),
        }
    }

    /// Writes the next handshake message to send to the peer. It fails exactly out
    /// of turn and when both messages were exchanged, and then nothing changes.
    pub fn write(&mut self) -> (r: Result<Vec<u8>, ProtoError>)
        ensures
            ({
                let (psk, messages, first) = old(self).progress();
                match r {
                    Ok(message) => may_write(messages, first) && message@.len() == 48
                        && final(self).progress() == (psk, messages.push(message@), first),
                    Err(e) => !may_write(messages, first) && e is Crypto && final(self).progress()
                        == old(self).progress(),
                }
            }),
    {
        match noise_write_handshake(&mut self.inner, HANDSHAKE_OVERHEAD) {
            Ok(message) => Ok(message),
            Err(e) => Err(ProtoError::Crypto(e.to_string())),
        }
    }

    /// Reads a handshake message received from the peer. It fails out of turn,
    /// when both messages were exchanged, and on a message that does not
    /// authenticate, as under another pre-shared key; then nothing changes. What
    /// a peer with the same key wrote next is read.
    pub fn read(&mut self, message: &[u8]) -> (r: Result<(), ProtoError>)
        ensures
            ({
                let (psk, messages, first) = old(self).progress();
                match r {
                    Ok(_) => may_read(messages, first) && final(self).progress() == (
                        psk,
                        messages.push(message@),
                        first,
                    ),
                    Err(e) => e is Crypto && final(self).progress() == old(self).progress(),
                }
            }),
            forall|peer: Handshake|
                #![trigger peer.progress()]
                next_of(peer.progress(), old(self).progress(), message@) ==> r is Ok,
    {
        let room: usize = if message.len() <= NOISE_MAX_MESSAGE {
            message.len() + HANDSHAKE_OVERHEAD
        } else {
            HANDSHAKE_OVERHEAD
        };
        match noise_read_handshake(&mut self.inner, message, room) {
            Ok(_) => Ok(()),
            Err(e) => Err(ProtoError::Crypto(e.to_string())),
        }
    }

    /// Whether the handshake has exchanged all required messages.
    #[must_use]
    pub fn is_finished(&self) -> (r: bool)
        ensures
            r == (self.progress().1.len() == 2),
    {
        noise_finished(&self.inner)
    }

    /// Converts a completed handshake into the bidirectional channel; fails
    /// exactly when the handshake is not finished.
    pub fn finish(self) -> (r: Result<Channel, ProtoError>)
        ensures
            match r {
                Ok(channel) => self.progress().1.len() == 2 && channel@ == established(
                    self.progress(),
                ),
                Err(e) => self.progress().1.len() != 2 && e is Crypto,
            },
    {
        match noise_transport(self.inner) {
            Ok(inner) => Ok(Channel { inner, reassembly: Reassembly::new() }),
            Err(e) => Err(ProtoError::Crypto(e.to_string())),
        }
    }
}

/// Whether a peer, with the same key and after the same messages, wrote `message`
/// as the next one, and it is this side's turn to read.
pub open spec fn next_of(
    peer: (Seq<u8>, Seq<Seq<u8>>, bool),
    side: (Seq<u8>, Seq<Seq<u8>>, bool),
    message: Seq<u8>,
) -> bool {
    may_read(side.1, side.2) && peer == (side.0, side.1.push(message), !side.2)
}

/// The channel that a finished handshake becomes.
pub open spec fn established(side: (Seq<u8>, Seq<Seq<u8>>, bool)) -> ChannelState {
    let (forth, back) = noise_keys(side.0, side.1);
    ChannelState {
        usable: true,
        send_key: if side.2 {
            forth
        } else {
            back
        },
        send_count: 0,
        recv_key: if side.2 {
            back
        } else {
            forth
        },
        recv_count: 0,
        buffer: Seq::empty(),
    }
}

/// Whether what one channel seals next is what the other opens next, both ways.
pub open spec fn paired(a: ChannelState, b: ChannelState) -> bool {
    &&& a.usable && b.usable
    &&& a.send_key == b.recv_key && a.send_count == b.recv_count
    &&& b.send_key == a.recv_key && b.send_count == a.recv_count
}

/// Two sides of one handshake, with the same key and the same messages, end with
/// channels that open what the other seals.
pub proof fn law_handshake_pairs_channels(psk: Seq<u8>, messages: Seq<Seq<u8>>)
    ensures
        paired(established((psk, messages, true)), established((psk, messages, false))),
{
}

/// The smaller of two numbers.
pub open spec fn smaller(a: int, b: int) -> int {
    if a <= b {
        a
    } else {
        b
    }
}

/// How many chunks a message of `len` bytes takes: at least one.
pub open spec fn chunk_count(len: nat) -> nat {
    if len == 0 {
        1
    } else {
        ((len + MAX_CHUNK_DATA - 1) / MAX_CHUNK_DATA as int) as nat
    }
}

/// Chunk `i` of a message: a flag that tells whether it is the last, then the
/// next stretch of the message.
pub open spec fn chunk(message: Seq<u8>, i: int) -> Seq<u8> {
    let flag = if i == chunk_count(message.len()) - 1 {
        FLAG_FINAL
    } else {
        FLAG_MORE
    };
    seq![flag] + message.subrange(
        i * MAX_CHUNK_DATA,
        smaller((i + 1) * MAX_CHUNK_DATA, message.len() as int),
    )
}

/// What a frame does to the message being put together.
pub enum Absorbed {
    /// The frame held no flag byte.
    Empty,
    /// The message grew beyond the frame limit.
    Overflow,
    /// More chunks are expected.
    More,
    /// The message is complete.
    Done(Seq<u8>),
}

/// The buffer after a frame, and what the frame amounts to.
pub open spec fn absorb(buffer: Seq<u8>, frame: Seq<u8>) -> (Seq<u8>, Absorbed) {
    if frame.len() == 0 {
        (buffer, Absorbed::Empty)
    } else if buffer.len() + frame.len() - 1 > MAX_FRAME_BYTES {
        (Seq::empty(), Absorbed::Overflow)
    } else if frame[0] == FLAG_FINAL {
        (Seq::empty(), Absorbed::Done(buffer + frame.skip(1)))
    } else {
        (buffer + frame.skip(1), Absorbed::More)
    }
}

/// Whether `r` reports `absorbed`.
pub open spec fn reports(r: Result<Option<Vec<u8>>, ProtoError>, absorbed: Absorbed) -> bool {
    match absorbed {
        Absorbed::Empty => r matches Err(ProtoError::Crypto(e)) && e@ == "empty noise record"@,
        Absorbed::Overflow => r == Err::<Option<Vec<u8>>, ProtoError>(
            ProtoError::ReassemblyOverflow { max: MAX_FRAME_BYTES },
        ),
        Absorbed::More => r == Ok::<Option<Vec<u8>>, ProtoError>(None),
        Absorbed::Done(message) => r matches Ok(Some(m)) && m@ == message,
    }
}

/// The message being put together from decrypted frames.
pub struct Reassembly {
    buffer: Vec<u8>,
}

impl View for Reassembly {
    type V = Seq<u8>;

    closed spec fn view(&self) -> Seq<u8> {
        self.buffer@
    }
}

impl Reassembly {
    /// The buffer never outgrows the frame limit.
    #[verifier::type_invariant]
    pub closed spec fn bounded(self) -> bool {
        self.buffer@.len() <= MAX_FRAME_BYTES
    }

    /// Starts with nothing received.
    pub fn new() -> (r: Self)
        ensures
            r@ == Seq::<u8>::empty(),
    {
        Reassembly { buffer: Vec::new() }
    }

    /// Takes in one decrypted frame. The message comes out once a frame marked
    /// final completes it.
    pub fn accept(&mut self, frame: &[u8]) -> (r: Result<Option<Vec<u8>>, ProtoError>)
        ensures
            final(self)@ == absorb(old(self)@, frame@).0,
            reports(r, absorb(old(self)@, frame@).1),
            final(self)@.len() <= MAX_FRAME_BYTES,
    {
        proof {
            use_type_invariant(&*self);
        }
        if frame.len() == 0 {
            return Err(ProtoError::Crypto("empty noise record".to_owned()));
        }
        let mut buffer: Vec<u8> = Vec::new();
        std::mem::swap(&mut buffer, &mut self.buffer);
        if frame.len() - 1 > MAX_FRAME_BYTES - buffer.len() {
            return Err(ProtoError::ReassemblyOverflow { max: MAX_FRAME_BYTES });
        }
        let data = vstd::slice::slice_subrange(frame, 1, frame.len());
        assert(data@ =~= frame@.skip(1));
        buffer.extend_from_slice(data);
        assert(buffer@ =~= old(self)@ + frame@.skip(1));
        if frame[0] == FLAG_FINAL {
            Ok(Some(buffer))
        } else {
            self.buffer = buffer;
            Ok(None)
        }
    }
}

/// What a channel holds: whether it carries records both ways, key and message
/// counter of either direction, and the message being received.
pub struct ChannelState {
    pub usable: bool,
    pub send_key: Seq<u8>,
    pub send_count: u64,
    pub recv_key: Seq<u8>,
    pub recv_count: u64,
    pub buffer: Seq<u8>,
}

/// An established, bidirectional encrypted channel. Records are numbered, so
/// they must reach the peer's [`Channel::open`] in the order in which
/// [`Channel::seal`] made them.
pub struct Channel {
    inner: snow::TransportState,
    reassembly: Reassembly,
}

impl View for Channel {
    type V = ChannelState;

    closed spec fn view(&self) -> ChannelState {
        let link = noise_link(self.inner);
        ChannelState {
            usable: link.0,
            send_key: link.1.0,
            send_count: link.1.1,
            recv_key: link.2.0,
            recv_count: link.2.1,
            buffer: self.reassembly@,
        }
    }
}

/// Whether sealing `message` took the channel from `before` to `after` with
/// result `r`: one record per chunk, numbered on from the counter and longer than
/// the chunk by its tag. It fails only
/// where the counter cannot number all of them or the channel is not usable.
pub open spec fn sealed(
    before: ChannelState,
    message: Seq<u8>,
    after: ChannelState,
    r: Result<Vec<Vec<u8>>, ProtoError>,
) -> bool {
    let n = chunk_count(message.len());
    &&& after == ChannelState { send_count: after.send_count, ..before }
    &&& match r {
        Ok(records) => {
            &&& before.usable
            &&& before.send_count + n <= u64::MAX
            &&& after.send_count == before.send_count + n
            &&& records@.len() == n
            &&& forall|i: int|
                0 <= i < n ==> (#[trigger] records@[i])@ == noise_record(
                    before.send_key,
                    (before.send_count + i) as u64,
                    chunk(message, i),
                ) && records@[i]@.len() == chunk(message, i).len() + TAG_LEN && records@[i]@.len()
                    <= NOISE_MAX_MESSAGE
        },
        Err(e) => {
            &&& e is Crypto
            &&& !(before.usable && before.send_count + n <= u64::MAX)
            &&& before.usable ==> after.send_count == u64::MAX
        },
    }
}

/// Whether opening `record` took the channel from `before` to `after` with
/// result `r`. The record that carries a frame under the receiving key and
/// counter has the frame taken in and moves the counter on; anything else is
/// refused and changes nothing.
pub open spec fn opened(
    before: ChannelState,
    record: Seq<u8>,
    after: ChannelState,
    r: Result<Option<Vec<u8>>, ProtoError>,
) -> bool {
    let ready = before.usable && before.recv_count < u64::MAX && record.len() <= NOISE_MAX_MESSAGE;
    &&& forall|frame: Seq<u8>|
        ready && record == #[trigger] noise_record(before.recv_key, before.recv_count, frame) ==> {
            &&& after == ChannelState {
                recv_count: (before.recv_count + 1) as u64,
                buffer: absorb(before.buffer, frame).0,
                ..before
            }
            &&& reports(r, absorb(before.buffer, frame).1)
        }
    &&& before.usable && !(ready && exists|frame: Seq<u8>|
        record == #[trigger] noise_record(before.recv_key, before.recv_count, frame)) ==> after
        == before && r matches Err(ProtoError::Crypto(_))
}

impl Channel {
    fn seal_chunk(&mut self, flag: u8, data: &[u8]) -> (r: Result<Vec<u8>, ProtoError>)
        requires
            data@.len() <= MAX_CHUNK_DATA,
        ensures
            match r {
                Ok(record) => old(self)@.send_count < u64::MAX && record@ == noise_record(
                    old(self)@.send_key,
                    old(self)@.send_count,
                    seq![flag] + data@,
                ) && record@.len() == data@.len() + 1 + TAG_LEN && final(self)@ == (ChannelState {
                    send_count: (old(self)@.send_count + 1) as u64,
                    ..old(self)@
                }),
                Err(e) => e is Crypto && final(self)@ == old(self)@ && (old(self)@.usable
                    ==> old(self)@.send_count == u64::MAX),
            },
    {
        let mut framed: Vec<u8> = Vec::new();
        framed.push(flag);
        framed.extend_from_slice(data);
        assert(framed@ =~= seq![flag] + data@);
        let room: usize = framed.len() + TAG_LEN;
        match noise_write(&mut self.inner, &framed, room) {
            Ok(record) => Ok(record),
            Err(e) => Err(ProtoError::Crypto(e.to_string())),
        }
    }

    /// Seals a logical message into one or more ordered records of at most
    /// 65535 bytes each.
    pub fn seal(&mut self, plaintext: &[u8]) -> (r: Result<Vec<Vec<u8>>, ProtoError>)
        requires
            old(self)@.usable,
        ensures
            sealed(old(self)@, plaintext@, final(self)@, r),
    {
        let ghost n = chunk_count(plaintext@.len());
        let mut records: Vec<Vec<u8>> = Vec::new();
        let mut start: usize = 0;
        loop
            invariant_except_break
                start == records@.len() * MAX_CHUNK_DATA,
                records@.len() < n,
            invariant
                n == chunk_count(plaintext@.len()),
                start <= plaintext@.len(),
                old(self)@.usable,
                old(self)@.send_count + records@.len() <= u64::MAX,
                self@ == (ChannelState {
                    send_count: (old(self)@.send_count + records@.len()) as u64,
                    ..old(self)@
                }),
                forall|i: int|
                    0 <= i < records@.len() ==> (#[trigger] records@[i])@ == noise_record(
                        old(self)@.send_key,
                        (old(self)@.send_count + i) as u64,
                        chunk(plaintext@, i),
                    ) && records@[i]@.len() == chunk(plaintext@, i).len() + TAG_LEN
                        && records@[i]@.len() <= NOISE_MAX_MESSAGE,
            ensures
                records@.len() == n,
            decreases plaintext@.len() + 1 - start,
        {
            let left: usize = plaintext.len() - start;
            let last = left <= MAX_CHUNK_DATA;
            let size: usize = if last {
                left
            } else {
                MAX_CHUNK_DATA
            };
            let flag: u8 = if last {
                FLAG_FINAL
            } else {
                FLAG_MORE
            };
            let data = vstd::slice::slice_subrange(plaintext, start, start + size);
            assert(last == (records@.len() == n - 1));
            assert(seq![flag] + data@ =~= chunk(plaintext@, records@.len() as int));
            match self.seal_chunk(flag, data) {
                Ok(record) => {
                    records.push(record);
                },
                Err(e) => {
                    return Err(e);
                },
            }
            if last {
                break;
            }
            start = start + size;
        }
        Ok(records)
    }

    /// Feeds one received record into the message being put together. The
    /// message comes out once a record marked final completes it.
    pub fn open(&mut self, record: &[u8]) -> (r: Result<Option<Vec<u8>>, ProtoError>)
        ensures
            opened(old(self)@, record@, final(self)@, r),
            final(self)@.buffer.len() <= MAX_FRAME_BYTES,
    {
        proof {
            use_type_invariant(&self.reassembly);
        }
        match noise_read(&mut self.inner, record) {
            Ok(plain) => self.reassembly.accept(&plain),
            Err(e) => Err(ProtoError::Crypto(e.to_string())),
        }
    }
}

/// The state of a receiver that has taken in the first `i` records of a message.
pub open spec fn midway(start: ChannelState, message: Seq<u8>, i: int) -> ChannelState {
    ChannelState {
        recv_count: (start.recv_count + i) as u64,
        buffer: if i < chunk_count(message.len()) {
            message.take(i * MAX_CHUNK_DATA)
        } else {
            Seq::empty()
        },
        ..start
    }
}

/// Opening the records of one message, in order, on a channel that shares the
/// sender's key and counter and holds no partial message.
pub open spec fn received(
    states: Seq<ChannelState>,
    message: Seq<u8>,
    records: Seq<Seq<u8>>,
    results: Seq<Result<Option<Vec<u8>>, ProtoError>>,
) -> bool {
    let n = chunk_count(message.len());
    &&& records.len() == n
    &&& results.len() == n
    &&& states.len() == n + 1
    &&& states[0].usable
    &&& states[0].recv_count + n <= u64::MAX
    &&& states[0].buffer == Seq::<u8>::empty()
    &&& forall|i: int|
        0 <= i < n ==> #[trigger] opened(states[i], records[i], states[i + 1], results[i])
    &&& forall|i: int|
        0 <= i < n ==> #[trigger] records[i] == noise_record(
            states[0].recv_key,
            (states[0].recv_count + i) as u64,
            chunk(message, i),
        ) && records[i].len() <= NOISE_MAX_MESSAGE
}

proof fn lemma_received_prefix(
    states: Seq<ChannelState>,
    message: Seq<u8>,
    records: Seq<Seq<u8>>,
    results: Seq<Result<Option<Vec<u8>>, ProtoError>>,
    i: int,
)
    requires
        received(states, message, records, results),
        message.len() <= MAX_FRAME_BYTES,
        0 <= i <= chunk_count(message.len()),
    ensures
        states[i] == midway(states[0], message, i),
        0 < i < chunk_count(message.len()) ==> results[i - 1] == Ok::<Option<Vec<u8>>, ProtoError>(
            None,
        ),
        i == chunk_count(message.len()) ==> (results[i - 1] matches Ok(Some(m)) && m@ == message),
    decreases i,
{
    let n = chunk_count(message.len());
    if i == 0 {
        assert(message.take(0) =~= Seq::<u8>::empty());
        assert(states[0] == midway(states[0], message, 0));
    } else {
        let k = i - 1;
        lemma_received_prefix(states, message, records, results, k);
        assert(opened(states[k], records[k], states[k + 1], results[k]));
        let frame = chunk(message, k);
        assert(records[k] == noise_record(states[k].recv_key, states[k].recv_count, frame));
        let data = message.subrange(
            k * MAX_CHUNK_DATA,
            smaller((k + 1) * MAX_CHUNK_DATA, message.len() as int),
        );
        assert(frame.skip(1) =~= data);
        if k < n - 1 {
            assert(message.take(k * MAX_CHUNK_DATA) + data =~= message.take(i * MAX_CHUNK_DATA));
        } else {
            assert(message.take(k * MAX_CHUNK_DATA) + data =~= message);
        }
    }
}

/// Opening what was sealed gives the message back: the records of a message of
/// at most 32 MiB, delivered in order to the paired channel, yield nothing until
/// the last one, which yields exactly the message, and leave the receiver ready
/// for the next message.
pub proof fn law_open_undoes_seal(
    sender: ChannelState,
    sender_after: ChannelState,
    message: Seq<u8>,
    sealing: Result<Vec<Vec<u8>>, ProtoError>,
    states: Seq<ChannelState>,
    records: Seq<Seq<u8>>,
    results: Seq<Result<Option<Vec<u8>>, ProtoError>>,
)
    requires
        message.len() <= MAX_FRAME_BYTES,
        sealed(sender, message, sender_after, sealing),
        sealing matches Ok(made) && records == made@.map_values(|r: Vec<u8>| r@),
        states.len() == records.len() + 1,
        results.len() == records.len(),
        states[0].usable,
        states[0].recv_key == sender.send_key,
        states[0].recv_count == sender.send_count,
        states[0].buffer == Seq::<u8>::empty(),
        forall|i: int|
            0 <= i < records.len() ==> #[trigger] opened(
                states[i],
                records[i],
                states[i + 1],
                results[i],
            ),
    ensures
        records.len() >= 1,
        forall|i: int|
            0 <= i < records.len() - 1 ==> #[trigger] results[i] == Ok::<
                Option<Vec<u8>>,
                ProtoError,
            >(None),
        results.last() matches Ok(Some(m)) && m@ == message,
        states.last() == (ChannelState {
            recv_count: sender_after.send_count,
            ..states[0]
        }),
{
    let n = chunk_count(message.len());
    let made = sealing->Ok_0;
    assert forall|i: int| 0 <= i < n implies #[trigger] records[i] == noise_record(
        states[0].recv_key,
        (states[0].recv_count + i) as u64,
        chunk(message, i),
    ) && records[i].len() <= NOISE_MAX_MESSAGE by {
        assert(records[i] == made@[i]@);
    }
    assert(received(states, message, records, results));
    lemma_received_prefix(states, message, records, results, n as int);
    assert forall|i: int| 0 <= i < records.len() - 1 implies #[trigger] results[i] == Ok::<
        Option<Vec<u8>>,
        ProtoError,
    >(None) by {
        lemma_received_prefix(states, message, records, results, i + 1);
    }
}

/// The chunks of a message carry all of it in order, each within what one Noise
/// record can hold, and only the last one is flagged final.
pub proof fn law_chunks_cover_message(message: Seq<u8>, i: int)
    requires
        0 <= i < chunk_count(message.len()),
    ensures
        chunk(message, i).len() + TAG_LEN <= NOISE_MAX_MESSAGE,
        chunk(message, i)[0] == FLAG_FINAL <==> i == chunk_count(message.len()) - 1,
        forall|k: int|
            i * MAX_CHUNK_DATA <= k < smaller((i + 1) * MAX_CHUNK_DATA, message.len() as int)
                ==> #[trigger] message[k] == chunk(message, i)[k - i * MAX_CHUNK_DATA + 1],
        i == chunk_count(message.len()) - 1 ==> (i + 1) * MAX_CHUNK_DATA >= message.len(),
{
}

/// How many bytes the records take together.
pub open spec fn total_size(records: Seq<Vec<u8>>) -> nat
    decreases records.len(),
{
    if records.len() == 0 {
        0
    } else {
        total_size(records.drop_last()) + records.last()@.len()
    }
}

proof fn lemma_total_size(message: Seq<u8>, records: Seq<Vec<u8>>, i: int)
    requires
        0 <= i <= records.len() == chunk_count(message.len()),
        forall|k: int|
            0 <= k < records.len() ==> (#[trigger] records[k])@.len() == chunk(message, k).len()
                + TAG_LEN,
    ensures
        total_size(records.take(i)) == smaller(i * MAX_CHUNK_DATA, message.len() as int) + i * (
        TAG_LEN + 1),
    decreases i,
{
    if i > 0 {
        lemma_total_size(message, records, i - 1);
        assert(records.take(i).drop_last() =~= records.take(i - 1));
        assert(records.take(i).last() == records[i - 1]);
    }
}

/// The records of a message: one for every 65518 bytes or part of them, and one for
/// an empty message; each of 17 to 65535 bytes; all together 17 bytes per record
/// longer than the message.
pub proof fn law_sealed_sizes(
    before: ChannelState,
    message: Seq<u8>,
    after: ChannelState,
    records: Vec<Vec<u8>>,
)
    requires
        sealed(before, message, after, Ok(records)),
    ensures
        records@.len() == (if message.len() == 0 {
            1
        } else {
            (message.len() + 65517) / 65518
        }),
        forall|i: int|
            0 <= i < records@.len() ==> 17 <= (#[trigger] records@[i])@.len() <= 65535,
        total_size(records@) == message.len() + 17 * records@.len(),
{
    lemma_total_size(message, records@, records@.len() as int);
    assert(records@.take(records@.len() as int) =~= records@);
}

/// A frame that holds nothing is refused and changes nothing. One that would make
/// the message larger than 32 MiB loses it. Any other adds all but its first byte to
/// the message, which is complete if that byte is 1.
pub proof fn law_frames_make_a_message(
    parts: &mut Reassembly,
    frame: &[u8],
    r: Result<Option<Vec<u8>>, ProtoError>,
)
    requires
        call_ensures(Reassembly::accept, (parts, frame), r),
    ensures
        r is Err <==> frame@.len() == 0 || old(parts)@.len() + frame@.len() - 1 > 33554432,
        frame@.len() == 0 ==> final(parts)@ == old(parts)@ && (r matches Err(ProtoError::Crypto(_))),
        frame@.len() > 0 && r is Err ==> final(parts)@.len() == 0 && (
        r matches Err(ProtoError::ReassemblyOverflow { max }) && max == 33554432),
        r matches Ok(Some(message)) ==> {
            &&& frame@[0] == 1
            &&& message@ == old(parts)@ + frame@.skip(1)
            &&& final(parts)@.len() == 0
        },
        r matches Ok(None) ==> frame@[0] != 1 && final(parts)@ == old(parts)@ + frame@.skip(1),
{
}

/// A message is sealed in stretches of 65518 bytes. Each record carries a byte that
/// is 1 on the last of them and 0 on the others, then its stretch, and takes the next
/// number of the channel.
pub proof fn law_records_carry_stretches(
    channel: &mut Channel,
    message: &[u8],
    records: Vec<Vec<u8>>,
    i: int,
    stretch: Seq<u8>,
)
    requires
        old(channel)@.usable,
        call_ensures(Channel::seal, (channel, message), Ok(records)),
        0 <= i < records@.len(),
        stretch == message@.subrange(
            i * 65518,
            if (i + 1) * 65518 <= message@.len() {
                (i + 1) * 65518
            } else {
                message@.len() as int
            },
        ),
    ensures
        i == records@.len() - 1 ==> records@[i]@ == noise_record(
            old(channel)@.send_key,
            (old(channel)@.send_count + i) as u64,
            seq![1u8] + stretch,
        ),
        i < records@.len() - 1 ==> records@[i]@ == noise_record(
            old(channel)@.send_key,
            (old(channel)@.send_count + i) as u64,
            seq![0u8] + stretch,
        ),
        i == records@.len() - 1 ==> i * 65518 + stretch.len() == message@.len(),
        final(channel)@.send_count == old(channel)@.send_count + records@.len(),
        final(channel)@.recv_count == old(channel)@.recv_count,
{
    assert(records@[i]@ == noise_record(
        old(channel)@.send_key,
        (old(channel)@.send_count + i) as u64,
        chunk(message@, i),
    ));
}

/// Only the record that carries a frame under the receiving key and the next number
/// moves a usable channel on, and by one; any other is refused and leaves the channel
/// as it was.
pub proof fn law_records_are_opened_in_order(
    channel: &mut Channel,
    record: &[u8],
    r: Result<Option<Vec<u8>>, ProtoError>,
    frame: Seq<u8>,
)
    requires
        old(channel)@.usable,
        old(channel)@.recv_count < u64::MAX,
        call_ensures(Channel::open, (channel, record), r),
    ensures
        final(channel)@.send_count == old(channel)@.send_count,
        final(channel)@.send_key == old(channel)@.send_key,
        final(channel)@.recv_key == old(channel)@.recv_key,
        record@ == noise_record(old(channel)@.recv_key, old(channel)@.recv_count, frame)
            && record@.len() <= 65535 ==> {
            &&& final(channel)@.recv_count == old(channel)@.recv_count + 1
            &&& frame.len() > 0 && frame[0] == 1 && old(channel)@.buffer.len() + frame.len() - 1
                <= 33554432 ==> (r matches Ok(Some(message)) && message@ == old(channel)@.buffer
                + frame.skip(1)) && final(channel)@.buffer.len() == 0
            &&& frame.len() > 0 && frame[0] != 1 && old(channel)@.buffer.len() + frame.len() - 1
                <= 33554432 ==> (r matches Ok(None)) && final(channel)@.buffer == old(
                channel,
            )@.buffer + frame.skip(1)
        },
        record@.len() > 65535 || (forall|f: Seq<u8>|
            record@ != #[trigger] noise_record(
                old(channel)@.recv_key,
                old(channel)@.recv_count,
                f,
            )) ==> r is Err && final(channel)@ == old(channel)@,
{
    if record@.len() <= 65535 && exists|f: Seq<u8>|
        record@ == #[trigger] noise_record(old(channel)@.recv_key, old(channel)@.recv_count, f) {
        let f = choose|f: Seq<u8>|
            record@ == #[trigger] noise_record(old(channel)@.recv_key, old(channel)@.recv_count, f);
        assert(final(channel)@.send_count == old(channel)@.send_count);
    }
}

/// The key of a channel is the digest of the shared secret behind the bytes of
/// `arc/psk/v2`.
pub proof fn law_psk_is_a_digest(shared: &[u8], psk: [u8; 32])
    requires
        derive_psk.ensures((shared,), psk),
    ensures
        psk@ == blake2s256(vstd::utf8::encode_utf8("arc/psk/v2"@) + shared@),
{
}

/// The controller writes the first message of a handshake and the runner the second.
pub proof fn law_sides_take_turns(
    side: &mut Handshake,
    psk: &[u8; 32],
    controller: Result<Handshake, ProtoError>,
    runner: Result<Handshake, ProtoError>,
    r: Result<Vec<u8>, ProtoError>,
    done: bool,
    end: Result<Channel, ProtoError>,
)
    requires
        Handshake::initiator.ensures((psk,), controller),
        Handshake::responder.ensures((psk,), runner),
        call_ensures(Handshake::write, (side,), r),
        call_ensures(Handshake::is_finished, (&*old(side),), done),
        call_ensures(Handshake::finish, (*old(side),), end),
    ensures
        controller matches Ok(h) && h.progress().0 == psk@ && h.progress().1.len() == 0
            && h.progress().2,
        runner matches Ok(h) && h.progress().0 == psk@ && h.progress().1.len() == 0
            && !h.progress().2,
        r is Ok <==> (old(side).progress().1.len() == 0 && old(side).progress().2) || (old(
            side,
        ).progress().1.len() == 1 && !old(side).progress().2),
        r matches Ok(m) ==> final(side).progress().1 == old(side).progress().1.push(m@)
            && final(side).progress().0 == old(side).progress().0 && final(side).progress().2
            == old(side).progress().2,
        r is Err ==> final(side).progress() == old(side).progress(),
        done <==> old(side).progress().1.len() == 2,
        end is Ok <==> done,
        end matches Ok(channel) ==> channel@.usable && channel@.send_count == 0
            && channel@.recv_count == 0 && channel@.buffer.len() == 0 && (old(side).progress().2
            ==> channel@.send_key == noise_keys(
            old(side).progress().0,
            old(side).progress().1,
        ).0 && channel@.recv_key == noise_keys(old(side).progress().0, old(side).progress().1).1)
            && (!old(side).progress().2 ==> channel@.send_key == noise_keys(
            old(side).progress().0,
            old(side).progress().1,
        ).1 && channel@.recv_key == noise_keys(old(side).progress().0, old(side).progress().1).0),
{
}

/// Two sides that were started with the same code and got each other's message come
/// by the same key; a message that is not 33 bytes long is refused.
pub proof fn law_one_code_gives_one_key(
    a: Pake,
    b: Pake,
    from_b: &[u8],
    from_a: &[u8],
    of_a: Result<[u8; 32], ProtoError>,
    of_b: Result<[u8; 32], ProtoError>,
)
    requires
        a.symmetric(),
        b.symmetric(),
        a.password() == b.password(),
        from_b@ == b.message(),
        from_a@ == a.message(),
        call_ensures(Pake::finish, (a, from_b), of_a),
        call_ensures(Pake::finish, (b, from_a), of_b),
    ensures
        of_a matches Ok(x) && (of_b matches Ok(y) && x@ == y@),
{
    assert(a.message() == from_a@);
    assert(b.message() == from_b@);
}

} // verus!
