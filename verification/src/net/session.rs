//! The link: the handshake that builds it, and the frames on it. The messages are
//! the same whatever carries them; how a payload travels is decided by the
//! transport.

use vstd::prelude::*;

use crate::net::error::NetError;
use crate::proto::codec;
use crate::proto::crypto::{
    established, next_of, no_messages, paired, psk_of, Channel, Handshake, Pake,
};
use crate::proto::error::ProtoError;
use crate::proto::id::{PairingCode, Role, SessionId};
use crate::proto::relay::{ClientMsg, ServerMsg};
use crate::proto::PROTOCOL_VERSION;

verus! {

/// A link that has sent its PAKE message and waits for the peer's.
pub struct PakeStage {
    pake: Pake,
    role: Role,
}

/// A link that waits for the peer's Noise message.
pub struct NoiseStage {
    handshake: Handshake,
    role: Role,
}

impl PakeStage {
    /// The side this link is.
    pub closed spec fn side(self) -> Role {
        self.role
    }

    /// The key exchange in progress.
    pub closed spec fn exchange(self) -> Pake {
        self.pake
    }

    /// Begins a link: the payload goes to the peer at once, whatever the role.
    pub fn start(pairing: &PairingCode, role: Role) -> (r: (Self, Vec<u8>))
        ensures
            began(r.0, pairing@, role, r.1@),
    {
        let (pake, message) = Pake::start(pairing);
        (PakeStage { pake, role }, message)
    }

    /// Takes the peer's PAKE message and moves on to the Noise handshake, keyed by
    /// what both sides agreed on. The controller writes first, so there is a
    /// payload to send; the runner waits. A peer that is gone ends the link.
    pub fn advance(self, peer_message: Option<Vec<u8>>) -> (r: Result<
        (NoiseStage, Option<Vec<u8>>),
        NetError,
    >)
        ensures
            advances(self, peer_message, r),
    {
        let message = match peer_message {
            Some(m) => m,
            None => {
                return Err(NetError::Closed);
            },
        };
        let role = self.role;
        let psk = match self.pake.finish(&message) {
            Ok(psk) => psk,
            Err(e) => {
                return Err(NetError::Proto(e));
            },
        };
        match role {
            Role::Controller => match Handshake::initiator(&psk) {
                Ok(handshake) => {
                    let mut handshake = handshake;
                    match handshake.write() {
                        Ok(payload) => Ok((NoiseStage { handshake, role }, Some(payload))),
                        Err(e) => Err(NetError::Proto(e)),
                    }
                },
                Err(e) => Err(NetError::Proto(e)),
            },
            Role::Runner => match Handshake::responder(&psk) {
                Ok(handshake) => Ok((NoiseStage { handshake, role }, None)),
                Err(e) => Err(NetError::Proto(e)),
            },
        }
    }
}

/// A link has begun with a pairing code, and sends the message.
pub open spec fn began(stage: PakeStage, code: Seq<char>, role: Role, message: Seq<u8>) -> bool {
    &&& stage.side() == role
    &&& stage.exchange().symmetric()
    &&& stage.exchange().password() == vstd::utf8::encode_utf8(code)
    &&& stage.exchange().message() == message
}

/// What the peer's PAKE message leads to. A message that the exchange accepts keys
/// the handshake with the secret, and one of a peer with the same code is accepted
/// and leads both to the same key.
pub open spec fn advances(
    stage: PakeStage,
    peer_message: Option<Vec<u8>>,
    r: Result<(NoiseStage, Option<Vec<u8>>), NetError>,
) -> bool {
    match peer_message {
        None => r == Err::<(NoiseStage, Option<Vec<u8>>), NetError>(NetError::Closed),
        Some(m) => {
            &&& match r {
                Ok((next, payload)) => {
                    let secret = stage.exchange().outcome(m@);
                    &&& secret is Some
                    &&& next.side() == stage.side()
                    &&& match (stage.side(), payload) {
                        (Role::Controller, Some(p)) => next.progress() == (
                            psk_of(secret->0),
                            no_messages().push(p@),
                            true,
                        ),
                        (Role::Runner, None) => next.progress() == (
                            psk_of(secret->0),
                            no_messages(),
                            false,
                        ),
                        _ => false,
                    }
                },
                Err(e) => stage.exchange().outcome(m@) is None && (
                e matches NetError::Proto(ProtoError::Crypto(_))),
            }
            &&& forall|other: Pake|
                #![trigger other.message()]
                other.symmetric() && other.password() == stage.exchange().password()
                    && other.message() == m@ ==> r is Ok && (other.outcome(
                    stage.exchange().message(),
                ) matches Some(secret) && (r->Ok_0).0.progress().0 == psk_of(secret))
        },
    }
}

impl NoiseStage {
    /// The side this link is.
    pub closed spec fn side(self) -> Role {
        self.role
    }

    /// Where the handshake stands: its key, its messages, and whether this side
    /// wrote first.
    pub closed spec fn progress(self) -> (Seq<u8>, Seq<Seq<u8>>, bool) {
        self.handshake.progress()
    }

    /// It is the peer's turn: the controller has written its message, the runner
    /// none.
    pub open spec fn well_formed(self) -> bool {
        &&& self.progress().2 == (self.side() == Role::Controller)
        &&& self.progress().1.len() == (if self.side() == Role::Controller {
            1nat
        } else {
            0nat
        })
    }

    /// Takes the peer's Noise message and completes the link. The runner answers,
    /// so it has a payload to send; the controller is done. A message under
    /// another key is refused, and a peer that is gone ends the link.
    pub fn advance(self, peer_message: Option<Vec<u8>>) -> (r: Result<
        (Channel, Option<Vec<u8>>),
        NetError,
    >)
        requires
            self.well_formed(),
        ensures
            completes(self, peer_message, r),
    {
        let message = match peer_message {
            Some(m) => m,
            None => {
                return Err(NetError::Closed);
            },
        };
        let role = self.role;
        let mut handshake = self.handshake;
        match handshake.read(&message) {
            Ok(_) => {},
            Err(e) => {
                return Err(NetError::Proto(e));
            },
        }
        let payload = match role {
            Role::Controller => None,
            Role::Runner => match handshake.write() {
                Ok(payload) => Some(payload),
                Err(e) => {
                    return Err(NetError::Proto(e));
                },
            },
        };
        let ghost reached = handshake;
        match handshake.finish() {
            Ok(channel) => {
                assert(reached.progress().1.len() == 2);
                Ok((channel, payload))
            },
            Err(e) => Err(NetError::Proto(e)),
        }
    }
}

/// What the peer's Noise message leads to: the channel of the handshake, which then
/// has both messages. What a peer with the same key wrote next is accepted.
pub open spec fn completes(
    stage: NoiseStage,
    peer_message: Option<Vec<u8>>,
    r: Result<(Channel, Option<Vec<u8>>), NetError>,
) -> bool {
    match peer_message {
        None => r == Err::<(Channel, Option<Vec<u8>>), NetError>(NetError::Closed),
        Some(m) => {
            let (psk, messages, first) = stage.progress();
            &&& match r {
                Ok((channel, payload)) => match (stage.side(), payload) {
                    (Role::Controller, None) => channel@ == established(
                        (psk, messages.push(m@), first),
                    ),
                    (Role::Runner, Some(p)) => channel@ == established(
                        (psk, messages.push(m@).push(p@), first),
                    ) && exists|h: Handshake|
                        #[trigger] h.progress() == (psk, messages.push(m@).push(p@), first),
                    _ => false,
                },
                Err(e) => e matches NetError::Proto(ProtoError::Crypto(_)),
            }
            &&& forall|peer: Handshake|
                #![trigger peer.progress()]
                next_of(peer.progress(), stage.progress(), m@) ==> r is Ok
        },
    }
}

/// A controller and a runner that begin with the same code, and get each other's
/// messages, both complete the link, and each opens what the other seals.
pub proof fn law_same_code_links(
    code: Seq<char>,
    controller: (PakeStage, Vec<u8>),
    runner: (PakeStage, Vec<u8>),
    controller_keyed: Result<(NoiseStage, Option<Vec<u8>>), NetError>,
    runner_keyed: Result<(NoiseStage, Option<Vec<u8>>), NetError>,
    runner_done: Result<(Channel, Option<Vec<u8>>), NetError>,
    controller_done: Result<(Channel, Option<Vec<u8>>), NetError>,
)
    requires
        began(controller.0, code, Role::Controller, controller.1@),
        began(runner.0, code, Role::Runner, runner.1@),
        advances(controller.0, Some(runner.1), controller_keyed),
        advances(runner.0, Some(controller.1), runner_keyed),
        controller_keyed is Ok && runner_keyed is Ok ==> completes(
            (runner_keyed->Ok_0).0,
            (controller_keyed->Ok_0).1,
            runner_done,
        ),
        controller_keyed is Ok && runner_done is Ok ==> completes(
            (controller_keyed->Ok_0).0,
            (runner_done->Ok_0).1,
            controller_done,
        ),
    ensures
        runner_done is Ok,
        controller_done is Ok,
        paired((controller_done->Ok_0).0@, (runner_done->Ok_0).0@),
{
    let ours = controller.0.exchange();
    let theirs = runner.0.exchange();
    assert(ours.message() == controller.1@ && theirs.message() == runner.1@);
    assert(controller_keyed is Ok && runner_keyed is Ok);
    let (asking, first) = controller_keyed->Ok_0;
    let (answering, _) = runner_keyed->Ok_0;
    assert(asking.progress().0 == answering.progress().0);
    assert(next_of(asking.handshake.progress(), answering.progress(), first->0@));
    assert(runner_done is Ok);
    let second = (runner_done->Ok_0).1->0;
    let messages = no_messages().push(first->0@).push(second@);
    let peer = choose|h: Handshake|
        #[trigger] h.progress() == (answering.progress().0, messages, false);
    assert(next_of(peer.progress(), asking.progress(), second@));
    assert(controller_done is Ok);
}

/// Encodes a frame with `encode` and seals it into records, in order.
pub fn seal_frame<F: FnOnce() -> Result<Vec<u8>, String>>(channel: &mut Channel, encode: F) -> (r:
    Result<Vec<Vec<u8>>, NetError>)
    requires
        old(channel)@.usable,
        encode.requires(()),
    ensures
        exists|encoded: Result<Vec<u8>, String>| #[trigger]
            encode.ensures((), encoded) && match encoded {
                Ok(bytes) => if bytes@.len() <= codec::MAX_FRAME_BYTES {
                    exists|sealing: Result<Vec<Vec<u8>>, ProtoError>| #[trigger]
                        crate::proto::crypto::sealed(
                            old(channel)@,
                            bytes@,
                            final(channel)@,
                            sealing,
                        ) && r == lifted(sealing)
                } else {
                    *final(channel) == *old(channel) && r == Err::<Vec<Vec<u8>>, NetError>(
                        NetError::Proto(
                            ProtoError::FrameTooLarge {
                                size: bytes@.len() as usize,
                                max: codec::MAX_FRAME_BYTES,
                            },
                        ),
                    )
                },
                Err(e) => *final(channel) == *old(channel) && r == Err::<Vec<Vec<u8>>, NetError>(
                    NetError::Proto(ProtoError::Encode(e)),
                ),
            },
{
    match codec::to_cbor(encode) {
        Ok(bytes) => match channel.seal(&bytes) {
            Ok(records) => {
                assert(lifted(Ok::<Vec<Vec<u8>>, ProtoError>(records)) == Ok::<
                    Vec<Vec<u8>>,
                    NetError,
                >(records));
                Ok(records)
            },
            Err(e) => Err(NetError::Proto(e)),
        },
        Err(e) => Err(NetError::Proto(e)),
    }
}

/// A protocol error as a link error.
pub open spec fn lifted<T>(r: Result<T, ProtoError>) -> Result<T, NetError> {
    match r {
        Ok(v) => Ok(v),
        Err(e) => Err(NetError::Proto(e)),
    }
}

/// Opens a record and, once it completes a message, decodes the frame in it with
/// `decode`.
pub fn open_frame<T, F: FnOnce(&[u8]) -> Result<T, String>>(
    channel: &mut Channel,
    data: &[u8],
    decode: F,
) -> (r: Result<Option<T>, NetError>)
    requires
        forall|bytes: &[u8]| #[trigger] decode.requires((bytes,)),
    ensures
        exists|opening: Result<Option<Vec<u8>>, ProtoError>| #[trigger]
            crate::proto::crypto::opened(old(channel)@, data@, final(channel)@, opening)
                && match opening {
                Ok(Some(message)) => if message@.len() <= codec::MAX_FRAME_BYTES {
                    exists|bytes: &[u8], decoded: Result<T, String>|
                        bytes@ == message@ && #[trigger] decode.ensures((bytes,), decoded) && r
                            == match decoded {
                            Ok(frame) => Ok::<Option<T>, NetError>(Some(frame)),
                            Err(e) => Err::<Option<T>, NetError>(
                                NetError::Proto(ProtoError::Decode(e)),
                            ),
                        }
                } else {
                    r == Err::<Option<T>, NetError>(
                        NetError::Proto(
                            ProtoError::FrameTooLarge {
                                size: message@.len() as usize,
                                max: codec::MAX_FRAME_BYTES,
                            },
                        ),
                    )
                },
                Ok(None) => r == Ok::<Option<T>, NetError>(None),
                Err(e) => r == Err::<Option<T>, NetError>(NetError::Proto(e)),
            },
{
    match channel.open(data) {
        Ok(Some(message)) => match codec::from_cbor(message.as_slice(), decode) {
            Ok(frame) => Ok(Some(frame)),
            Err(e) => Err(NetError::Proto(e)),
        },
        Ok(None) => Ok(None),
        Err(e) => Err(NetError::Proto(e)),
    }
}

/// The hello that joins a session in a role.
pub fn hello(session: SessionId, role: Role) -> (m: ClientMsg)
    ensures
        m == (ClientMsg::Hello { session, role, protocol_version: PROTOCOL_VERSION }),
{
    ClientMsg::Hello { session, role, protocol_version: PROTOCOL_VERSION }
}

/// What the relay's answer to the hello means: whether the peer is there already.
pub fn join_relay(answer: Option<ServerMsg>) -> (r: Result<bool, NetError>)
    ensures
        match answer {
            Some(ServerMsg::Welcome { peer_present }) => r == Ok::<bool, NetError>(peer_present),
            Some(ServerMsg::Error { kind, message }) => r == Err::<bool, NetError>(
                NetError::Relay(message),
            ),
            Some(_) => r matches Err(NetError::Relay(m)) && m@ == "expected welcome"@,
            None => r == Err::<bool, NetError>(NetError::Closed),
        },
{
    match answer {
        Some(ServerMsg::Welcome { peer_present }) => Ok(peer_present),
        Some(ServerMsg::Error { kind: _, message }) => Err(NetError::Relay(message)),
        Some(_) => Err(NetError::Relay("expected welcome".to_owned())),
        None => Err(NetError::Closed),
    }
}

/// What a relay message means while waiting for the peer: whether it is there
/// now.
pub fn wait_for_peer(message: Option<ServerMsg>) -> (r: Result<bool, NetError>)
    ensures
        r == (match message {
            Some(ServerMsg::PeerJoined) => Ok::<bool, NetError>(true),
            Some(ServerMsg::Welcome { peer_present }) => Ok::<bool, NetError>(peer_present),
            Some(ServerMsg::Error { kind, message }) => Err::<bool, NetError>(
                NetError::Relay(message),
            ),
            Some(_) => Ok::<bool, NetError>(false),
            None => Err::<bool, NetError>(NetError::Closed),
        }),
{
    match message {
        Some(ServerMsg::PeerJoined) => Ok(true),
        Some(ServerMsg::Welcome { peer_present }) => Ok(peer_present),
        Some(ServerMsg::Error { kind: _, message }) => Err(NetError::Relay(message)),
        Some(_) => Ok(false),
        None => Err(NetError::Closed),
    }
}

/// What came in on a link's transport.
pub enum Payload {
    /// A payload of the peer.
    Data(Vec<u8>),
    /// The peer left or the link closed.
    Gone,
    /// Nothing of the peer: keep reading.
    Skip,
}

/// What a relay message means on an established link.
pub fn recv_relay_payload(message: Option<ServerMsg>) -> (r: Result<Payload, NetError>)
    ensures
        r == (match message {
            Some(ServerMsg::Relay { data }) => Ok::<Payload, NetError>(Payload::Data(data)),
            Some(ServerMsg::PeerLeft) | None => Ok::<Payload, NetError>(Payload::Gone),
            Some(ServerMsg::Error { kind, message }) => Err::<Payload, NetError>(
                NetError::Relay(message),
            ),
            Some(_) => Ok::<Payload, NetError>(Payload::Skip),
        }),
{
    match message {
        Some(ServerMsg::Relay { data }) => Ok(Payload::Data(data)),
        Some(ServerMsg::PeerLeft) => Ok(Payload::Gone),
        None => Ok(Payload::Gone),
        Some(ServerMsg::Error { kind: _, message }) => Err(NetError::Relay(message)),
        Some(_) => Ok(Payload::Skip),
    }
}

/// A message of the WebSocket underneath.
pub enum SocketMessage {
    /// A binary frame.
    Binary(Vec<u8>),
    /// The socket closes or has ended.
    Close,
    /// Any other frame.
    Other,
}

/// What a socket message means on a direct link.
pub fn recv_direct_payload(message: SocketMessage) -> (r: Payload)
    ensures
        r == (match message {
            SocketMessage::Binary(data) => Payload::Data(data),
            SocketMessage::Close => Payload::Gone,
            SocketMessage::Other => Payload::Skip,
        }),
{
    match message {
        SocketMessage::Binary(data) => Payload::Data(data),
        SocketMessage::Close => Payload::Gone,
        SocketMessage::Other => Payload::Skip,
    }
}

/// Joining a relay asks for the session in the role, and tells whether the peer is
/// there as the relay does; only a welcome counts.
pub proof fn law_relay_is_joined_by_welcome(
    session: SessionId,
    role: Role,
    m: ClientMsg,
    answer: Option<ServerMsg>,
    r: Result<bool, NetError>,
)
    requires
        hello.ensures((session, role), m),
        join_relay.ensures((answer,), r),
    ensures
        m matches ClientMsg::Hello { session: s, role: o, .. } && s == session && o == role,
        r is Ok <==> (answer matches Some(a) && a is Welcome),
        answer matches Some(ServerMsg::Welcome { peer_present }) ==> r == Ok::<bool, NetError>(
            peer_present,
        ),
        answer is None ==> r == Err::<bool, NetError>(NetError::Closed),
{
}

/// Waiting for the peer ends when the relay says that it joined or is there, and in
/// error when the relay says so or is gone; nothing else ends it.
pub proof fn law_peer_is_awaited(message: Option<ServerMsg>, r: Result<bool, NetError>)
    requires
        wait_for_peer.ensures((message,), r),
    ensures
        r == Ok::<bool, NetError>(true) <==> message == Some(ServerMsg::PeerJoined) || message
            == Some(ServerMsg::Welcome { peer_present: true }),
        r is Err <==> message is None || (message matches Some(m) && m is Error),
{
}

/// On a link, exactly what the peer sent is taken as data, as it is, over a relay and
/// directly; the link ends exactly when the peer is gone.
pub proof fn law_payload_is_what_the_peer_sent(
    message: Option<ServerMsg>,
    socket: SocketMessage,
    r: Result<Payload, NetError>,
    d: Payload,
)
    requires
        recv_relay_payload.ensures((message,), r),
        recv_direct_payload.ensures((socket,), d),
    ensures
        message matches Some(ServerMsg::Relay { data }) ==> r == Ok::<Payload, NetError>(
            Payload::Data(data),
        ),
        r matches Ok(Payload::Data(data)) ==> message == Some(ServerMsg::Relay { data }),
        (r matches Ok(p) && p is Gone) <==> message is None || message == Some(
            ServerMsg::PeerLeft,
        ),
        r is Err <==> (message matches Some(m) && m is Error),
        socket matches SocketMessage::Binary(data) ==> d == Payload::Data(data),
        d is Data <==> socket is Binary,
        d is Gone <==> socket is Close,
{
}

} // verus!
