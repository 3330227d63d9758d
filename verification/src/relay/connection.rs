//! Per-connection state machine: the opening hello, the greeting after joining,
//! and the forwarding of payloads until the socket closes or the connection is
//! evicted.

use vstd::prelude::*;

use crate::proto::id::{Role, SessionId};
use crate::proto::relay::{ClientMsg, RelayErrorKind, ServerMsg};
use crate::proto::PROTOCOL_VERSION;
use crate::relay::hub::Joined;

verus! {

/// What came from a connection's socket.
pub enum Incoming {
    /// A binary frame: the message it holds, or none if it cannot be decoded.
    Message(Option<ClientMsg>),
    /// A ping or pong of the transport.
    Control,
    /// Any other frame.
    Other,
    /// The socket closed or failed.
    Closed,
    /// A newer connection took this one's role.
    Evicted,
}

/// Whether `m` is an error notice of that kind with that text.
pub open spec fn is_reject(m: ServerMsg, kind: RelayErrorKind, message: Seq<char>) -> bool {
    m matches ServerMsg::Error { kind: k, message: t } && k == kind && t@ == message
}

/// The notice that refuses or ends a connection.
pub fn reject(kind: RelayErrorKind, message: &str) -> (m: ServerMsg)
    ensures
        is_reject(m, kind, message@),
{
    ServerMsg::Error { kind, message: message.to_owned() }
}

/// What an opening frame leads to.
pub enum Opening {
    /// Keep waiting for the hello.
    Wait,
    /// The peer joins a session in a role.
    Accept {
        /// The session.
        session: SessionId,
        /// The role.
        role: Role,
    },
    /// The connection ends, with a notice if there is one.
    Refuse(Option<ServerMsg>),
}

/// Whether `r` is what an opening frame must lead to: a hello of this version is
/// accepted, control frames are tolerated, everything else is refused with the
/// reason.
pub open spec fn opens(event: Incoming, r: Opening) -> bool {
    match event {
        Incoming::Message(Some(ClientMsg::Hello { session, role, protocol_version })) => if protocol_version
            == PROTOCOL_VERSION {
            r == (Opening::Accept { session, role })
        } else {
            r matches Opening::Refuse(Some(m)) && is_reject(
                m,
                RelayErrorKind::VersionMismatch,
                "unsupported version"@,
            )
        },
        Incoming::Message(None) => r matches Opening::Refuse(Some(m)) && is_reject(
            m,
            RelayErrorKind::ProtocolViolation,
            "bad hello"@,
        ),
        Incoming::Message(Some(_)) | Incoming::Other => r matches Opening::Refuse(Some(m))
            && is_reject(m, RelayErrorKind::ProtocolViolation, "expected hello"@),
        Incoming::Control => r is Wait,
        Incoming::Closed | Incoming::Evicted => r == Opening::Refuse(None),
    }
}

/// Validates a frame that comes before the peer has joined.
pub fn handshake(event: Incoming) -> (r: Opening)
    ensures
        opens(event, r),
{
    match event {
        Incoming::Message(Some(ClientMsg::Hello { session, role, protocol_version })) => {
            if protocol_version == PROTOCOL_VERSION {
                Opening::Accept { session, role }
            } else {
                Opening::Refuse(
                    Some(reject(RelayErrorKind::VersionMismatch, "unsupported version")),
                )
            }
        },
        Incoming::Message(None) => Opening::Refuse(
            Some(reject(RelayErrorKind::ProtocolViolation, "bad hello")),
        ),
        Incoming::Message(Some(_)) => Opening::Refuse(
            Some(reject(RelayErrorKind::ProtocolViolation, "expected hello")),
        ),
        Incoming::Other => Opening::Refuse(
            Some(reject(RelayErrorKind::ProtocolViolation, "expected hello")),
        ),
        Incoming::Control => Opening::Wait,
        Incoming::Closed => Opening::Refuse(None),
        Incoming::Evicted => Opening::Refuse(None),
    }
}

/// What is sent once a peer has joined.
pub struct Greeting {
    /// The displaced connection and its last notice.
    pub evict: Option<(u64, ServerMsg)>,
    /// The newcomer's welcome.
    pub welcome: ServerMsg,
    /// The opposite connection and the news for it.
    pub notify: Option<(u64, ServerMsg)>,
}

/// Greets a newcomer: the displaced connection is told it was replaced, the
/// newcomer whether the opposite peer is there, and that peer of the arrival.
pub fn serve(joined: Joined) -> (r: Greeting)
    ensures
        match joined.evicted {
            Some(old_id) => r.evict matches Some((to, m)) && to == old_id && is_reject(
                m,
                RelayErrorKind::Replaced,
                "replaced by a new connection"@,
            ),
            None => r.evict is None,
        },
        r.welcome == (ServerMsg::Welcome { peer_present: joined.peer_present }),
        r.notify == (match joined.peer {
            Some(peer) => Some((peer, ServerMsg::PeerJoined)),
            None => None,
        }),
{
    let evict = match joined.evicted {
        Some(id) => Some(
            (id, reject(RelayErrorKind::Replaced, "replaced by a new connection")),
        ),
        None => None,
    };
    let notify = match joined.peer {
        Some(peer) => Some((peer, ServerMsg::PeerJoined)),
        None => None,
    };
    Greeting {
        evict,
        welcome: ServerMsg::Welcome { peer_present: joined.peer_present },
        notify,
    }
}

/// What a frame of a joined peer leads to.
pub enum Pumped {
    /// Nothing: the frame carries no protocol data, or nobody is there for it.
    Ignore,
    /// Send this to the opposite connection.
    Forward {
        /// The opposite connection.
        to: u64,
        /// The payload, unchanged.
        message: ServerMsg,
    },
    /// Send this back.
    Answer(ServerMsg),
    /// The connection ends, with a notice if there is one.
    Close(Option<ServerMsg>),
}

/// Whether `r` is what a frame of a joined peer must lead to. Payloads go to the
/// opposite connection as they are, or are dropped while there is none.
pub open spec fn pumps(event: Incoming, peer: Option<u64>, r: Pumped) -> bool {
    match event {
        Incoming::Message(Some(ClientMsg::Relay { data })) => match peer {
            Some(to) => r == (Pumped::Forward { to, message: ServerMsg::Relay { data } }),
            None => r is Ignore,
        },
        Incoming::Message(Some(ClientMsg::Ping)) => r == Pumped::Answer(ServerMsg::Pong),
        Incoming::Message(Some(ClientMsg::Hello { .. })) => r matches Pumped::Close(Some(m))
            && is_reject(m, RelayErrorKind::ProtocolViolation, "duplicate hello"@),
        Incoming::Message(None) => r matches Pumped::Close(Some(m)) && is_reject(
            m,
            RelayErrorKind::ProtocolViolation,
            "bad frame"@,
        ),
        Incoming::Control | Incoming::Other => r is Ignore,
        Incoming::Closed | Incoming::Evicted => r == Pumped::Close(None),
    }
}

/// Treats a frame of a joined peer; `peer` is the opposite connection.
pub fn pump(event: Incoming, peer: Option<u64>) -> (r: Pumped)
    ensures
        pumps(event, peer, r),
{
    match event {
        Incoming::Message(Some(ClientMsg::Relay { data })) => match peer {
            Some(to) => Pumped::Forward { to, message: ServerMsg::Relay { data } },
            None => Pumped::Ignore,
        },
        Incoming::Message(Some(ClientMsg::Ping)) => Pumped::Answer(ServerMsg::Pong),
        Incoming::Message(Some(ClientMsg::Hello { .. })) => Pumped::Close(
            Some(reject(RelayErrorKind::ProtocolViolation, "duplicate hello")),
        ),
        Incoming::Message(None) => Pumped::Close(
            Some(reject(RelayErrorKind::ProtocolViolation, "bad frame")),
        ),
        Incoming::Control => Pumped::Ignore,
        Incoming::Other => Pumped::Ignore,
        Incoming::Closed => Pumped::Close(None),
        Incoming::Evicted => Pumped::Close(None),
    }
}

/// What became of a message for a connection's queue.
#[derive(Debug, Clone, Copy, PartialEq, Eq, Structural)]
pub enum Queued {
    /// The queue took it.
    Taken,
    /// The queue is full.
    Full,
    /// Nobody reads the queue any more.
    Gone,
}

/// What follows a message for the opposite connection.
#[derive(Debug, Clone, Copy, PartialEq, Eq, Structural)]
pub enum Sent {
    /// Both connections go on.
    GoOn,
    /// The receiving connection ends.
    EndReceiver,
    /// The sending connection ends.
    EndSender,
}

/// Decides what follows a message for the opposite connection. One that lets its
/// queue fill up is stalled and is cut off, so that nothing piles up for it. A
/// payload for one that is gone ends the connection it came from; news for it is
/// dropped.
pub fn after_send(outcome: Queued, payload: bool) -> (r: Sent)
    ensures
        r == (match outcome {
            Queued::Taken => Sent::GoOn,
            Queued::Full => Sent::EndReceiver,
            Queued::Gone => if payload {
                Sent::EndSender
            } else {
                Sent::GoOn
            },
        }),
{
    match outcome {
        Queued::Taken => Sent::GoOn,
        Queued::Full => Sent::EndReceiver,
        Queued::Gone => if payload {
            Sent::EndSender
        } else {
            Sent::GoOn
        },
    }
}

/// What is sent when a connection has left: the opposite connection, if there is
/// one, learns that its peer is gone.
pub fn farewell(peer: Option<u64>) -> (r: Option<(u64, ServerMsg)>)
    ensures
        r == (match peer {
            Some(to) => Some((to, ServerMsg::PeerLeft)),
            None => None,
        }),
{
    match peer {
        Some(to) => Some((to, ServerMsg::PeerLeft)),
        None => None,
    }
}

/// The address that the relay binds to: the configured one, or port 8787 on every
/// interface.
pub fn bind_address(configured: Option<String>) -> (r: String)
    ensures
        match configured {
            Some(addr) => r == addr,
            None => r@ == "0.0.0.0:8787"@,
        },
{
    match configured {
        Some(addr) => addr,
        None => "0.0.0.0:8787".to_owned(),
    }
}

/// Exactly a hello of the relay's own version is accepted, with the session and the
/// role that it names. Only control frames are waited through; anything else ends the
/// connection.
pub proof fn law_hello_is_accepted(event: Incoming, r: Opening)
    requires
        handshake.ensures((event,), r),
    ensures
        r is Accept <==> (event matches Incoming::Message(Some(
            ClientMsg::Hello { protocol_version, .. },
        )) && protocol_version == PROTOCOL_VERSION),
        r matches Opening::Accept { session, role } ==> (event matches Incoming::Message(Some(
            ClientMsg::Hello { session: s, role: o, .. },
        )) && s == session && o == role),
        r is Wait <==> event is Control,
        r == Opening::Refuse(None) <==> event is Closed || event is Evicted,
        event matches Incoming::Message(Some(ClientMsg::Hello { protocol_version, .. })) ==> (
        protocol_version != PROTOCOL_VERSION ==> (r matches Opening::Refuse(Some(
            ServerMsg::Error { kind, .. },
        )) && kind == RelayErrorKind::VersionMismatch)),
{
}

/// A newcomer is welcomed and told whether its peer is there; the peer, and only the
/// peer, is told of it, and the connection it displaced, and only that, is sent away.
pub proof fn law_greeting_goes_to_everyone_concerned(joined: Joined, r: Greeting)
    requires
        serve.ensures((joined,), r),
    ensures
        r.welcome == (ServerMsg::Welcome { peer_present: joined.peer_present }),
        r.notify is Some <==> joined.peer is Some,
        r.notify matches Some(n) ==> n.0 == joined.peer->0 && n.1 is PeerJoined,
        r.evict is Some <==> joined.evicted is Some,
        r.evict matches Some(e) ==> e.0 == joined.evicted->0 && (e.1 matches ServerMsg::Error {
            kind,
            ..
        } && kind == RelayErrorKind::Replaced),
{
}

/// A payload is forwarded unchanged to the peer, if there is one, and nothing else is
/// forwarded. A ping is answered. What breaks the protocol, and the end of the socket,
/// end the connection, and nothing else does.
pub proof fn law_payloads_are_forwarded_unchanged(event: Incoming, peer: Option<u64>, r: Pumped)
    requires
        pump.ensures((event, peer), r),
    ensures
        event matches Incoming::Message(Some(ClientMsg::Relay { data })) ==> (peer matches Some(to)
            ==> r == (Pumped::Forward { to, message: ServerMsg::Relay { data } })) && (peer is None
            ==> r is Ignore),
        r is Forward ==> (event matches Incoming::Message(Some(m)) && m is Relay),
        r is Answer <==> (event matches Incoming::Message(Some(m)) && m is Ping),
        r matches Pumped::Answer(m) ==> m is Pong,
        r is Close <==> event is Closed || event is Evicted || (event matches Incoming::Message(m)
            && (m matches Some(c) ==> c is Hello)),
        r == Pumped::Close(None) <==> event is Closed || event is Evicted,
{
}

/// A receiver whose queue is full is cut off; a payload for one that is gone ends its
/// sender; nothing else ends anyone.
pub proof fn law_stalled_receiver_is_cut_off(outcome: Queued, payload: bool, r: Sent)
    requires
        after_send.ensures((outcome, payload), r),
    ensures
        r == Sent::EndReceiver <==> outcome == Queued::Full,
        r == Sent::EndSender <==> outcome == Queued::Gone && payload,
{
}

/// When a connection has left, its peer, if it has one, is told so.
pub proof fn law_peer_learns_of_the_leaving(peer: Option<u64>, r: Option<(u64, ServerMsg)>)
    requires
        farewell.ensures((peer,), r),
    ensures
        r is Some <==> peer is Some,
        r matches Some(m) ==> m.0 == peer->0 && m.1 is PeerLeft,
{
}

} // verus!
