//! The relay layer: the only messages the public relay can read.
//!
//! A peer joins a session in a role with [`ClientMsg::Hello`]. Thereafter every
//! [`ClientMsg::Relay`] payload is forwarded verbatim to the other peer as
//! [`ServerMsg::Relay`]. The payload is ciphertext that the relay has no key for.

use vstd::prelude::*;

use crate::proto::id::{Role, SessionId};

verus! {

/// A message sent from a peer to the relay.
#[derive(Debug, Clone, PartialEq, Eq)]
pub enum ClientMsg {
    /// Join (creating it if absent) a session in the given role.
    Hello {
        /// Target session.
        session: SessionId,
        /// Role this peer is claiming.
        role: Role,
        /// Protocol version of the peer.
        protocol_version: u16,
    },
    /// An opaque, end-to-end-encrypted payload to forward to the peer.
    Relay {
        /// One Noise transport record.
        data: Vec<u8>,
    },
    /// Application-level keepalive.
    Ping,
}

/// A message sent from the relay to a peer.
#[derive(Debug, Clone, PartialEq, Eq)]
pub enum ServerMsg {
    /// The hello was accepted.
    Welcome {
        /// Whether the opposite role is already connected. If not, the peer
        /// should wait for [`ServerMsg::PeerJoined`] before the handshake.
        peer_present: bool,
    },
    /// An opaque payload forwarded from the peer.
    Relay {
        /// One Noise transport record originated by the peer.
        data: Vec<u8>,
    },
    /// The opposite role just connected.
    PeerJoined,
    /// The opposite role disconnected; any handshake in flight is now invalid.
    PeerLeft,
    /// Reply to [`ClientMsg::Ping`].
    Pong,
    /// The relay is refusing or terminating the connection.
    Error {
        /// Machine-readable cause.
        kind: RelayErrorKind,
        /// Human-readable detail for logs.
        message: String,
    },
}

/// Machine-readable reasons the relay may reject a connection.
#[derive(Debug, Clone, Copy, PartialEq, Eq, Structural)]
#[non_exhaustive]
pub enum RelayErrorKind {
    /// Both roles for the session are already occupied.
    RoleTaken,
    /// This connection was superseded by a newer one joining the same role.
    Replaced,
    /// The peer's protocol version is incompatible.
    VersionMismatch,
    /// A frame violated relay limits (size, rate, or ordering).
    ProtocolViolation,
    /// The relay hit an internal fault; the peer may retry later.
    Internal,
}

} // verus!
