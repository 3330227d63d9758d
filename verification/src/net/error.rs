//! Link-level errors.

use vstd::prelude::*;

use crate::proto::error::ProtoError;
use crate::text;

verus! {

/// Errors from establishing or running a link. All of them end it: the caller
/// should reconnect. A runner that refuses a command answers with a normal frame
/// instead.
#[derive(Debug, Clone, PartialEq, Eq)]
pub enum NetError {
    /// Protocol encode, decode or crypto failure.
    Proto(ProtoError),
    /// Failure of the WebSocket underneath.
    Ws(String),
    /// The relay refused or terminated the connection.
    Relay(String),
    /// The relay closed the connection.
    Closed,
    /// The peer left before or during the handshake.
    PeerGone,
    /// Missing or malformed startup configuration.
    Config(String),
}

impl NetError {
    /// The message shown for the error.
    pub open spec fn message(self) -> Seq<char> {
        match self {
            NetError::Proto(e) => "protocol error: "@ + e.message(),
            NetError::Ws(e) => "websocket error: "@ + e@,
            NetError::Relay(e) => "relay error: "@ + e@,
            NetError::Closed => "relay closed the connection"@,
            NetError::PeerGone => "peer disconnected"@,
            NetError::Config(e) => "configuration error: "@ + e@,
        }
    }

    /// Renders the error's message.
    pub fn to_string(&self) -> (out: String)
        ensures
            out@ == self.message(),
    {
        match self {
            NetError::Proto(e) => text::join2("protocol error: ", e.to_string().as_str()),
            NetError::Ws(e) => text::join2("websocket error: ", e.as_str()),
            NetError::Relay(e) => text::join2("relay error: ", e.as_str()),
            NetError::Closed => "relay closed the connection".to_owned(),
            NetError::PeerGone => "peer disconnected".to_owned(),
            NetError::Config(e) => text::join2("configuration error: ", e.as_str()),
        }
    }
}

/// Each error of a link is told with what it is about.
pub proof fn law_link_error_tells_its_cause(e: NetError, out: String, inner: String)
    requires
        call_ensures(NetError::to_string, (&e,), out),
        e matches NetError::Proto(p) ==> call_ensures(ProtoError::to_string, (&p,), inner),
    ensures
        e is Proto ==> out@ == "protocol error: "@ + inner@,
        e matches NetError::Ws(m) ==> out@ == "websocket error: "@ + m@,
        e matches NetError::Relay(m) ==> out@ == "relay error: "@ + m@,
        e matches NetError::Config(m) ==> out@ == "configuration error: "@ + m@,
        e is Closed ==> out@ == "relay closed the connection"@,
        e is PeerGone ==> out@ == "peer disconnected"@,
{
}

} // verus!
