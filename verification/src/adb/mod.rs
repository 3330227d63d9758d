//! The client side of the Android debug bridge: pairing with a device, connecting
//! to it, running a shell command and pushing a file.

use vstd::prelude::*;

use crate::text;

pub mod cipher;
pub mod connect;
pub mod key;
pub mod pairing;

verus! {

/// Errors of the client.
#[derive(Debug, Clone, PartialEq, Eq)]
pub enum AdbError {
    /// Input or output failed.
    Io(String),
    /// The secure channel failed.
    Tls(String),
    /// The device refused the pairing.
    PairingRejected,
    /// The device did not keep to the protocol.
    Protocol(String),
}

impl AdbError {
    /// The message shown for the error.
    pub open spec fn message(self) -> Seq<char> {
        match self {
            AdbError::Io(m) => "io: "@ + m@,
            AdbError::Tls(m) => "tls: "@ + m@,
            AdbError::PairingRejected =>
                "pairing rejected by adbd (wrong code, or framing mismatch)"@,
            AdbError::Protocol(m) => "protocol: "@ + m@,
        }
    }

    /// Renders the error's message.
    pub fn to_string(&self) -> (out: String)
        ensures
            out@ == self.message(),
    {
        match self {
            AdbError::Io(m) => text::join2("io: ", m.as_str()),
            AdbError::Tls(m) => text::join2("tls: ", m.as_str()),
            AdbError::PairingRejected => {
                "pairing rejected by adbd (wrong code, or framing mismatch)".to_string()
            },
            AdbError::Protocol(m) => text::join2("protocol: ", m.as_str()),
        }
    }
}

/// Whether `e` says that the protocol was broken, in these words.
pub open spec fn is_protocol(e: AdbError, message: Seq<char>) -> bool {
    e matches AdbError::Protocol(m) && m@ == message
}

/// Reports that the protocol was broken.
pub fn protocol(message: String) -> (e: AdbError)
    ensures
        is_protocol(e, message@),
{
    AdbError::Protocol(message)
}

/// Each error of the client is told with what it is about.
pub proof fn law_client_error_tells_its_cause(e: AdbError, out: String)
    requires
        call_ensures(AdbError::to_string, (&e,), out),
    ensures
        e matches AdbError::Io(m) ==> out@ == "io: "@ + m@,
        e matches AdbError::Tls(m) ==> out@ == "tls: "@ + m@,
        e matches AdbError::Protocol(m) ==> out@ == "protocol: "@ + m@,
        e is PairingRejected ==> out@
            == "pairing rejected by adbd (wrong code, or framing mismatch)"@,
{
}

} // verus!
