//! Structured error type shared across the protocol.

use vstd::prelude::*;

use crate::number;
use crate::text;

verus! {

/// Errors produced while encoding, decoding, sealing or parsing protocol data.
#[derive(Debug, Clone, PartialEq, Eq)]
#[non_exhaustive]
pub enum ProtoError {
    /// CBOR serialization of a value failed.
    Encode(String),
    /// CBOR deserialization of received bytes failed.
    Decode(String),
    /// A Noise handshake or transport operation failed.
    Crypto(String),
    /// A pairing code did not match the expected `XXXX-XXXX` shape.
    InvalidPairingCode,
    /// A session id was not a 32-character lowercase hex string.
    InvalidSessionId,
    /// The OS random number generator failed while sampling a credential.
    Rng(String),
    /// A single frame exceeded the frame limit.
    FrameTooLarge {
        /// Actual size of the offending frame.
        size: usize,
        /// Configured upper bound.
        max: usize,
    },
    /// A reassembled message exceeded the frame limit before its final chunk
    /// arrived.
    ReassemblyOverflow {
        /// Configured upper bound.
        max: usize,
    },
}

impl ProtoError {
    /// The message shown for the error.
    pub open spec fn message(self) -> Seq<char> {
        match self {
            ProtoError::Encode(e) => "cbor encode failed: "@ + e@,
            ProtoError::Decode(e) => "cbor decode failed: "@ + e@,
            ProtoError::Crypto(e) => "crypto failure: "@ + e@,
            ProtoError::InvalidPairingCode => "invalid pairing code"@,
            ProtoError::InvalidSessionId => "invalid session id"@,
            ProtoError::Rng(e) => "rng failure: "@ + e@,
            ProtoError::FrameTooLarge { size, max } => "frame too large: "@ + number::decimal(
                size as nat,
            ) + " bytes (max "@ + number::decimal(max as nat) + ")"@,
            ProtoError::ReassemblyOverflow { max } => "reassembly buffer overflow (max "@
                + number::decimal(max as nat) + " bytes)"@,
        }
    }

    /// Renders the error's message.
    pub fn to_string(&self) -> (out: String)
        ensures
            out@ == self.message(),
    {
        match self {
            ProtoError::Encode(e) => text::join2("cbor encode failed: ", e.as_str()),
            ProtoError::Decode(e) => text::join2("cbor decode failed: ", e.as_str()),
            ProtoError::Crypto(e) => text::join2("crypto failure: ", e.as_str()),
            ProtoError::InvalidPairingCode => "invalid pairing code".to_owned(),
            ProtoError::InvalidSessionId => "invalid session id".to_owned(),
            ProtoError::Rng(e) => text::join2("rng failure: ", e.as_str()),
            ProtoError::FrameTooLarge { size, max } => {
                let mut out = text::join3(
                    "frame too large: ",
                    number::decimal_text(*size as u64).as_str(),
                    " bytes (max ",
                );
                out.append(number::decimal_text(*max as u64).as_str());
                out.append(")");
                out
            },
            ProtoError::ReassemblyOverflow { max } => text::join3(
                "reassembly buffer overflow (max ",
                number::decimal_text(*max as u64).as_str(),
                " bytes)",
            ),
        }
    }
}

/// Errors of different kinds are told in different words, and each quotes what it is
/// about.
pub proof fn law_error_tells_its_cause(e: ProtoError, out: String)
    requires
        call_ensures(ProtoError::to_string, (&e,), out),
    ensures
        e matches ProtoError::Encode(m) ==> out@ == "cbor encode failed: "@ + m@,
        e matches ProtoError::Decode(m) ==> out@ == "cbor decode failed: "@ + m@,
        e matches ProtoError::Crypto(m) ==> out@ == "crypto failure: "@ + m@,
        e matches ProtoError::Rng(m) ==> out@ == "rng failure: "@ + m@,
        e is InvalidPairingCode ==> out@ == "invalid pairing code"@,
        e is InvalidSessionId ==> out@ == "invalid session id"@,
        e matches ProtoError::FrameTooLarge { size, max } ==> out@ == "frame too large: "@
            + number::decimal(size as nat) + " bytes (max "@ + number::decimal(max as nat) + ")"@,
        e matches ProtoError::ReassemblyOverflow { max } ==> out@
            == "reassembly buffer overflow (max "@ + number::decimal(max as nat) + " bytes)"@,
{
}

} // verus!
