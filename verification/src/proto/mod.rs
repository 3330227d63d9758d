//! Wire-level types of the protocol: identifiers, errors, messages, framing
//! and the end-to-end encrypted channel.

use vstd::prelude::*;

pub mod codec;
pub mod crypto;
pub mod error;
pub mod id;
pub mod relay;
pub mod wire;

verus! {

/// Protocol version of the opening hello. Peers with another one are rejected.
pub const PROTOCOL_VERSION: u16 = 1;

} // verus!
