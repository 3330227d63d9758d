//! The relay: it pairs the two peers of a session and forwards payloads that it
//! cannot read.

pub mod connection;
pub mod hub;
