//! What both endpoints of a session share: configuration, the handshake that
//! builds an encrypted link, the frames on it, and the matching of replies to
//! requests.

pub mod config;
pub mod controller;
pub mod error;
pub mod session;
