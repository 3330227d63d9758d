//! The verified core of a remote-control toolkit: a controller drives a runner
//! on another machine through a rendezvous relay or a direct link.
//!
//! Every item below is checked by Verus. Reading files, sockets, processes and
//! screens happens in the programs around this library, which hand it plain
//! values and carry out what it decides.

pub mod adb;
pub mod android;
pub mod bytes;
pub mod capture;
pub mod cli;
pub mod net;
pub mod number;
pub mod path;
pub mod proto;
pub mod radix64;
pub mod relay;
pub mod runner;
pub mod runner_core;
pub mod sync;
pub mod text;
