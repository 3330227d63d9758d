//! The Android runner: it maps requests to the device's own tools, and reads their
//! output.

pub mod cap;
pub mod nodes;
pub mod backend;
pub mod service;
