//! The controller's command line and tool server: what they ask of a runner and
//! what they make of its answers.

pub mod agents_md;
pub mod args;
pub mod capture;
pub mod exec;
pub mod files;
pub mod config;
pub mod forward;
pub mod mcp;
pub mod transfer;
pub mod ui;
