//! The runner: credentials and installation, running commands, injecting input,
//! and the capabilities it offers.

pub mod apps;
pub mod backend;
pub mod capture;
pub mod clipboard;
pub mod exec;
pub mod files;
pub mod input;
pub mod install;
pub mod uia;
pub mod upgrade;
