//! A personal SSH connection manager: a registry of host aliases, the
//! parsing of compact remote addresses, and the argument vectors handed to
//! the secure-shell and secure-copy clients.
pub mod address;
pub mod cli;
pub mod config;
pub mod dispatch;
pub mod server;
pub mod session;
pub mod text;
