//! A small WebSocket engine and the duplicate-browsing session that runs on it.

pub mod command;
pub mod connection;
pub mod duplicates;
pub mod frame;
pub mod handshake;
pub mod session;
