//! A tool server that speaks length-framed JSON-RPC: framing, envelopes,
//! the tool catalog, program composition and the session's dispatch rules.

pub mod text;
pub mod slug;
pub mod names;
pub mod json;
pub mod protocol;
pub mod tools;
pub mod state;
pub mod server;
pub mod transport;
pub mod config;
pub mod client;
