//! Core logic of a peer-to-peer file-sharing node: wire framing, command
//! parsing and the bookkeeping of the network actor.

pub mod cli;
pub mod command;
pub mod config;
pub mod event;
pub mod event_loop;
pub mod frame;
pub mod kv;
pub mod laws;
pub mod peer;
pub mod protocol;
pub mod varint;
