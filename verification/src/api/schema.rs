//! Requests, responses and the values they carry.

pub mod agents;
pub mod common;
pub mod peers;
pub mod recovery;
pub mod redaction;
pub mod server;
