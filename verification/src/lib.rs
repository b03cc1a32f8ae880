//! An auction ledger protocol library: a framed wire codec, hash-linked
//! append-only ledgers, and the pure cores of the persistence, queueing and
//! dispatch paths that apply client requests to those ledgers.

pub mod block;
pub mod cli;
pub mod client;
pub mod debug;
pub mod encoding;
pub mod communication;
pub mod fchain;
pub mod instance;
pub mod manager;
pub mod payload;
pub mod queue;
pub mod server;
pub mod text;
pub mod utils;
