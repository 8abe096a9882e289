//! A small networked file system: the wire framing of its transport, the
//! on-disk encodings and decisions of its storage, and the request/reply
//! logic of its server and FUSE client.

pub mod bytes;
pub mod client;
pub mod common;
pub mod server;
pub mod storage;
pub mod store;
pub mod transport;
