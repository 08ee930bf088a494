//! Middleware for RPC wires: frame headers, buffered wire wrappers that read
//! and rewrite the addresses of the frames that pass, and the decisions of a
//! local in-process wire used to test clients and servers.

pub mod le;
pub mod header;
pub mod host_client;
pub mod server;
pub mod test_utils;
