//! The daemon that hosts mounts, and its conversation with clients.
pub mod client;
pub mod mount_table;
pub mod paths;
pub mod protocol;
pub mod server;
