//! A chat service over WebSockets: the binary protocol and the plain text one.
pub mod binary;
pub mod config;
pub mod plain;
pub mod registry;
