//! A read-only view of a RocksDB database served over MCP: the verified core.
//!
//! The modules hold the logic of the server: how keys and values are turned
//! from text into bytes and back, how the configuration is checked, how a
//! bearer token is matched, and how the two tools build their answers.
//! Opening the database, reading from it and serving HTTP happen outside.
pub mod auth;
pub mod base64_text;
pub mod config;
pub mod db;
pub mod encoding;
pub mod hex_text;
pub mod refresh;
pub mod server;
pub mod text;

