//! A small HTTP/1.1 server engine: request parsing, route resolution,
//! response serialization and the per-connection state machine.

pub mod app;
pub mod connection;
pub mod request;
pub mod response;
pub mod text;
