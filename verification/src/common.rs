//! Definitions shared by the REST and WebSocket sides of the adapter.

pub mod credential;
pub mod enums;
pub mod parse;
