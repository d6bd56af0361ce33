//! WebSocket API: message models, parsing, and the feed state machine.

pub mod handler;
pub mod messages;
pub mod parse;
