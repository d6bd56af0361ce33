//! Verified core of a Coinbase market-data adapter: parsing of REST and WebSocket
//! payloads into domain records, request and token construction, the WebSocket feed
//! state machine, a binary codec for order book records, and string utilities.

pub mod common;
pub mod decimal;
pub mod http;
pub mod model;
pub mod string;
pub mod websocket;
pub mod sbe;
