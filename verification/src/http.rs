//! REST API: response models, parsing, and request construction.

pub mod client;
pub mod models;
pub mod parse;
