//! Client-side core for a real-time messaging server's administrative HTTP
//! API: typed commands, batching into one request body, and positional
//! decoding of the newline-delimited reply stream.
pub mod client;
pub mod decode;
pub mod errors;
pub mod json;
pub mod options;
pub mod parse;
pub mod pipe;
pub mod protocol;
mod text;

pub use json::Json;
pub use json::JsonV;
