//! Client side of the Cursor completion service: message framing, request
//! headers, streamed answers, and the edit predictions made from them.

pub mod client;
pub mod diff;
pub mod envelope;
pub mod error;
pub mod gzip;
pub mod http;
pub mod keys;
pub mod messages;
pub mod provider;
pub mod stream;
pub mod text;
