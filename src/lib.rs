//! Client side of a line-oriented news protocol: an incremental byte cursor,
//! response framing driven by per-message classification tables, the message
//! catalog, and the half-duplex exchange that pairs one request with one
//! response.
pub mod buffer;
pub mod decoder;
pub mod error;
pub mod exchange;
pub mod framing;
pub mod messages;
pub mod server;

pub use error::Error;
