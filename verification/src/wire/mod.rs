//! Binary wire protocol: length-prefixed frames, fixed-size little-endian
//! payloads.

pub mod codec;
pub mod error;
pub mod fields;
pub mod framing;
pub mod inbound;
pub mod outbound;

pub use error::WireError;
