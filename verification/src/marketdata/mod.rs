//! The outbound stream: where it goes, and its bytes.

pub mod encoder;
pub mod sink;

pub use encoder::{decode, encode, FRAME_HEADER_BYTES};
pub use sink::{OutboundSink, VecSink};
