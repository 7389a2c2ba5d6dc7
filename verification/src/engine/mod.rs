//! The matching pipeline: risk, then matching, then the outbound stream.
//!
//! [`model`] states what every command does to the market and which events
//! it gives rise to; [`Pipeline`](pipeline::Pipeline) does it, and
//! [`Engine`] numbers, stamps and publishes the events.

pub mod bounds;
pub mod clock;
pub mod engine;
pub mod event;
pub mod ids;
pub mod l2;
pub mod laws;
pub mod lemmas;
pub mod mirror;
pub mod model;
pub mod order_laws;
pub mod pipeline;
pub mod replay;
pub mod runs;

pub use self::engine::Engine;
pub use clock::{StubClock, WallClock};
pub use ids::CounterIdGenerator;
pub use replay::replay_bytes;

pub use crate::marketdata::{OutboundSink, VecSink};
