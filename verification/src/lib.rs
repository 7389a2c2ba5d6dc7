//! Single-symbol central limit order book.
//!
//! - [`domain`]: newtypes, wire-stable enums, constants, clock and id traits.
//! - [`matching`]: the price-time priority book.
//! - [`risk`]: pre-trade checks.
//! - [`wire`]: binary framing and message codecs.
//! - [`marketdata`]: outbound encoding and sinks.
//! - [`engine`]: risk, matching and publication in one pipeline; replay.
//! - [`gateway`]: recordings and session decisions.
//! - [`client`]: the client's side of the wire.
//! - [`workload`], [`fixture`]: synthetic input.
//! - [`laws`]: what all of it comes to, said in plain values.
//!
//! Everything is integer-only and deterministic; each module states what it
//! does over mathematical models and proves it.

pub mod client;
pub mod domain;
pub mod engine;
pub mod fixture;
pub mod gateway;
pub mod laws;
pub mod marketdata;
pub mod matching;
pub mod risk;
pub mod wire;
pub mod workload;
