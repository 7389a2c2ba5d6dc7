//! What the exchange does, said of its inputs and results alone.
//!
//! The laws here speak of orders, prices, quantities, events and bytes as
//! they stand, not of the functions that the contracts are written in.

pub mod agree;
pub mod amendments;
pub mod book;
pub mod bytes;
pub mod cancels;
pub mod codes;
pub mod framing;
pub mod judging;
pub mod loads;
pub mod market_data;
pub mod new_orders;
pub mod plain;
pub mod replays;
pub mod reports;
pub mod streams;
pub mod trading;
pub mod values;
pub mod wire_commands;
pub mod wire_messages;
