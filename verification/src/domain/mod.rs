//! Core domain types: newtypes over integers, wire-stable enums, policy
//! constants and the traits that the engine is parameterised by.
//!
//! Prices and quantities are scaled integers; nothing here does I/O or
//! reads a clock.

use vstd::prelude::*;

mod account_id;
mod cancel_reason;
mod client_ts;
pub mod consts;
mod engine_seq;
pub mod error;
mod exec_state;
mod order_id;
mod order_key;
mod order_type;
mod price;
mod qty;
mod recv_ts;
mod reject_reason;
mod side;
pub mod text;
mod tif;
mod trade_id;
pub mod traits;

pub use account_id::{AccountId, AccountIdError};
pub use cancel_reason::{CancelReason, CancelReasonError};
pub use client_ts::ClientTs;
pub use engine_seq::{EngineSeq, EngineSeqError};
pub use error::DomainError;
pub use exec_state::{ExecState, ExecStateError};
pub use order_id::{OrderId, OrderIdError};
pub use order_key::OrderKey;
pub use order_type::{OrderType, OrderTypeError};
pub use price::{Price, PriceError};
pub use qty::{Qty, QtyError};
pub use recv_ts::RecvTs;
pub use reject_reason::{RejectReason, RejectReasonError};
pub use side::{Side, SideError};
pub use tif::{Tif, TifError};
pub use trade_id::{TradeId, TradeIdError};
pub use traits::{Clock, IdGenerator};

verus! {

/// Every newtype is its raw value: made of it, it carries it, and what it
/// carries determines it.
pub broadcast group group_newtypes {
    AccountId::of_carries,
    AccountId::carried_determines,
    ClientTs::of_carries,
    ClientTs::carried_determines,
    EngineSeq::of_carries,
    EngineSeq::carried_determines,
    OrderId::of_carries,
    OrderId::carried_determines,
    Price::of_carries,
    Price::carried_determines,
    Qty::of_carries,
    Qty::carried_determines,
    RecvTs::of_carries,
    RecvTs::carried_determines,
    TradeId::of_carries,
    TradeId::carried_determines,
}

} // verus!
