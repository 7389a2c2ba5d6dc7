//! Policy constants: domain validation, risk and matching refer to these
//! names and to no bare number.

use vstd::prelude::*;

verus! {

/// Smallest legal price increment, in raw ticks.
pub const TICK_SIZE: i64 = 1;

/// Smallest legal quantity increment, in raw lots.
pub const LOT_SIZE: u64 = 1;

/// Price-band tolerance against the last trade, in basis points
/// (`1 bp = 0.01 %`).
pub const PRICE_BAND_BPS: u32 = 500;

/// Hard ceiling on the count of resting orders per account.
pub const MAX_OPEN_ORDERS_PER_ACCT: u32 = 1_000;

/// Hard ceiling on the aggregate resting notional per account, in
/// `price_ticks * qty_lots`.
pub const MAX_NOTIONAL_PER_ACCT: u128 = 10_000_000_000;

/// The one symbol that the venue trades.
pub const SYMBOL: &'static str = "BTC-USDC";

} // verus!
