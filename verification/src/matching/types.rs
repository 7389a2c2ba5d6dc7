//! Values that go in and out of the book.

use vstd::prelude::*;

use crate::domain::{AccountId, OrderId, OrderKey, Price, Qty, Side, Tif, TradeId};

verus! {

/// An order that rests on the book.
#[derive(Debug, Clone, Copy, PartialEq, Eq, Structural)]
pub struct RestingOrder {
    /// Client-assigned id.
    pub order_id: OrderId,
    /// Owner.
    pub account_id: AccountId,
    /// Side that the order rests on.
    pub side: Side,
    /// Limit price.
    pub price: Price,
    /// Open quantity.
    pub qty: Qty,
    /// Time in force that the order came with.
    pub tif: Tif,
}

impl RestingOrder {
    /// What the order is known by.
    #[verifier::allow_in_spec]
    pub fn key(&self) -> OrderKey
        returns
            (OrderKey { account_id: self.account_id, order_id: self.order_id }),
    {
        OrderKey { account_id: self.account_id, order_id: self.order_id }
    }
}

/// An order on its way to the opposite side.
#[derive(Debug, Clone, Copy, PartialEq, Eq, Structural)]
pub struct AggressiveOrder {
    /// Client-assigned id.
    pub order_id: OrderId,
    /// Owner.
    pub account_id: AccountId,
    /// Side of the taker.
    pub side: Side,
    /// Limit price; `None` for a market order.
    pub price: Option<Price>,
    /// Quantity to fill.
    pub qty: Qty,
    /// Time in force.
    pub tif: Tif,
}

impl AggressiveOrder {
    /// What the order is known by.
    #[verifier::allow_in_spec]
    pub fn key(&self) -> OrderKey
        returns
            (OrderKey { account_id: self.account_id, order_id: self.order_id }),
    {
        OrderKey { account_id: self.account_id, order_id: self.order_id }
    }
}

/// One fill of the taker against a resting maker, at the maker's price.
#[derive(Debug, Clone, Copy, PartialEq, Eq, Structural)]
pub struct Fill {
    /// Id of the trade.
    pub trade_id: TradeId,
    /// The maker's order id.
    pub maker_order_id: OrderId,
    /// The maker's owner.
    pub maker_account_id: AccountId,
    /// The maker's limit price.
    pub price: Price,
    /// Quantity that changes hands.
    pub qty: Qty,
    /// What is left of the maker; `None` once it is fully filled.
    pub maker_leaves: Option<Qty>,
}

/// Outcome of a matching walk.
#[derive(Debug, Clone, Copy, PartialEq, Eq, Structural)]
pub struct MatchResult {
    /// The taker is post-only and would have crossed; nothing happened.
    pub taker_post_only_rejected: bool,
    /// The taker's own resting order that halted the walk. Both it and
    /// the taker are cancelled.
    pub self_trade: Option<RestingOrder>,
    /// Unfilled quantity of the taker; `None` if fully filled.
    pub taker_remaining: Option<Qty>,
}

/// What became of an order that was asked to be replaced.
#[derive(Debug, Clone, Copy, PartialEq, Eq, Structural)]
pub struct ReplaceOutcome {
    /// Whether the order was reduced in place. If not, it has left the
    /// book and is to be entered anew.
    pub kept_priority: bool,
    /// The order as it rested before.
    pub previous: RestingOrder,
}

/// One price level: everything that rests at a price.
#[derive(Debug, Clone, Copy, PartialEq, Eq, Structural)]
pub struct Level {
    /// The price.
    pub price: Price,
    /// Sum of the quantities at that price, at most `u64::MAX`.
    pub qty: Qty,
}

/// Why the book refused an operation.
#[derive(Debug, Clone, Copy, PartialEq, Eq, Structural)]
pub enum BookError {
    /// The account rests no order with this id.
    UnknownOrderId,
    /// The account already rests an order with this id.
    DuplicateOrderId,
}

} // verus!
