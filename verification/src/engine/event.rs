//! What the engine has to say, before it is numbered and stamped.

use vstd::prelude::*;

use crate::domain::{
    AccountId, CancelReason, ExecState, OrderId, Price, Qty, RejectReason, Side, TradeId,
};
use crate::matching::types::{AggressiveOrder, Fill};

verus! {

/// Body of an outbound message: everything but its sequence number and its
/// timestamps.
#[derive(Debug, Clone, Copy, PartialEq, Eq)]
pub enum Event {
    /// Order lifecycle transition.
    Exec {
        /// The order.
        order_id: OrderId,
        /// Its owner.
        account_id: AccountId,
        /// State that the order is in.
        state: ExecState,
        /// Price of the fill, on a fill.
        fill_price: Option<Price>,
        /// Quantity of the fill, on a fill.
        fill_qty: Option<Qty>,
        /// What is left open.
        leaves_qty: Option<Qty>,
        /// Why it was refused.
        reject_reason: Option<RejectReason>,
        /// Why it was cancelled.
        cancel_reason: Option<CancelReason>,
    },
    /// Public trade.
    Trade {
        /// Id of the trade.
        trade_id: TradeId,
        /// Price.
        price: Price,
        /// Quantity.
        qty: Qty,
        /// Side of the taker.
        aggressor_side: Side,
    },
    /// Change of one price level.
    Delta {
        /// Side of the level.
        side: Side,
        /// Price of the level.
        price: Price,
        /// Quantity now at the level; `None` once it is gone.
        new_qty: Option<Qty>,
    },
    /// Top of book.
    Top {
        /// Best bid, with the quantity that rests at it.
        bid: Option<(Price, Qty)>,
        /// Best ask, with the quantity that rests at it.
        ask: Option<(Price, Qty)>,
    },
}

impl Event {
    /// The command was refused.
    #[verifier::allow_in_spec]
    pub fn rejected(order_id: OrderId, account_id: AccountId, reason: RejectReason) -> Event
        returns
            (Event::Exec {
                order_id,
                account_id,
                state: ExecState::Rejected,
                fill_price: None,
                fill_qty: None,
                leaves_qty: None,
                reject_reason: Some(reason),
                cancel_reason: None,
            }),
    {
        Event::Exec {
            order_id,
            account_id,
            state: ExecState::Rejected,
            fill_price: None,
            fill_qty: None,
            leaves_qty: None,
            reject_reason: Some(reason),
            cancel_reason: None,
        }
    }

    /// The order rests with this quantity.
    #[verifier::allow_in_spec]
    pub fn accepted(order_id: OrderId, account_id: AccountId, leaves: Qty) -> Event
        returns
            (Event::Exec {
                order_id,
                account_id,
                state: ExecState::Accepted,
                fill_price: None,
                fill_qty: None,
                leaves_qty: Some(leaves),
                reject_reason: None,
                cancel_reason: None,
            }),
    {
        Event::Exec {
            order_id,
            account_id,
            state: ExecState::Accepted,
            fill_price: None,
            fill_qty: None,
            leaves_qty: Some(leaves),
            reject_reason: None,
            cancel_reason: None,
        }
    }

    /// The order is cancelled.
    #[verifier::allow_in_spec]
    pub fn cancelled(order_id: OrderId, account_id: AccountId, reason: CancelReason) -> Event
        returns
            (Event::Exec {
                order_id,
                account_id,
                state: ExecState::Cancelled,
                fill_price: None,
                fill_qty: None,
                leaves_qty: None,
                reject_reason: None,
                cancel_reason: Some(reason),
            }),
    {
        Event::Exec {
            order_id,
            account_id,
            state: ExecState::Cancelled,
            fill_price: None,
            fill_qty: None,
            leaves_qty: None,
            reject_reason: None,
            cancel_reason: Some(reason),
        }
    }

    /// The order is amended to this quantity.
    #[verifier::allow_in_spec]
    pub fn replaced(order_id: OrderId, account_id: AccountId, leaves: Qty) -> Event
        returns
            (Event::Exec {
                order_id,
                account_id,
                state: ExecState::Replaced,
                fill_price: None,
                fill_qty: None,
                leaves_qty: Some(leaves),
                reject_reason: None,
                cancel_reason: Some(CancelReason::Replaced),
            }),
    {
        Event::Exec {
            order_id,
            account_id,
            state: ExecState::Replaced,
            fill_price: None,
            fill_qty: None,
            leaves_qty: Some(leaves),
            reject_reason: None,
            cancel_reason: Some(CancelReason::Replaced),
        }
    }

    /// The order was filled, fully unless something is left of it.
    #[verifier::allow_in_spec]
    pub fn filled(
        order_id: OrderId,
        account_id: AccountId,
        price: Price,
        qty: Qty,
        leaves: Option<Qty>,
    ) -> Event
        returns
            (Event::Exec {
                order_id,
                account_id,
                state: if leaves is None {
                    ExecState::Filled
                } else {
                    ExecState::PartiallyFilled
                },
                fill_price: Some(price),
                fill_qty: Some(qty),
                leaves_qty: leaves,
                reject_reason: None,
                cancel_reason: None,
            }),
    {
        let state = if leaves.is_none() {
            ExecState::Filled
        } else {
            ExecState::PartiallyFilled
        };
        Event::Exec {
            order_id,
            account_id,
            state,
            fill_price: Some(price),
            fill_qty: Some(qty),
            leaves_qty: leaves,
            reject_reason: None,
            cancel_reason: None,
        }
    }

    /// The trade of a fill.
    #[verifier::allow_in_spec]
    pub fn trade(fill: Fill, aggressor_side: Side) -> Event
        returns
            (Event::Trade {
                trade_id: fill.trade_id,
                price: fill.price,
                qty: fill.qty,
                aggressor_side,
            }),
    {
        Event::Trade { trade_id: fill.trade_id, price: fill.price, qty: fill.qty, aggressor_side }
    }

    /// The maker's report of a fill.
    #[verifier::allow_in_spec]
    pub fn maker_filled(fill: Fill) -> Event
        returns
            Event::filled(
                fill.maker_order_id,
                fill.maker_account_id,
                fill.price,
                fill.qty,
                fill.maker_leaves,
            ),
    {
        Event::filled(
            fill.maker_order_id,
            fill.maker_account_id,
            fill.price,
            fill.qty,
            fill.maker_leaves,
        )
    }

    /// The taker's report of a fill, after which `leaves` is left of it.
    #[verifier::allow_in_spec]
    pub fn taker_filled(taker: AggressiveOrder, fill: Fill, leaves: Option<Qty>) -> Event
        returns
            Event::filled(taker.order_id, taker.account_id, fill.price, fill.qty, leaves),
    {
        Event::filled(taker.order_id, taker.account_id, fill.price, fill.qty, leaves)
    }
}

} // verus!
