//! What becomes of a new order.

use vstd::prelude::*;

use crate::domain::{group_newtypes, CancelReason, OrderType, Price, Qty, RejectReason, Tif};
use crate::engine::event::Event;
use crate::engine::laws::unchanged_book_no_deltas;
use crate::engine::lemmas::sweep_keeps;
use crate::engine::model::{
    command, execute, new_order, outcome, place, refuse, residue, taker_of, Market,
};
use crate::engine::pipeline::requeue_fits;
use crate::laws::agree::{
    band_agrees, enqueued_joins, exposure_agrees, handler_comes_first, lookup_agrees,
};
use crate::laws::plain::{
    accept_report, cancel_report, facing, joins, may_trade, meets_itself, open_notional,
    open_orders, orders, out_of_band, qty_of_first, queue_left, reject_report, reports_then_book,
    rests, tells_trades, trades_with_first,
};
use crate::laws::trading::{execute_is, tells_amid};
use crate::matching::model::order_wf;
use crate::matching::types::RestingOrder;
use crate::wire::inbound::{Inbound, NewOrder};

verus! {

broadcast use group_newtypes;

/// The price that a new order is judged by: its limit, or the first price
/// on the other side.
pub open spec fn judged_by(m: Market, msg: NewOrder) -> Price {
    match msg.price {
        Some(p) => p,
        None => facing(m.book, msg.side)[0].price,
    }
}

/// Why a new order is refused, if it is: the first of these that holds.
pub open spec fn refusal_of(m: Market, msg: NewOrder) -> Option<RejectReason> {
    let s = facing(m.book, msg.side);
    let p = judged_by(m, msg);
    if m.killed {
        Some(RejectReason::KillSwitched)
    } else if (msg.order_type == OrderType::Market || msg.price is None) && s.len() == 0 {
        Some(RejectReason::MarketOrderInEmptyBook)
    } else if out_of_band(m.last_trade, p) {
        Some(RejectReason::PriceBand)
    } else if open_orders(m.book, msg.account_id) >= 1_000 {
        Some(RejectReason::MaxOpenOrders)
    } else if open_notional(m.book, msg.account_id) + p@ * msg.qty@ > 10_000_000_000 {
        Some(RejectReason::MaxNotional)
    } else if rests(m.book, msg.account_id, msg.order_id) {
        Some(RejectReason::DuplicateOrderId)
    } else if msg.tif == Tif::PostOnly && s.len() > 0 && may_trade(
        msg.side,
        msg.price,
        s[0].price,
    ) {
        Some(RejectReason::PostOnlyWouldCross)
    } else {
        None
    }
}

/// What of a new order's fields holds of every one that can be made.
pub open spec fn new_order_fields(msg: NewOrder) -> bool {
    &&& msg.qty@ > 0
    &&& msg.price matches Some(p) ==> p@ > 0
}

/// Which verdict a new order meets.
proof fn verdict_agrees(m: Market, msg: NewOrder, trade: u64)
    requires
        m.book.wf(),
        new_order_fields(msg),
    ensures
        refusal_of(m, msg) is None ==> new_order(m, msg, trade)
            == place(
            execute(m, taker_of(msg), trade),
            taker_of(msg),
            residue(m, taker_of(msg), trade),
        ),
        refusal_of(m, msg) matches Some(reason) ==> new_order(m, msg, trade)
            == refuse(
            m,
            reject_report(msg.order_id, msg.account_id, reason),
        ),
{
    let s = facing(m.book, msg.side);
    let p = judged_by(m, msg);
    exposure_agrees(m.book, msg.account_id);
    band_agrees(m.last_trade, p);
    lookup_agrees(m.book, msg.key());
    assert(s == m.book.queue(msg.side.other()));
    if msg.price is Some || s.len() > 0 {
        if msg.price is None {
            assert(order_wf(msg.side.other(), s[0]));
        }
        assert(p@ * msg.qty@ >= 0) by (nonlinear_arith)
            requires
                p@ > 0,
                msg.qty@ > 0,
        ;
    }
}

/// A new order is refused for the first reason that holds of it: the kill
/// switch is on; it has no limit and nothing rests on the other side; the
/// price is more than five percent away from the last trade; the account
/// rests a thousand orders, or with this one a notional above the cap; the
/// account rests an order with this id; it is post-only and would trade.
/// Then nothing changes, and the events are the refusal and the top of the
/// book.
pub proof fn refused_new_order(m: Market, msg: NewOrder, trade: u64)
    requires
        m.book.wf(),
        new_order_fields(msg),
        refusal_of(m, msg) is Some,
    ensures
        ({
            let o = outcome(m, Inbound::NewOrder(msg), trade);
            &&& o.market == m
            &&& o.trades == 0
            &&& o.events.len() == 2
            &&& o.events[0] == reject_report(
                msg.order_id,
                msg.account_id,
                refusal_of(m, msg)->0,
            )
            &&& o.events[1] is Top
        }),
{
    verdict_agrees(m, msg, trade);
    unchanged_book_no_deltas(m.book);
}

/// A new order that is not refused trades with the first orders of the
/// other side, as far as its limit and its quantity reach and up to an order
/// of its own account.
///
/// Each trade is told by a public trade with the order's side and the
/// resting order's price, a report to the resting order and one to the new
/// order. Where it meets an order of its own account, both are cancelled
/// and it ends there. What it leaves open otherwise is cancelled if the order
/// is immediate-or-cancel or has no limit, with a report; or else rests at
/// the order's own limit behind every order at least as good, with a report.
/// Nothing else changes on either side.
#[verifier::spinoff_prover]
#[verifier::rlimit(30)]
pub proof fn new_order_trades_then_rests(m: Market, msg: NewOrder, trade: u64, n: int)
    requires
        m.book.wf(),
        new_order_fields(msg),
        refusal_of(m, msg) is None,
        trades_with_first(
            facing(m.book, msg.side),
            n,
            msg.account_id,
            msg.side,
            msg.price,
            msg.qty@ as int,
        ),
        trade + n <= u64::MAX,
    ensures
        ({
            let s = facing(m.book, msg.side);
            let own = meets_itself(
                s,
                n,
                msg.account_id,
                msg.side,
                msg.price,
                msg.qty@ as int,
            );
            let left = msg.qty@ - qty_of_first(s, n);
            let o = outcome(m, Inbound::NewOrder(msg), trade);
            &&& o.trades == n
            &&& o.market.killed == m.killed
            &&& o.market.last_trade == (if n > 0 {
                Some(s[n - 1].price)
            } else {
                m.last_trade
            })
            &&& tells_trades(
                o.events,
                0,
                s,
                n,
                msg.order_id,
                msg.account_id,
                msg.side,
                msg.qty@ as int,
                trade,
            )
            &&& facing(o.market.book, msg.side) == (if own {
                s.skip(n + 1)
            } else {
                queue_left(s, n, msg.qty@ as int)
            })
            &&& if own {
                &&& o.events[3 * n] == cancel_report(
                    s[n].order_id,
                    s[n].account_id,
                    CancelReason::SelfTradePrevented,
                )
                &&& o.events[3 * n + 1] == cancel_report(
                    msg.order_id,
                    msg.account_id,
                    CancelReason::SelfTradePrevented,
                )
                &&& reports_then_book(o.events, 3 * n + 2)
                &&& orders(o.market.book, msg.side) == orders(m.book, msg.side)
            } else if left <= 0 {
                &&& reports_then_book(o.events, 3 * n)
                &&& orders(o.market.book, msg.side) == orders(m.book, msg.side)
            } else if msg.tif == Tif::Ioc || msg.price is None {
                &&& o.events[3 * n] == cancel_report(
                    msg.order_id,
                    msg.account_id,
                    CancelReason::IocRemaining,
                )
                &&& reports_then_book(o.events, 3 * n + 1)
                &&& orders(o.market.book, msg.side) == orders(m.book, msg.side)
            } else {
                &&& o.events[3 * n] == accept_report(msg.order_id, msg.account_id, left)
                &&& reports_then_book(o.events, 3 * n + 1)
                &&& joins(
                    orders(o.market.book, msg.side),
                    orders(m.book, msg.side),
                    (RestingOrder {
                        order_id: msg.order_id,
                        account_id: msg.account_id,
                        side: msg.side,
                        price: msg.price->0,
                        qty: Qty::of(left as u64),
                        tif: msg.tif,
                    }),
                )
            }
        }),
{
    let s = facing(m.book, msg.side);
    let taker = taker_of(msg);
    let e = execute(m, taker, trade);
    let c = new_order(m, msg, trade);
    let o = outcome(m, Inbound::NewOrder(msg), trade);
    assert(c == command(m, Inbound::NewOrder(msg), trade));
    execute_is(m, taker, trade, n);
    verdict_agrees(m, msg, trade);
    handler_comes_first(m, Inbound::NewOrder(msg), trade);
    sweep_keeps(m.book, taker, trade);
    let k = e.events.len() as int;
    let tail = o.events.skip(k);
    if let Some(qty) = residue(m, taker, trade) {
        if !(taker.tif == Tif::Ioc || taker.price is None) {
            exposure_agrees(m.book, msg.account_id);
            lookup_agrees(m.book, msg.key());
            assert(msg.price->0@ * msg.qty@ >= 0) by (nonlinear_arith)
                requires
                    msg.price->0@ > 0,
                    msg.qty@ > 0,
            ;
            requeue_fits(m, taker, msg.price->0, trade);
            let left = msg.qty@ - qty_of_first(s, n);
            enqueued_joins(
                orders(m.book, msg.side),
                RestingOrder {
                    order_id: msg.order_id,
                    account_id: msg.account_id,
                    side: msg.side,
                    price: msg.price->0,
                    qty: Qty::of(left as u64),
                    tif: msg.tif,
                },
            );
        }
    }
    assert(o.events =~= Seq::<Event>::empty() + e.events + tail);
    tells_amid(Seq::empty(), e.events, tail, s, n, taker, trade);
}

} // verus!
