//! What becomes of an amendment.

use vstd::prelude::*;

use crate::domain::{group_newtypes, CancelReason, Qty, RejectReason, Side, Tif};
use crate::engine::laws::unchanged_book_no_deltas;
use crate::engine::lemmas::{lookup_found, sweep_keeps, without_keeps};
use crate::engine::model::{
    amended, cancel_replace, command, execute, outcome, refuse, requeue, residue, Market,
};
use crate::engine::pipeline::requeue_fits;
use crate::laws::agree::{
    band_agrees, enqueued_joins, exposure_agrees, found_agrees, handler_comes_first, lookup_agrees,
};
use crate::laws::plain::{
    cancel_report, facing, joins, may_trade, meets_itself, open_notional, open_orders, orders,
    out_of_band, qty_of_first, queue_left, reject_report, replace_report, reports_then_book, rests,
    rests_at, tells_trades, trades_with_first,
};
use crate::laws::trading::{execute_is, tells_amid};
use crate::matching::types::RestingOrder;
use crate::wire::inbound::{CancelReplace, Inbound};

verus! {

broadcast use group_newtypes;

/// What of an amendment's fields holds of every one that can be made.
pub open spec fn amendment_fields(msg: CancelReplace) -> bool {
    msg.new_price@ > 0 && msg.new_qty@ > 0
}

/// An amendment is refused while the kill switch is on; then if the new
/// price is more than five percent away from the last trade; then if the
/// account rests no order with this id. Nothing changes, and the events are
/// the refusal and the top of the book.
pub proof fn refused_amendment(m: Market, msg: CancelReplace, trade: u64)
    requires
        m.book.wf(),
        m.killed || out_of_band(m.last_trade, msg.new_price) || !rests(
            m.book,
            msg.account_id,
            msg.order_id,
        ),
    ensures
        ({
            let o = outcome(m, Inbound::CancelReplace(msg), trade);
            &&& o.market == m
            &&& o.trades == 0
            &&& o.events.len() == 2
            &&& o.events[0] == reject_report(
                msg.order_id,
                msg.account_id,
                if m.killed {
                    RejectReason::KillSwitched
                } else if out_of_band(m.last_trade, msg.new_price) {
                    RejectReason::PriceBand
                } else {
                    RejectReason::UnknownOrderId
                },
            )
            &&& o.events[1] is Top
        }),
{
    band_agrees(m.last_trade, msg.new_price);
    lookup_agrees(m.book, msg.key());
    unchanged_book_no_deltas(m.book);
}

/// An amendment that is not refused outright: the switch is off, the new
/// price is near the last trade, and the `i`-th order on `side` is the
/// account's order with this id.
pub open spec fn amends(m: Market, msg: CancelReplace, side: Side, i: int) -> bool {
    &&& m.book.wf()
    &&& amendment_fields(msg)
    &&& !m.killed
    &&& !out_of_band(m.last_trade, msg.new_price)
    &&& rests_at(m.book, side, i, msg.account_id, msg.order_id)
}

/// The amended order is post-only and would trade at its new price.
pub open spec fn may_not_move(m: Market, msg: CancelReplace, side: Side, i: int) -> bool {
    let f = facing(m.book, side);
    &&& orders(m.book, side)[i].tif == Tif::PostOnly
    &&& f.len() > 0
    &&& may_trade(side, Some(msg.new_price), f[0].price)
}

/// The amendment lowers the quantity and keeps the price.
pub open spec fn only_reduces(m: Market, msg: CancelReplace, side: Side, i: int) -> bool {
    let o = orders(m.book, side)[i];
    msg.new_price@ == o.price@ && msg.new_qty@ < o.qty@
}

/// With the amended order in place of the old one, the account would rest a
/// notional above the cap.
pub open spec fn too_large(m: Market, msg: CancelReplace, side: Side, i: int) -> bool {
    let o = orders(m.book, side)[i];
    open_notional(m.book, msg.account_id) - o.price@ * o.qty@ + msg.new_price@ * msg.new_qty@
        > 10_000_000_000
}

/// Which way an amendment goes.
proof fn way_agrees(m: Market, msg: CancelReplace, trade: u64, side: Side, i: int)
    requires
        amends(m, msg, side, i),
    ensures
        ({
            let o = orders(m.book, side)[i];
            let c = cancel_replace(m, msg, trade);
            &&& o.side == side
            &&& m.book.lookup(msg.key()) == Some(o)
            &&& may_not_move(m, msg, side, i) ==> c == refuse(
                m,
                reject_report(msg.order_id, msg.account_id, RejectReason::PostOnlyWouldCross),
            )
            &&& !may_not_move(m, msg, side, i) && only_reduces(m, msg, side, i) ==> {
                &&& c.market == (Market { book: m.book.reduced(msg.key(), msg.new_qty), ..m })
                &&& c.trades == 0
                &&& c.events == seq![replace_report(msg.order_id, msg.account_id, msg.new_qty)]
            }
            &&& !may_not_move(m, msg, side, i) && !only_reduces(m, msg, side, i) ==> c == requeue(
                m,
                o,
                msg,
                trade,
            )
        }),
{
    let o = orders(m.book, side)[i];
    band_agrees(m.last_trade, msg.new_price);
    found_agrees(m.book, side, i, msg.key());
    lookup_found(m.book, msg.key());
    assert(o.side == side);
    assert(facing(m.book, side) == m.book.queue(side.other()));
}

/// An amendment that would make a post-only order trade is refused, and
/// nothing changes.
pub proof fn post_only_stays_passive(
    m: Market,
    msg: CancelReplace,
    trade: u64,
    side: Side,
    i: int,
)
    requires
        amends(m, msg, side, i),
        may_not_move(m, msg, side, i),
    ensures
        ({
            let o = outcome(m, Inbound::CancelReplace(msg), trade);
            &&& o.market == m
            &&& o.trades == 0
            &&& o.events.len() == 2
            &&& o.events[0] == reject_report(
                msg.order_id,
                msg.account_id,
                RejectReason::PostOnlyWouldCross,
            )
            &&& o.events[1] is Top
        }),
{
    way_agrees(m, msg, trade, side, i);
    unchanged_book_no_deltas(m.book);
}

/// An amendment that lowers the quantity at the same price changes the
/// order's quantity where it stands, and nothing else. One report says so.
pub proof fn reduction_stays_in_place(
    m: Market,
    msg: CancelReplace,
    trade: u64,
    side: Side,
    i: int,
)
    requires
        amends(m, msg, side, i),
        !may_not_move(m, msg, side, i),
        only_reduces(m, msg, side, i),
    ensures
        ({
            let s = orders(m.book, side);
            let o = outcome(m, Inbound::CancelReplace(msg), trade);
            &&& o.market.killed == m.killed
            &&& o.market.last_trade == m.last_trade
            &&& o.trades == 0
            &&& orders(o.market.book, side) == s.update(
                i,
                RestingOrder { qty: msg.new_qty, ..s[i] },
            )
            &&& facing(o.market.book, side) == facing(m.book, side)
            &&& o.events[0] == replace_report(msg.order_id, msg.account_id, msg.new_qty)
            &&& reports_then_book(o.events, 1)
        }),
{
    way_agrees(m, msg, trade, side, i);
    found_agrees(m.book, side, i, msg.key());
    handler_comes_first(m, Inbound::CancelReplace(msg), trade);
    assert(command(m, Inbound::CancelReplace(msg), trade) == cancel_replace(m, msg, trade));
}

/// The market without the amended order.
proof fn gone_is(m: Market, msg: CancelReplace, side: Side, i: int)
    requires
        amends(m, msg, side, i),
    ensures
        ({
            let o = orders(m.book, side)[i];
            let g = m.book.without(msg.key());
            &&& g.wf()
            &&& orders(g, side) == orders(m.book, side).remove(i)
            &&& facing(g, side) == facing(m.book, side)
            &&& g.lookup(msg.key()) is None
            &&& g.open_orders(msg.account_id) == open_orders(m.book, msg.account_id) - 1
            &&& g.exposure(msg.account_id) == open_notional(m.book, msg.account_id) - o.price@
                * o.qty@
        }),
{
    let o = orders(m.book, side)[i];
    found_agrees(m.book, side, i, msg.key());
    lookup_found(m.book, msg.key());
    without_keeps(m.book, msg.key());
    exposure_agrees(m.book, msg.account_id);
    assert(o.price@ * o.qty@ >= 0) by (nonlinear_arith)
        requires
            o.price@ > 0,
            o.qty@ > 0,
    ;
    let g = m.book.without(msg.key());
    assert(m.book.open_orders(msg.account_id) == g.open_orders(msg.account_id) + 1);
}

/// An amendment that would take the account's notional above the cap is
/// refused, and the order is gone all the same.
pub proof fn too_large_an_amendment_loses_the_order(
    m: Market,
    msg: CancelReplace,
    trade: u64,
    side: Side,
    i: int,
)
    requires
        amends(m, msg, side, i),
        open_orders(m.book, msg.account_id) <= 1_000,
        !may_not_move(m, msg, side, i),
        !only_reduces(m, msg, side, i),
        too_large(m, msg, side, i),
    ensures
        ({
            let o = outcome(m, Inbound::CancelReplace(msg), trade);
            &&& o.market.killed == m.killed
            &&& o.market.last_trade == m.last_trade
            &&& o.trades == 0
            &&& orders(o.market.book, side) == orders(m.book, side).remove(i)
            &&& facing(o.market.book, side) == facing(m.book, side)
            &&& o.events[0] == reject_report(
                msg.order_id,
                msg.account_id,
                RejectReason::MaxNotional,
            )
            &&& reports_then_book(o.events, 1)
        }),
{
    way_agrees(m, msg, trade, side, i);
    gone_is(m, msg, side, i);
    handler_comes_first(m, Inbound::CancelReplace(msg), trade);
    assert(command(m, Inbound::CancelReplace(msg), trade) == cancel_replace(m, msg, trade));
    assert(msg.new_price@ * msg.new_qty@ >= 0) by (nonlinear_arith)
        requires
            msg.new_price@ > 0,
            msg.new_qty@ > 0,
    ;
}

/// Any other amendment takes the order off the book and enters it anew: it
/// is acknowledged, then trades with the first orders of the other side as
/// far as the new price and quantity reach and up to an order of its own
/// account. The events tell of the trades with the order's own side. Where
/// it meets an order of its own account, both are cancelled. Otherwise what
/// it leaves open rests at the new price behind every order at least as
/// good, without a further report.
#[verifier::spinoff_prover]
#[verifier::rlimit(30)]
pub proof fn amended_order_trades_then_rests(
    m: Market,
    msg: CancelReplace,
    trade: u64,
    side: Side,
    i: int,
    n: int,
)
    requires
        amends(m, msg, side, i),
        open_orders(m.book, msg.account_id) <= 1_000,
        !may_not_move(m, msg, side, i),
        !only_reduces(m, msg, side, i),
        !too_large(m, msg, side, i),
        trades_with_first(
            facing(m.book, side),
            n,
            msg.account_id,
            side,
            Some(msg.new_price),
            msg.new_qty@ as int,
        ),
        trade + n <= u64::MAX,
    ensures
        ({
            let s = facing(m.book, side);
            let own = meets_itself(
                s,
                n,
                msg.account_id,
                side,
                Some(msg.new_price),
                msg.new_qty@ as int,
            );
            let left = msg.new_qty@ - qty_of_first(s, n);
            let rest = orders(m.book, side).remove(i);
            let o = outcome(m, Inbound::CancelReplace(msg), trade);
            &&& o.trades == n
            &&& o.market.killed == m.killed
            &&& o.market.last_trade == (if n > 0 {
                Some(s[n - 1].price)
            } else {
                m.last_trade
            })
            &&& o.events[0] == replace_report(msg.order_id, msg.account_id, msg.new_qty)
            &&& tells_trades(
                o.events,
                1,
                s,
                n,
                msg.order_id,
                msg.account_id,
                side,
                msg.new_qty@ as int,
                trade,
            )
            &&& facing(o.market.book, side) == (if own {
                s.skip(n + 1)
            } else {
                queue_left(s, n, msg.new_qty@ as int)
            })
            &&& if own {
                &&& o.events[1 + 3 * n] == cancel_report(
                    s[n].order_id,
                    s[n].account_id,
                    CancelReason::SelfTradePrevented,
                )
                &&& o.events[2 + 3 * n] == cancel_report(
                    msg.order_id,
                    msg.account_id,
                    CancelReason::SelfTradePrevented,
                )
                &&& reports_then_book(o.events, 3 * n + 3)
                &&& orders(o.market.book, side) == rest
            } else if left <= 0 {
                &&& reports_then_book(o.events, 3 * n + 1)
                &&& orders(o.market.book, side) == rest
            } else {
                &&& reports_then_book(o.events, 3 * n + 1)
                &&& joins(
                    orders(o.market.book, side),
                    rest,
                    (RestingOrder {
                        order_id: msg.order_id,
                        account_id: msg.account_id,
                        side,
                        price: msg.new_price,
                        qty: Qty::of(left as u64),
                        tif: orders(m.book, side)[i].tif,
                    }),
                )
            }
        }),
{
    let s = facing(m.book, side);
    let before = orders(m.book, side)[i];
    let gone = Market { book: m.book.without(msg.key()), ..m };
    let taker = amended(before, msg);
    let e = execute(gone, taker, trade);
    let c = cancel_replace(m, msg, trade);
    let o = outcome(m, Inbound::CancelReplace(msg), trade);
    assert(c == command(m, Inbound::CancelReplace(msg), trade));
    way_agrees(m, msg, trade, side, i);
    gone_is(m, msg, side, i);
    assert(msg.new_price@ * msg.new_qty@ >= 0) by (nonlinear_arith)
        requires
            msg.new_price@ > 0,
            msg.new_qty@ > 0,
    ;
    execute_is(gone, taker, trade, n);
    handler_comes_first(m, Inbound::CancelReplace(msg), trade);
    sweep_keeps(gone.book, taker, trade);
    let ack = seq![replace_report(msg.order_id, msg.account_id, msg.new_qty)];
    assert(c.events == ack + e.events);
    if let Some(qty) = residue(gone, taker, trade) {
        requeue_fits(gone, taker, msg.new_price, trade);
        let left = msg.new_qty@ - qty_of_first(s, n);
        enqueued_joins(
            orders(gone.book, side),
            RestingOrder {
                order_id: msg.order_id,
                account_id: msg.account_id,
                side,
                price: msg.new_price,
                qty: Qty::of(left as u64),
                tif: before.tif,
            },
        );
    }
    let tail = o.events.skip(c.events.len() as int);
    assert(o.events =~= ack + e.events + tail);
    tells_amid(ack, e.events, tail, s, n, taker, trade);
    assert(o.events[0] == ack[0]);
    assert forall|j: int| 0 <= j < c.events.len() implies (#[trigger] o.events[j]) is Exec
        || o.events[j] is Trade by {
        if j > 0 {
            assert(c.events[j] == e.events[j - 1]);
        }
    }
}

} // verus!
