//! What the market is told of the book.

use vstd::prelude::*;

use crate::domain::{group_newtypes, Clock, Price, RecvTs, Side};
use crate::engine::engine::{answers, emit_ts};
use crate::engine::event::Event;
use crate::engine::l2::{changes_level, deltas, deltas_reconstruct, level_of};
use crate::engine::laws::outcome_sound;
use crate::engine::mirror::command_no_delta;
use crate::engine::model::{command, outcome, Market};
use crate::laws::agree::{depth_agrees, handler_comes_first};
use crate::laws::amendments::amendment_fields;
use crate::laws::new_orders::new_order_fields;
use crate::laws::plain::{orders, qty_at, shown};
use crate::matching::laws::levels_best_first;
use crate::matching::model::{depth_weight, levels, order_wf, queue_wf};
use crate::matching::types::RestingOrder;
use crate::wire::inbound::Inbound;
use crate::wire::outbound::OutboundView;

verus! {

broadcast use group_newtypes;

/// A command that may change the book, with fields that can be made.
pub open spec fn concerns_the_book(msg: Inbound) -> bool {
    match msg {
        Inbound::NewOrder(x) => new_order_fields(x),
        Inbound::CancelOrder(_) => true,
        Inbound::CancelReplace(x) => amendment_fields(x),
        Inbound::MassCancel(_) => true,
        Inbound::KillSwitchSet(_) => false,
        Inbound::SnapshotRequest(_) => false,
    }
}

/// What rests at the price of an order is not nothing.
proof fn first_counts(s: Seq<RestingOrder>, i: int)
    requires
        0 <= i < s.len(),
        s[i].qty@ > 0,
    ensures
        qty_at(s, s[i].price) > 0,
    decreases s.len(),
{
    not_negative(s.drop_last(), s[i].price);
    if i < s.len() - 1 {
        assert(s.drop_last()[i] == s[i]);
        first_counts(s.drop_last(), i);
    }
}

/// A sum of quantities is not negative.
proof fn not_negative(s: Seq<RestingOrder>, price: Price)
    ensures
        qty_at(s, price) >= 0,
    decreases s.len(),
{
    if s.len() > 0 {
        not_negative(s.drop_last(), price);
    }
}

/// The last event of every command that may change the book is its top. The
/// bid shown is one that rests, and no resting bid is above it; the ask shown
/// is one that rests, and no resting ask is below it; each comes with the sum
/// of what rests at that price. A side is shown empty exactly if nothing
/// rests on it.
pub proof fn top_shows_the_best(m: Market, msg: Inbound, trade: u64)
    requires
        m.sound(),
        concerns_the_book(msg),
    ensures
        ({
            let o = outcome(m, msg, trade);
            let bids = o.market.book.bids;
            let asks = o.market.book.asks;
            let last = o.events[o.events.len() - 1];
            &&& o.events.len() > 0
            &&& last is Top
            &&& last->bid is None <==> bids.len() == 0
            &&& last->bid matches Some((p, q)) ==> {
                &&& exists|i: int| 0 <= i < bids.len() && (#[trigger] bids[i]).price == p
                &&& forall|i: int| 0 <= i < bids.len() ==> (#[trigger] bids[i]).price@ <= p@
                &&& Some(q) == shown(qty_at(bids, p))
            }
            &&& last->ask is None <==> asks.len() == 0
            &&& last->ask matches Some((p, q)) ==> {
                &&& exists|i: int| 0 <= i < asks.len() && (#[trigger] asks[i]).price == p
                &&& forall|i: int| 0 <= i < asks.len() ==> (#[trigger] asks[i]).price@ >= p@
                &&& Some(q) == shown(qty_at(asks, p))
            }
        }),
{
    let o = outcome(m, msg, trade);
    let book = o.market.book;
    outcome_sound(m, msg, trade);
    handler_comes_first(m, msg, trade);
    if book.bids.len() > 0 {
        assert(order_wf(Side::Bid, book.bids[0]));
        depth_agrees(book.bids, book.bids[0].price);
        first_counts(book.bids, 0);
    }
    if book.asks.len() > 0 {
        assert(order_wf(Side::Ask, book.asks[0]));
        depth_agrees(book.asks, book.asks[0].price);
        first_counts(book.asks, 0);
    }
}

/// What the market is shown of a level.
proof fn level_is(m: Market, side: Side, price: Price)
    requires
        m.book.wf(),
    ensures
        level_of(m.book, side, price) == shown(qty_at(orders(m.book, side), price)),
{
    depth_agrees(orders(m.book, side), price);
}

/// A command that may change the book reports a level exactly if what the
/// market is shown of it has changed, and reports what is there now.
pub proof fn changed_levels_are_reported(
    m: Market,
    msg: Inbound,
    trade: u64,
    side: Side,
    price: Price,
)
    requires
        m.sound(),
        concerns_the_book(msg),
    ensures
        ({
            let o = outcome(m, msg, trade);
            let before = shown(qty_at(orders(m.book, side), price));
            let after = shown(qty_at(orders(o.market.book, side), price));
            &&& before != after ==> exists|i: int|
                0 <= i < o.events.len() && #[trigger] o.events[i] == (Event::Delta {
                    side,
                    price,
                    new_qty: after,
                })
            &&& forall|i: int|
                0 <= i < o.events.len() && (#[trigger] o.events[i]) is Delta
                    && o.events[i]->Delta_side == side && o.events[i]->Delta_price == price ==> {
                    &&& before != after
                    &&& o.events[i]->Delta_new_qty == after
                }
        }),
{
    let c = command(m, msg, trade);
    let o = outcome(m, msg, trade);
    let d = deltas(m.book, o.market.book);
    let n = c.events.len() as int;
    outcome_sound(m, msg, trade);
    handler_comes_first(m, msg, trade);
    command_no_delta(m, msg, trade);
    deltas_reconstruct(m.book, o.market.book, side, price);
    level_is(m, side, price);
    level_is(o.market, side, price);
    let before = level_of(m.book, side, price);
    let after = level_of(o.market.book, side, price);
    if before != after {
        let i = choose|i: int| 0 <= i < d.len() && #[trigger] changes_level(d[i], side, price);
        assert(o.events[n + i] == d[i]);
        assert(o.events[n + i] == (Event::Delta { side, price, new_qty: after }));
    }
    assert forall|i: int|
        0 <= i < o.events.len() && (#[trigger] o.events[i]) is Delta && o.events[i]->Delta_side
            == side && o.events[i]->Delta_price == price implies before != after
        && o.events[i]->Delta_new_qty == after by {
        if i < n {
            assert(o.events[i] == c.events[i]);
        } else {
            assert(i < o.events.len() - 1);
            assert(o.events[i] == d[i - n]);
            assert(changes_level(d[i - n], side, price));
        }
    }
}

/// Reported levels come sorted: bids before asks, and within a side in
/// ascending order of price, no level twice.
pub proof fn reported_levels_are_sorted(m: Market, msg: Inbound, trade: u64, i: int, j: int)
    requires
        m.sound(),
        concerns_the_book(msg),
        0 <= i < j < outcome(m, msg, trade).events.len(),
        outcome(m, msg, trade).events[i] is Delta,
        outcome(m, msg, trade).events[j] is Delta,
    ensures
        ({
            let a = outcome(m, msg, trade).events[i];
            let b = outcome(m, msg, trade).events[j];
            if a->Delta_side == b->Delta_side {
                a->Delta_price@ < b->Delta_price@
            } else {
                a->Delta_side == Side::Bid && b->Delta_side == Side::Ask
            }
        }),
{
    let c = command(m, msg, trade);
    let o = outcome(m, msg, trade);
    let d = deltas(m.book, o.market.book);
    let n = c.events.len() as int;
    outcome_sound(m, msg, trade);
    handler_comes_first(m, msg, trade);
    command_no_delta(m, msg, trade);
    deltas_reconstruct(m.book, o.market.book, Side::Bid, o.events[i]->Delta_price);
    if i < n {
        assert(o.events[i] == c.events[i]);
    }
    if j < n {
        assert(o.events[j] == c.events[j]);
    }
    assert(o.events[i] == d[i - n]);
    assert(o.events[j] == d[j - n]);
}

/// The levels of a side come best price first, no price twice. There is
/// one for each price at which an order rests and for no other price, and it
/// holds the sum of what rests there.
pub proof fn levels_are_what_rests(side: Side, s: Seq<RestingOrder>)
    requires
        queue_wf(side, s),
    ensures
        forall|i: int, j: int|
            0 <= i < j < levels(s).len() ==> match side {
                Side::Bid => (#[trigger] levels(s)[i]).price@ > (#[trigger] levels(s)[j]).price@,
                Side::Ask => levels(s)[i].price@ < levels(s)[j].price@,
            },
        forall|i: int|
            0 <= i < levels(s).len() ==> Some((#[trigger] levels(s)[i]).qty) == shown(
                qty_at(s, levels(s)[i].price),
            ),
        forall|k: int|
            0 <= k < s.len() ==> exists|i: int|
                0 <= i < levels(s).len() && (#[trigger] levels(s)[i]).price == (
                #[trigger] s[k]).price,
{
    levels_best_first(side, s);
    assert forall|i: int| 0 <= i < levels(s).len() implies Some((#[trigger] levels(s)[i]).qty)
        == shown(qty_at(s, levels(s)[i].price)) by {
        depth_agrees(s, levels(s)[i].price);
    }
    assert forall|k: int| 0 <= k < s.len() implies exists|i: int|
        0 <= i < levels(s).len() && (#[trigger] levels(s)[i]).price == (#[trigger] s[k]).price by {
        assert(order_wf(side, s[k]));
        first_counts(s, k);
        depth_agrees(s, s[k].price);
        let w = depth_weight(s[k].price);
    }
}

/// Every message that a command publishes carries the next number, counted
/// from `first`. For a snapshot request it is one response that names the
/// request, carries both times and lists the levels of both sides. For any
/// other command it is one message for each event, in the order of the
/// events and with the fields of the event; a report carries when the
/// command came in, too.
pub proof fn messages_carry_the_events<C: Clock>(
    clock: C,
    m: Market,
    msg: Inbound,
    trade: u64,
    first: u64,
    recv: RecvTs,
    new: Seq<OutboundView>,
    i: int,
)
    requires
        answers(clock, m, msg, trade, first, recv, new),
        first + new.len() <= u64::MAX,
        0 <= i < new.len(),
    ensures
        msg is SnapshotRequest ==> new.len() == 1,
        !(msg is SnapshotRequest) ==> new.len() == outcome(m, msg, trade).events.len(),
        match new[i] {
            OutboundView::ExecReport(r) => {
                let e = outcome(m, msg, trade).events[i];
                &&& !(msg is SnapshotRequest)
                &&& e == (Event::Exec {
                    order_id: r.order_id,
                    account_id: r.account_id,
                    state: r.state,
                    fill_price: r.fill_price,
                    fill_qty: r.fill_qty,
                    leaves_qty: r.leaves_qty,
                    reject_reason: r.reject_reason,
                    cancel_reason: r.cancel_reason,
                })
                &&& r.engine_seq@ == first + i
                &&& r.recv_ts == recv
                &&& clock.reads(r.recv_ts)
                &&& clock.reads(r.emit_ts)
            },
            OutboundView::TradePrint(r) => {
                &&& !(msg is SnapshotRequest)
                &&& outcome(m, msg, trade).events[i] == (Event::Trade {
                    trade_id: r.trade_id,
                    price: r.price,
                    qty: r.qty,
                    aggressor_side: r.aggressor_side,
                })
                &&& r.engine_seq@ == first + i
                &&& clock.reads(r.emit_ts)
            },
            OutboundView::BookUpdateL2Delta(r) => {
                &&& !(msg is SnapshotRequest)
                &&& outcome(m, msg, trade).events[i] == (Event::Delta {
                    side: r.side,
                    price: r.price,
                    new_qty: r.new_qty,
                })
                &&& r.engine_seq@ == first + i
                &&& clock.reads(r.emit_ts)
            },
            OutboundView::BookUpdateTop(r) => {
                &&& !(msg is SnapshotRequest)
                &&& outcome(m, msg, trade).events[i] == (Event::Top { bid: r.bid, ask: r.ask })
                &&& r.engine_seq@ == first + i
                &&& clock.reads(r.emit_ts)
            },
            OutboundView::SnapshotResponse(r) => {
                &&& msg is SnapshotRequest
                &&& r.request_id == msg->SnapshotRequest_0.request_id
                &&& r.engine_seq@ == first + i
                &&& r.recv_ts == recv
                &&& clock.reads(r.recv_ts)
                &&& clock.reads(r.emit_ts)
                &&& r.bids == levels(m.book.bids)
                &&& r.asks == levels(m.book.asks)
            },
        },
{
    assert(clock.reads(emit_ts(new[i])));
}

} // verus!
