//! What holds of an order from one command to the next.

use vstd::prelude::*;

use crate::domain::{group_newtypes, Qty, RejectReason, Tif};
use crate::engine::event::Event;
use crate::engine::laws::{in_domain, refused, risk_verdict, strangers_are_refused};
use crate::engine::lemmas::{lookup_found, without_keeps};
use crate::engine::model::{amended, command, outcome, owns, resting, taker_of, Market};
use crate::matching::laws::{cancel_undoes_add, no_cross_no_change};
use crate::matching::model::{keeps_priority, notional};
use crate::matching::types::RestingOrder;
use crate::risk::within_caps;
use crate::wire::inbound::{CancelOrder, CancelReplace, Inbound, NewOrder};

verus! {

broadcast use group_newtypes;

/// A limit order that does not cross, is not immediate-or-cancel and has an
/// id that its account rests no order with rests as a whole at the tail of its level, once risk lets
/// it pass, and is acknowledged with its full quantity.
pub proof fn passive_order_rests(m: Market, msg: NewOrder, trade: u64)
    requires
        in_domain(Inbound::NewOrder(msg)),
        risk_verdict(m, Inbound::NewOrder(msg)) is Ok,
        msg.tif != Tif::Ioc,
        msg.price is Some,
        !m.book.would_cross(msg.side, msg.price),
        !owns(m, msg.key()),
    ensures
        command(m, Inbound::NewOrder(msg), trade).market == (Market {
            book: m.book.with(resting(taker_of(msg), msg.price->0, msg.qty)),
            ..m
        }),
        command(m, Inbound::NewOrder(msg), trade).events == seq![
            Event::accepted(msg.order_id, msg.account_id, msg.qty),
        ],
{
    no_cross_no_change(m.book, taker_of(msg), trade);
    assert(Qty::of(msg.qty@) == msg.qty);
    assert(command(m, Inbound::NewOrder(msg), trade).events =~= seq![
        Event::accepted(msg.order_id, msg.account_id, msg.qty),
    ]);
}

/// Cancelling a passive order gives back the market as it was before the
/// order came in.
pub proof fn cancel_undoes_passive_order(
    m: Market,
    msg: NewOrder,
    cancel: CancelOrder,
    trade: u64,
)
    requires
        m.book.wf(),
        in_domain(Inbound::NewOrder(msg)),
        risk_verdict(m, Inbound::NewOrder(msg)) is Ok,
        msg.tif != Tif::Ioc,
        msg.price is Some,
        !m.book.would_cross(msg.side, msg.price),
        !owns(m, msg.key()),
        cancel.key() == msg.key(),
    ensures
        outcome(
            outcome(m, Inbound::NewOrder(msg), trade).market,
            Inbound::CancelOrder(cancel),
            trade,
        ).market == m,
{
    passive_order_rests(m, msg, trade);
    cancel_undoes_add(m.book, resting(taker_of(msg), msg.price->0, msg.qty));
}

/// An order that was cancelled is gone: cancelling it again is answered
/// with that it is unknown.
pub proof fn cancelled_order_is_gone(
    m: Market,
    first: CancelOrder,
    second: CancelOrder,
    trade: u64,
)
    requires
        m.book.wf(),
        !m.killed,
        owns(m, first.key()),
        second.key() == first.key(),
    ensures
        refused(
            outcome(m, Inbound::CancelOrder(first), trade).market,
            Inbound::CancelOrder(second),
            trade,
            RejectReason::UnknownOrderId,
        ),
{
    without_keeps(m.book, first.key());
    strangers_are_refused(
        outcome(m, Inbound::CancelOrder(first), trade).market,
        Inbound::CancelOrder(second),
        trade,
    );
}

/// An amendment to strictly less quantity at the same price is never
/// refused once risk lets it pass. It keeps the order's place in the queue.
pub proof fn reduction_keeps_priority(m: Market, msg: CancelReplace, trade: u64)
    requires
        m.book.wf(),
        m.book.uncrossed(),
        risk_verdict(m, Inbound::CancelReplace(msg)) is Ok,
        owns(m, msg.key()),
        keeps_priority(m.book.lookup(msg.key())->0, msg.new_price, msg.new_qty),
    ensures
        command(m, Inbound::CancelReplace(msg), trade).market == (Market {
            book: m.book.reduced(msg.key(), msg.new_qty),
            ..m
        }),
        command(m, Inbound::CancelReplace(msg), trade).events == seq![
            Event::replaced(msg.order_id, msg.account_id, msg.new_qty),
        ],
{
    lookup_found(m.book, msg.key());
    let o = m.book.lookup(msg.key())->0;
    assert(!m.book.would_cross(o.side, Some(msg.new_price)));
}

/// An amendment to a new price or to no less quantity loses its place: if it
/// does not cross and the caps allow it, the order stands at the tail of its
/// new level.
pub proof fn amendment_goes_to_the_tail(m: Market, msg: CancelReplace, trade: u64)
    requires
        m.book.wf(),
        in_domain(Inbound::CancelReplace(msg)),
        risk_verdict(m, Inbound::CancelReplace(msg)) is Ok,
        owns(m, msg.key()),
        !keeps_priority(m.book.lookup(msg.key())->0, msg.new_price, msg.new_qty),
        !m.book.would_cross(m.book.lookup(msg.key())->0.side, Some(msg.new_price)),
        within_caps(
            m.book.without(msg.key()).open_orders(msg.account_id),
            m.book.without(msg.key()).exposure(msg.account_id),
            notional(msg.new_price, msg.new_qty),
        ) is Ok,
    ensures
        ({
            let o = m.book.lookup(msg.key())->0;
            let moved = RestingOrder { price: msg.new_price, qty: msg.new_qty, ..o };
            let c = command(m, Inbound::CancelReplace(msg), trade);
            &&& c.market == Market { book: m.book.without(msg.key()).with(moved), ..m }
            &&& c.events == seq![Event::replaced(msg.order_id, msg.account_id, msg.new_qty)]
        }),
{
    let o = m.book.lookup(msg.key())->0;
    let moved = RestingOrder { price: msg.new_price, qty: msg.new_qty, ..o };
    let gone = m.book.without(msg.key());
    lookup_found(m.book, msg.key());
    without_keeps(m.book, msg.key());
    no_cross_no_change(gone, amended(o, msg), trade);
    assert(Qty::of(msg.new_qty@) == msg.new_qty);
    assert(resting(amended(o, msg), msg.new_price, msg.new_qty) == moved);
    let c = command(m, Inbound::CancelReplace(msg), trade);
    assert(c.events =~= seq![Event::replaced(msg.order_id, msg.account_id, msg.new_qty)]);
}

} // verus!
