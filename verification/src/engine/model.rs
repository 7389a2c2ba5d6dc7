//! What each command does to the market, and which events it gives rise to.

use vstd::prelude::*;

use crate::domain::consts::{MAX_NOTIONAL_PER_ACCT, MAX_OPEN_ORDERS_PER_ACCT};
use crate::domain::{AccountId, CancelReason, OrderId, OrderKey, Price, Qty, RejectReason, Side, Tif};
use crate::engine::event::Event;
use crate::engine::l2::deltas;
use crate::matching::model::{
    keeps_priority, level_at, notional, post_only_crosses, sweep, swept, BookModel,
};
use crate::matching::types::{AggressiveOrder, Fill, RestingOrder};
use crate::risk::{kill_verdict, new_order_verdict, replace_verdict, within_caps};
use crate::wire::inbound::{
    CancelOrder, CancelReplace, Inbound, KillSwitchSet, KillSwitchState, MassCancel, NewOrder,
};

verus! {

/// Everything that the next command's outcome depends on.
#[verifier::ext_equal]
pub struct Market {
    /// The book.
    pub book: BookModel,
    /// Whether the kill switch is engaged.
    pub killed: bool,
    /// Price of the last trade.
    pub last_trade: Option<Price>,
}

impl Market {
    /// The market before the first command.
    pub open spec fn opening() -> Market {
        Market {
            book: BookModel { bids: Seq::empty(), asks: Seq::empty() },
            killed: false,
            last_trade: None,
        }
    }

    /// What holds of a market at all times: the book is in order and
    /// neither locked nor crossed, and no account is above its caps.
    pub open spec fn sound(self) -> bool {
        &&& self.book.wf()
        &&& self.book.uncrossed()
        &&& forall|a: AccountId|
            (#[trigger] self.book.open_orders(a)) <= MAX_OPEN_ORDERS_PER_ACCT
                && self.book.exposure(a) <= MAX_NOTIONAL_PER_ACCT
    }
}

/// What a command comes to.
#[verifier::ext_equal]
pub struct Outcome {
    /// The market afterwards.
    pub market: Market,
    /// The events, in the order in which they are published.
    pub events: Seq<Event>,
    /// Number of trades.
    pub trades: nat,
}

/// The command is refused and nothing changes.
pub open spec fn refuse(m: Market, event: Event) -> Outcome {
    Outcome { market: m, events: seq![event], trades: 0 }
}

/// `n` lots left open, or none.
pub open spec fn leaves(n: u64) -> Option<Qty> {
    if n > 0 {
        Some(Qty::of(n))
    } else {
        None
    }
}

/// The events of a run of fills, before which `left` lots of the taker
/// were open: for each fill its trade, then the maker's and the taker's
/// report.
pub open spec fn fill_events(fills: Seq<Fill>, taker: AggressiveOrder, left: u64) -> Seq<Event>
    decreases fills.len(),
{
    if fills.len() == 0 {
        Seq::empty()
    } else {
        let after = (left - fills[0].qty@) as u64;
        seq![
            Event::trade(fills[0], taker.side),
            Event::maker_filled(fills[0]),
            Event::taker_filled(taker, fills[0], leaves(after)),
        ] + fill_events(fills.drop_first(), taker, after)
    }
}

/// The events of a walk that met the taker's own order: both are cancelled.
pub open spec fn self_trade_events(maker: Option<RestingOrder>, taker: AggressiveOrder) -> Seq<
    Event,
> {
    match maker {
        None => Seq::empty(),
        Some(o) => seq![
            Event::cancelled(o.order_id, o.account_id, CancelReason::SelfTradePrevented),
            Event::cancelled(taker.order_id, taker.account_id, CancelReason::SelfTradePrevented),
        ],
    }
}

/// Price of the last trade after a run of fills.
pub open spec fn last_price(fills: Seq<Fill>, before: Option<Price>) -> Option<Price> {
    if fills.len() > 0 {
        Some(fills.last().price)
    } else {
        before
    }
}

/// The taker has walked the book: the fills happened, and a self-trade was
/// cancelled on both sides.
pub open spec fn execute(m: Market, taker: AggressiveOrder, trade: u64) -> Outcome {
    let w = sweep(m.book, taker, trade);
    Outcome {
        market: Market {
            book: swept(m.book, taker, trade),
            killed: m.killed,
            last_trade: last_price(w.fills, m.last_trade),
        },
        events: fill_events(w.fills, taker, taker.qty@) + self_trade_events(w.self_trade, taker),
        trades: w.fills.len(),
    }
}

/// What a taker leaves open once it has walked the book, unless it was
/// cancelled on the way.
pub open spec fn residue(m: Market, taker: AggressiveOrder, trade: u64) -> Option<Qty> {
    let w = sweep(m.book, taker, trade);
    if w.self_trade is Some {
        None
    } else {
        leaves(w.left)
    }
}

/// The residue of a taker as a resting order.
pub open spec fn resting(taker: AggressiveOrder, price: Price, qty: Qty) -> RestingOrder {
    RestingOrder {
        order_id: taker.order_id,
        account_id: taker.account_id,
        side: taker.side,
        price,
        qty,
        tif: taker.tif,
    }
}

/// The new order as a taker.
pub open spec fn taker_of(msg: NewOrder) -> AggressiveOrder {
    AggressiveOrder {
        order_id: msg.order_id,
        account_id: msg.account_id,
        side: msg.side,
        price: msg.price,
        qty: msg.qty,
        tif: msg.tif,
    }
}

/// What becomes of the residue of a new order: an immediate-or-cancel
/// order and an order without a limit are cancelled; any other rests, if
/// the account's caps allow it.
pub open spec fn place(done: Outcome, taker: AggressiveOrder, residue: Option<Qty>) -> Outcome {
    let m = done.market;
    match residue {
        None => done,
        Some(qty) => if taker.tif == Tif::Ioc || taker.price is None {
            Outcome {
                events: done.events.push(
                    Event::cancelled(taker.order_id, taker.account_id, CancelReason::IocRemaining),
                ),
                ..done
            }
        } else {
            match within_caps(
                m.book.open_orders(taker.account_id),
                m.book.exposure(taker.account_id),
                notional(taker.price->0, qty),
            ) {
                Err(reason) => Outcome {
                    events: done.events.push(
                        Event::rejected(taker.order_id, taker.account_id, reason),
                    ),
                    ..done
                },
                Ok(()) => Outcome {
                    market: Market {
                        book: m.book.with(resting(taker, taker.price->0, qty)),
                        ..m
                    },
                    events: done.events.push(
                        Event::accepted(taker.order_id, taker.account_id, qty),
                    ),
                    ..done
                },
            }
        },
    }
}

/// The account rests an order with this id.
pub open spec fn owns(m: Market, key: OrderKey) -> bool {
    m.book.lookup(key) is Some
}

/// A new order: judged by risk, refused if its account already rests an
/// order with its id or if it is post-only and would cross, otherwise
/// executed and its residue placed.
pub open spec fn new_order(m: Market, msg: NewOrder, trade: u64) -> Outcome {
    let taker = taker_of(msg);
    match new_order_verdict(
        m.killed,
        m.last_trade,
        m.book.open_orders(msg.account_id),
        m.book.exposure(msg.account_id),
        msg,
        m.book.best(msg.side.other()),
    ) {
        Err(reason) => refuse(m, Event::rejected(msg.order_id, msg.account_id, reason)),
        Ok(()) => if owns(m, msg.key()) {
            refuse(
                m,
                Event::rejected(msg.order_id, msg.account_id, RejectReason::DuplicateOrderId),
            )
        } else if post_only_crosses(m.book, taker) {
            refuse(
                m,
                Event::rejected(msg.order_id, msg.account_id, RejectReason::PostOnlyWouldCross),
            )
        } else {
            place(execute(m, taker, trade), taker, residue(m, taker, trade))
        },
    }
}

/// A cancel: only the owner's own resting order is cancelled.
pub open spec fn cancel_order(m: Market, msg: CancelOrder) -> Outcome {
    match kill_verdict(m.killed) {
        Err(reason) => refuse(m, Event::rejected(msg.order_id, msg.account_id, reason)),
        Ok(()) => if owns(m, msg.key()) {
            Outcome {
                market: Market { book: m.book.without(msg.key()), ..m },
                events: seq![
                    Event::cancelled(msg.order_id, msg.account_id, CancelReason::UserRequested),
                ],
                trades: 0,
            }
        } else {
            refuse(
                m,
                Event::rejected(msg.order_id, msg.account_id, RejectReason::UnknownOrderId),
            )
        },
    }
}

/// The amended order as a taker.
pub open spec fn amended(o: RestingOrder, msg: CancelReplace) -> AggressiveOrder {
    AggressiveOrder {
        order_id: msg.order_id,
        account_id: msg.account_id,
        side: o.side,
        price: Some(msg.new_price),
        qty: msg.new_qty,
        tif: o.tif,
    }
}

/// An amendment that loses its place: the order leaves the book; if the
/// account's caps allow the new one, it is acknowledged, executed like a
/// new order, and its residue rests without a further report. If they do
/// not, the amendment is refused and the order stays gone.
pub open spec fn requeue(m: Market, o: RestingOrder, msg: CancelReplace, trade: u64) -> Outcome {
    let gone = Market { book: m.book.without(msg.key()), ..m };
    let taker = amended(o, msg);
    match within_caps(
        gone.book.open_orders(msg.account_id),
        gone.book.exposure(msg.account_id),
        notional(msg.new_price, msg.new_qty),
    ) {
        Err(reason) => refuse(gone, Event::rejected(msg.order_id, msg.account_id, reason)),
        Ok(()) => {
            let done = execute(gone, taker, trade);
            let ack = seq![Event::replaced(msg.order_id, msg.account_id, msg.new_qty)];
            Outcome {
                market: match residue(gone, taker, trade) {
                    None => done.market,
                    Some(qty) => Market {
                        book: done.market.book.with(resting(taker, msg.new_price, qty)),
                        ..done.market
                    },
                },
                events: ack + done.events,
                trades: done.trades,
            }
        },
    }
}

/// An amendment: only the owner's own resting order is amended, a resting
/// post-only order never to a price at which it would cross. Strictly less
/// quantity at the same price keeps the queue position.
pub open spec fn cancel_replace(m: Market, msg: CancelReplace, trade: u64) -> Outcome {
    match replace_verdict(m.killed, m.last_trade, msg.new_price) {
        Err(reason) => refuse(m, Event::rejected(msg.order_id, msg.account_id, reason)),
        Ok(()) => if !owns(m, msg.key()) {
            refuse(
                m,
                Event::rejected(msg.order_id, msg.account_id, RejectReason::UnknownOrderId),
            )
        } else {
            let o = m.book.lookup(msg.key())->0;
            if post_only_crosses(m.book, amended(o, msg)) {
                refuse(
                    m,
                    Event::rejected(
                        msg.order_id,
                        msg.account_id,
                        RejectReason::PostOnlyWouldCross,
                    ),
                )
            } else if keeps_priority(o, msg.new_price, msg.new_qty) {
                Outcome {
                    market: Market { book: m.book.reduced(msg.key(), msg.new_qty), ..m },
                    events: seq![Event::replaced(msg.order_id, msg.account_id, msg.new_qty)],
                    trades: 0,
                }
            } else {
                requeue(m, o, msg, trade)
            }
        },
    }
}

/// The report on each order that a mass cancel takes off the book.
pub open spec fn mass_events(orders: Seq<RestingOrder>) -> Seq<Event> {
    Seq::new(
        orders.len(),
        |i: int|
            Event::cancelled(
                orders[i].order_id,
                orders[i].account_id,
                CancelReason::MassCancel,
            ),
    )
}

/// A mass cancel takes every order of the account off the book. A refusal
/// names no order; its report carries order id 1.
pub open spec fn mass_cancel(m: Market, msg: MassCancel) -> Outcome {
    match kill_verdict(m.killed) {
        Err(reason) => refuse(m, Event::rejected(OrderId::of(1), msg.account_id, reason)),
        Ok(()) => Outcome {
            market: Market { book: m.book.without_account(msg.account_id), ..m },
            events: mass_events(m.book.owned_by(msg.account_id)),
            trades: 0,
        },
    }
}

/// The kill switch is put in a position; nothing is published.
pub open spec fn kill_switch(m: Market, msg: KillSwitchSet) -> Outcome {
    Outcome {
        market: Market { killed: msg.state == KillSwitchState::Halt, ..m },
        events: Seq::empty(),
        trades: 0,
    }
}

/// Best price of a side, with the quantity that rests there.
pub open spec fn top_of(book: BookModel, side: Side) -> Option<(Price, Qty)> {
    match book.best(side) {
        None => None,
        Some(p) => Some((p, level_at(book.queue(side), p).qty)),
    }
}

/// Top of book.
pub open spec fn top(book: BookModel) -> Event {
    Event::Top { bid: top_of(book, Side::Bid), ask: top_of(book, Side::Ask) }
}

/// A command that may change the book is followed by a delta for every
/// level that changed, and then by the top of the book.
pub open spec fn with_book_changes(before: Market, o: Outcome) -> Outcome {
    Outcome {
        events: o.events + deltas(before.book, o.market.book).push(top(o.market.book)),
        ..o
    }
}

/// What a command does by itself. A snapshot request changes nothing and is
/// answered by a message of its own kind.
pub open spec fn command(m: Market, msg: Inbound, trade: u64) -> Outcome {
    match msg {
        Inbound::NewOrder(msg) => new_order(m, msg, trade),
        Inbound::CancelOrder(msg) => cancel_order(m, msg),
        Inbound::CancelReplace(msg) => cancel_replace(m, msg, trade),
        Inbound::MassCancel(msg) => mass_cancel(m, msg),
        Inbound::KillSwitchSet(msg) => kill_switch(m, msg),
        Inbound::SnapshotRequest(_) => Outcome { market: m, events: Seq::empty(), trades: 0 },
    }
}

/// A command that may change the book.
pub open spec fn is_book_command(msg: Inbound) -> bool {
    !(msg is KillSwitchSet) && !(msg is SnapshotRequest)
}

/// What a command comes to.
pub open spec fn outcome(m: Market, msg: Inbound, trade: u64) -> Outcome {
    if is_book_command(msg) {
        with_book_changes(m, command(m, msg, trade))
    } else {
        command(m, msg, trade)
    }
}

} // verus!
