//! What a subscriber that keeps a copy of the levels sees.

use vstd::prelude::*;

use crate::domain::{group_newtypes, Clock, Price, Qty, RecvTs, Side};
use crate::engine::engine::{answers, emit_ts, message_count, snapshot, stamped};
use crate::engine::event::Event;
use crate::engine::l2::{
    changes_level, deltas, deltas_reconstruct, level_of, mirrored, mirrored_concat, qty_in,
    snapshot_shows_levels,
};
use crate::engine::laws::{in_domain, outcome_sound};
use crate::engine::model::{
    amended, command, execute, fill_events, is_book_command, outcome, self_trade_events, taker_of,
    top, Market,
};
use crate::engine::runs::{published, run};
use crate::matching::laws::levels_best_first;
use crate::matching::model::{better, levels, sweep};
use crate::matching::types::{AggressiveOrder, Fill, Level};
use crate::wire::inbound::{Inbound, SnapshotRequest};
use crate::wire::outbound::{OutboundView, SnapshotView};

verus! {

broadcast use group_newtypes;

/// No event of the run is a level change.
pub open spec fn no_delta(events: Seq<Event>) -> bool {
    forall|i: int| 0 <= i < events.len() ==> !((#[trigger] events[i]) is Delta)
}

/// A mirror takes nothing from a run without level changes.
proof fn no_delta_ignored(events: Seq<Event>, side: Side, price: Price, before: Option<Qty>)
    requires
        no_delta(events),
    ensures
        mirrored(events, side, price, before) == before,
    decreases events.len(),
{
    if events.len() > 0 {
        let rest = events.drop_first();
        assert(!(events[0] is Delta));
        assert forall|i: int| 0 <= i < rest.len() implies !((#[trigger] rest[i]) is Delta) by {
            assert(rest[i] == events[i + 1]);
        }
        no_delta_ignored(rest, side, price, before);
    }
}

/// Fills are no level changes.
proof fn fill_events_no_delta(fills: Seq<Fill>, taker: AggressiveOrder, left: u64)
    ensures
        no_delta(fill_events(fills, taker, left)),
    decreases fills.len(),
{
    if fills.len() > 0 {
        fill_events_no_delta(fills.drop_first(), taker, (left - fills[0].qty@) as u64);
    }
}

/// Executing a taker publishes no level change.
proof fn execute_no_delta(m: Market, taker: AggressiveOrder, trade: u64)
    ensures
        no_delta(execute(m, taker, trade).events),
{
    let w = sweep(m.book, taker, trade);
    fill_events_no_delta(w.fills, taker, taker.qty@);
    let tail = self_trade_events(w.self_trade, taker);
    assert(no_delta(tail));
}

/// A command by itself publishes no level change.
pub proof fn command_no_delta(m: Market, msg: Inbound, trade: u64)
    ensures
        no_delta(command(m, msg, trade).events),
{
    match msg {
        Inbound::NewOrder(n) => {
            execute_no_delta(m, taker_of(n), trade);
        },
        Inbound::CancelReplace(c) => {
            let gone = Market { book: m.book.without(c.key()), ..m };
            execute_no_delta(gone, amended(m.book.lookup(c.key())->0, c), trade);
        },
        _ => {},
    }
}

/// A mirror of the book that takes in what a command publishes is a mirror
/// of the book after it.
#[verifier::spinoff_prover]
#[verifier::rlimit(30)]
proof fn mirror_follows_command(m: Market, msg: Inbound, trade: u64, side: Side, price: Price)
    requires
        m.sound(),
        in_domain(msg),
    ensures
        mirrored(
            outcome(m, msg, trade).events,
            side,
            price,
            level_of(m.book, side, price),
        ) == level_of(outcome(m, msg, trade).market.book, side, price),
{
    let before = level_of(m.book, side, price);
    let c = command(m, msg, trade);
    outcome_sound(m, msg, trade);
    command_no_delta(m, msg, trade);
    no_delta_ignored(c.events, side, price, before);
    if is_book_command(msg) {
        let d = deltas(m.book, c.market.book);
        let t = seq![top(c.market.book)];
        deltas_reconstruct(m.book, c.market.book, side, price);
        no_delta_ignored(t, side, price, level_of(c.market.book, side, price));
        mirrored_concat(d, t, side, price, before);
        mirrored_concat(c.events, d + t, side, price, before);
        assert(d.push(top(c.market.book)) =~= d + t);
    }
}

/// Snapshot plus deltas: a mirror that starts from a snapshot and takes in
/// everything that any run of commands publishes holds, at every price,
/// what a snapshot after the run shows there.
pub proof fn mirror_follows_run(
    m: Market,
    msgs: Seq<Inbound>,
    trade: u64,
    side: Side,
    price: Price,
)
    requires
        m.sound(),
        forall|i: int| 0 <= i < msgs.len() ==> in_domain(#[trigger] msgs[i]),
    ensures
        run(m, msgs, trade).market.sound(),
        mirrored(
            run(m, msgs, trade).events,
            side,
            price,
            qty_in(levels(m.book.queue(side)), price),
        ) == qty_in(levels(run(m, msgs, trade).market.book.queue(side)), price),
    decreases msgs.len(),
{
    snapshot_shows_levels(m.book, side, price);
    if msgs.len() > 0 {
        let first = outcome(m, msgs[0], trade);
        let next = (trade + first.trades) as u64;
        let rest = msgs.drop_first();
        assert(in_domain(msgs[0]));
        assert forall|i: int| 0 <= i < rest.len() implies in_domain(#[trigger] rest[i]) by {
            assert(rest[i] == msgs[i + 1]);
        }
        outcome_sound(m, msgs[0], trade);
        mirror_follows_command(m, msgs[0], trade, side, price);
        mirror_follows_run(first.market, rest, next, side, price);
        snapshot_shows_levels(first.market.book, side, price);
        mirrored_concat(
            first.events,
            run(first.market, rest, next).events,
            side,
            price,
            level_of(m.book, side, price),
        );
    }
}

/// What a mirror that held `before` for the level at `price` of `side`
/// holds for it after a message.
pub open spec fn taken(
    msg: OutboundView,
    side: Side,
    price: Price,
    before: Option<Qty>,
) -> Option<Qty> {
    match msg {
        OutboundView::BookUpdateL2Delta(d) => if d.side == side && d.price == price {
            d.new_qty
        } else {
            before
        },
        _ => before,
    }
}

/// What a mirror that held `before` for the level at `price` of `side`
/// holds for it after a run of messages.
pub open spec fn mirrored_stream(
    log: Seq<OutboundView>,
    side: Side,
    price: Price,
    before: Option<Qty>,
) -> Option<Qty>
    decreases log.len(),
{
    if log.len() == 0 {
        before
    } else {
        mirrored_stream(log.drop_first(), side, price, taken(log[0], side, price, before))
    }
}

/// The levels of one side in a snapshot.
pub open spec fn side_of(s: SnapshotView, side: Side) -> Seq<Level> {
    match side {
        Side::Bid => s.bids,
        Side::Ask => s.asks,
    }
}

/// `s` is the answer to a snapshot request in this market.
pub open spec fn is_snapshot(s: SnapshotView, m: Market) -> bool {
    OutboundView::SnapshotResponse(s) == snapshot(
        m,
        SnapshotRequest { request_id: s.request_id },
        s.engine_seq@,
        s.recv_ts,
        s.emit_ts,
    )
}

/// The message is a level change if and only if the event is, and the same.
spec fn tells(msg: OutboundView, e: Event) -> bool {
    match msg {
        OutboundView::BookUpdateL2Delta(d) => e == (Event::Delta {
            side: d.side,
            price: d.price,
            new_qty: d.new_qty,
        }),
        _ => !(e is Delta),
    }
}

/// A mirror takes from messages what it takes from their events.
proof fn mirrors_agree(
    log: Seq<OutboundView>,
    events: Seq<Event>,
    side: Side,
    price: Price,
    before: Option<Qty>,
)
    requires
        log.len() == events.len(),
        forall|i: int| 0 <= i < log.len() ==> tells(#[trigger] log[i], events[i]),
    ensures
        mirrored_stream(log, side, price, before) == mirrored(events, side, price, before),
    decreases log.len(),
{
    if log.len() > 0 {
        let l = log.drop_first();
        let e = events.drop_first();
        assert(tells(log[0], events[0]));
        assert forall|i: int| 0 <= i < l.len() implies tells(#[trigger] l[i], e[i]) by {
            assert(tells(log[i + 1], events[i + 1]));
        }
        let held = if changes_level(events[0], side, price) {
            events[0]->Delta_new_qty
        } else {
            before
        };
        mirrors_agree(l, e, side, price, held);
    }
}

/// A mirror takes in one part of a stream after another.
proof fn mirrored_stream_concat(
    a: Seq<OutboundView>,
    b: Seq<OutboundView>,
    side: Side,
    price: Price,
    before: Option<Qty>,
)
    ensures
        mirrored_stream(a + b, side, price, before) == mirrored_stream(
            b,
            side,
            price,
            mirrored_stream(a, side, price, before),
        ),
    decreases a.len(),
{
    if a.len() == 0 {
        assert(a + b =~= b);
    } else {
        assert((a + b).drop_first() =~= a.drop_first() + b);
        assert((a + b)[0] == a[0]);
        mirrored_stream_concat(
            a.drop_first(),
            b,
            side,
            price,
            taken(a[0], side, price, before),
        );
    }
}

/// A mirror takes from what a command publishes what it takes from its
/// events.
proof fn answers_mirror<C: Clock>(
    clock: C,
    m: Market,
    msg: Inbound,
    trade: u64,
    first: u64,
    recv: RecvTs,
    new: Seq<OutboundView>,
    side: Side,
    price: Price,
    before: Option<Qty>,
)
    requires
        answers(clock, m, msg, trade, first, recv, new),
    ensures
        mirrored_stream(new, side, price, before) == mirrored(
            outcome(m, msg, trade).events,
            side,
            price,
            before,
        ),
{
    let events = outcome(m, msg, trade).events;
    if msg is SnapshotRequest {
        assert(new[0] is SnapshotResponse);
        assert(new.drop_first() =~= Seq::<OutboundView>::empty());
        assert(mirrored_stream(new.drop_first(), side, price, before) == before);
    } else {
        assert forall|i: int| 0 <= i < new.len() implies tells(#[trigger] new[i], events[i]) by {
            assert(new[i] == stamped(events[i], (first + i) as u64, recv, emit_ts(new[i])));
        }
        mirrors_agree(new, events, side, price, before);
    }
}

/// A mirror takes from two parts of a stream what it takes from their
/// events.
proof fn mirrors_join(
    a: Seq<OutboundView>,
    b: Seq<OutboundView>,
    e: Seq<Event>,
    f: Seq<Event>,
    side: Side,
    price: Price,
    before: Option<Qty>,
)
    requires
        mirrored_stream(a, side, price, before) == mirrored(e, side, price, before),
        mirrored_stream(b, side, price, mirrored(e, side, price, before)) == mirrored(
            f,
            side,
            price,
            mirrored(e, side, price, before),
        ),
    ensures
        mirrored_stream(a + b, side, price, before) == mirrored(e + f, side, price, before),
{
    mirrored_stream_concat(a, b, side, price, before);
    mirrored_concat(e, f, side, price, before);
}

/// What a mirror takes from a stream is what it takes from the events of the
/// run.
#[verifier::spinoff_prover]
#[verifier::rlimit(30)]
proof fn published_mirror<C: Clock>(
    clocks: Seq<C>,
    m: Market,
    msgs: Seq<Inbound>,
    trade: u64,
    first: u64,
    log: Seq<OutboundView>,
    side: Side,
    price: Price,
    before: Option<Qty>,
)
    requires
        published(clocks, m, msgs, trade, first, log),
    ensures
        mirrored_stream(log, side, price, before) == mirrored(
            run(m, msgs, trade).events,
            side,
            price,
            before,
        ),
    decreases msgs.len(),
{
    if msgs.len() > 0 {
        let o = outcome(m, msgs[0], trade);
        let n = message_count(m, msgs[0], trade) as int;
        let new = log.take(n);
        let rest = log.skip(n);
        let recv = choose|recv: RecvTs| #[trigger]
            answers(clocks[0], m, msgs[0], trade, first, recv, new);
        answers_mirror(clocks[0], m, msgs[0], trade, first, recv, new, side, price, before);
        let held = mirrored(o.events, side, price, before);
        let next = (trade + o.trades) as u64;
        published_mirror(
            clocks.drop_first(),
            o.market,
            msgs.drop_first(),
            next,
            (first + n) as u64,
            rest,
            side,
            price,
            held,
        );
        assert(log =~= new + rest);
        let later = run(o.market, msgs.drop_first(), next).events;
        mirrors_join(new, rest, o.events, later, side, price, before);
    }
}

/// Snapshot plus deltas, as a client sees them: a mirror that starts from a
/// snapshot and takes in every level change of the stream that any run of
/// commands publishes holds, at every price, what a snapshot after the run
/// shows there. A snapshot shows each price once, best first, with a
/// quantity above zero.
pub proof fn stream_mirrors_book<C: Clock>(
    clocks: Seq<C>,
    m: Market,
    msgs: Seq<Inbound>,
    trade: u64,
    first: u64,
    log: Seq<OutboundView>,
    before: SnapshotView,
    after: SnapshotView,
    side: Side,
    price: Price,
)
    requires
        m.sound(),
        forall|i: int| 0 <= i < msgs.len() ==> in_domain(#[trigger] msgs[i]),
        published(clocks, m, msgs, trade, first, log),
        is_snapshot(before, m),
        is_snapshot(after, run(m, msgs, trade).market),
    ensures
        mirrored_stream(log, side, price, qty_in(side_of(before, side), price)) == qty_in(
            side_of(after, side),
            price,
        ),
        forall|i: int, j: int|
            0 <= i < j < side_of(after, side).len() ==> better(
                side,
                (#[trigger] side_of(after, side)[i]).price,
                (#[trigger] side_of(after, side)[j]).price,
            ),
        forall|i: int|
            0 <= i < side_of(after, side).len() ==> (#[trigger] side_of(after, side)[i]).qty@ > 0,
{
    mirror_follows_run(m, msgs, trade, side, price);
    published_mirror(
        clocks,
        m,
        msgs,
        trade,
        first,
        log,
        side,
        price,
        qty_in(side_of(before, side), price),
    );
    let q = run(m, msgs, trade).market.book.queue(side);
    levels_best_first(side, q);
    assert(side_of(after, side) == levels(q));
}

} // verus!
