//! The engine: a pipeline with a clock, an id source and a sink.

use vstd::prelude::*;

use crate::domain::{group_newtypes, Clock, EngineSeq, IdGenerator, RecvTs};
use crate::engine::event::Event;
use crate::engine::lemmas::mirrors;
use crate::engine::model::{outcome, Market};
use crate::engine::pipeline::Pipeline;
use crate::marketdata::OutboundSink;
use crate::matching::model::levels;
use crate::matching::types::{Fill, RestingOrder};
use crate::matching::Book;
use crate::risk::RiskState;
use crate::wire::inbound::{Inbound, SnapshotRequest};
use crate::wire::outbound::{
    BookUpdateL2Delta, BookUpdateTop, ExecReport, Outbound, OutboundView, SnapshotResponse,
    SnapshotView, TradePrint,
};

verus! {

broadcast use group_newtypes;

/// An event with its sequence number and its timestamps: a report carries
/// when its command came in, every message when it went out.
pub open spec fn stamped(e: Event, seq: u64, recv: RecvTs, emit: RecvTs) -> OutboundView {
    match e {
        Event::Exec {
            order_id,
            account_id,
            state,
            fill_price,
            fill_qty,
            leaves_qty,
            reject_reason,
            cancel_reason,
        } => OutboundView::ExecReport(
            ExecReport {
                engine_seq: EngineSeq::of(seq),
                order_id,
                account_id,
                state,
                fill_price,
                fill_qty,
                leaves_qty,
                reject_reason,
                cancel_reason,
                recv_ts: recv,
                emit_ts: emit,
            },
        ),
        Event::Trade { trade_id, price, qty, aggressor_side } => OutboundView::TradePrint(
            TradePrint {
                engine_seq: EngineSeq::of(seq),
                trade_id,
                price,
                qty,
                aggressor_side,
                emit_ts: emit,
            },
        ),
        Event::Delta { side, price, new_qty } => OutboundView::BookUpdateL2Delta(
            BookUpdateL2Delta {
                engine_seq: EngineSeq::of(seq),
                price,
                new_qty,
                side,
                emit_ts: emit,
            },
        ),
        Event::Top { bid, ask } => OutboundView::BookUpdateTop(
            BookUpdateTop { engine_seq: EngineSeq::of(seq), bid, ask, emit_ts: emit },
        ),
    }
}

/// The answer to a snapshot request: every level of the book, best first.
pub open spec fn snapshot(
    m: Market,
    msg: SnapshotRequest,
    seq: u64,
    recv: RecvTs,
    emit: RecvTs,
) -> OutboundView {
    OutboundView::SnapshotResponse(
        SnapshotView {
            engine_seq: EngineSeq::of(seq),
            request_id: msg.request_id,
            recv_ts: recv,
            emit_ts: emit,
            bids: levels(m.book.bids),
            asks: levels(m.book.asks),
        },
    )
}

/// Number of messages that a command gives rise to.
pub open spec fn message_count(m: Market, msg: Inbound, trade: u64) -> nat {
    match msg {
        Inbound::SnapshotRequest(_) => 1,
        _ => outcome(m, msg, trade).events.len(),
    }
}

/// The `i`-th message that a command gives rise to.
pub open spec fn message(
    m: Market,
    msg: Inbound,
    trade: u64,
    i: int,
    seq: u64,
    recv: RecvTs,
    emit: RecvTs,
) -> OutboundView {
    match msg {
        Inbound::SnapshotRequest(msg) => snapshot(m, msg, seq, recv, emit),
        _ => stamped(outcome(m, msg, trade).events[i], seq, recv, emit),
    }
}

/// When a message went out.
pub open spec fn emit_ts(msg: OutboundView) -> RecvTs {
    match msg {
        OutboundView::ExecReport(m) => m.emit_ts,
        OutboundView::TradePrint(m) => m.emit_ts,
        OutboundView::BookUpdateTop(m) => m.emit_ts,
        OutboundView::BookUpdateL2Delta(m) => m.emit_ts,
        OutboundView::SnapshotResponse(m) => m.emit_ts,
    }
}

/// Sequence number of a message.
pub open spec fn seq_of(msg: OutboundView) -> EngineSeq {
    match msg {
        OutboundView::ExecReport(m) => m.engine_seq,
        OutboundView::TradePrint(m) => m.engine_seq,
        OutboundView::BookUpdateTop(m) => m.engine_seq,
        OutboundView::BookUpdateL2Delta(m) => m.engine_seq,
        OutboundView::SnapshotResponse(m) => m.engine_seq,
    }
}

/// `new` is what a command that came in at `recv` publishes: its messages
/// in order, numbered without a gap from `first`, each stamped with a
/// reading of the clock.
pub open spec fn answers<C: Clock>(
    clock: C,
    m: Market,
    msg: Inbound,
    trade: u64,
    first: u64,
    recv: RecvTs,
    new: Seq<OutboundView>,
) -> bool {
    &&& clock.reads(recv)
    &&& new.len() == message_count(m, msg, trade)
    &&& forall|i: int|
        0 <= i < new.len() ==> clock.reads(emit_ts(#[trigger] new[i])) && new[i] == message(
            m,
            msg,
            trade,
            i,
            (first + i) as u64,
            recv,
            emit_ts(new[i]),
        )
}

/// Numbers and stamps an event.
fn stamp(e: Event, seq: EngineSeq, recv: RecvTs, emit: RecvTs) -> (r: Outbound)
    ensures
        r@ == stamped(e, seq@, recv, emit),
{
    match e {
        Event::Exec {
            order_id,
            account_id,
            state,
            fill_price,
            fill_qty,
            leaves_qty,
            reject_reason,
            cancel_reason,
        } => Outbound::ExecReport(
            ExecReport {
                engine_seq: seq,
                order_id,
                account_id,
                state,
                fill_price,
                fill_qty,
                leaves_qty,
                reject_reason,
                cancel_reason,
                recv_ts: recv,
                emit_ts: emit,
            },
        ),
        Event::Trade { trade_id, price, qty, aggressor_side } => Outbound::TradePrint(
            TradePrint { engine_seq: seq, trade_id, price, qty, aggressor_side, emit_ts: emit },
        ),
        Event::Delta { side, price, new_qty } => Outbound::BookUpdateL2Delta(
            BookUpdateL2Delta { engine_seq: seq, price, new_qty, side, emit_ts: emit },
        ),
        Event::Top { bid, ask } => Outbound::BookUpdateTop(
            BookUpdateTop { engine_seq: seq, bid, ask, emit_ts: emit },
        ),
    }
}

/// Single-writer engine: book, risk state, clock, id source and sink.
pub struct Engine<C: Clock, I: IdGenerator, S: OutboundSink> {
    core: Pipeline,
    clock: C,
    ids: I,
    sink: S,
    fills: Vec<Fill>,
    removed: Vec<RestingOrder>,
    events: Vec<Event>,
}

impl<C: Clock, I: IdGenerator, S: OutboundSink> Engine<C, I, S> {
    /// The market as it stands.
    pub closed spec fn market(&self) -> Market {
        self.core.market()
    }

    /// The book and the risk state are in order and in step.
    pub closed spec fn wf(&self) -> bool {
        self.core.wf()
    }

    /// The clock.
    pub closed spec fn the_clock(&self) -> C {
        self.clock
    }

    /// The id source.
    pub closed spec fn the_ids(&self) -> I {
        self.ids
    }

    /// The sink.
    pub closed spec fn the_sink(&self) -> S {
        self.sink
    }

    /// Everything published so far.
    pub open spec fn log(&self) -> Seq<OutboundView> {
        self.the_sink().emitted()
    }

    /// The counters can number everything that the command gives rise to.
    pub open spec fn has_room(&self, msg: Inbound) -> bool {
        let t = self.the_ids().next_trade();
        &&& t + outcome(self.market(), msg, t).trades <= u64::MAX
        &&& self.the_ids().next_seq() + message_count(self.market(), msg, t) <= u64::MAX
    }

    /// The market of an engine is sound at all times.
    pub proof fn market_sound(&self)
        requires
            self.wf(),
        ensures
            self.market().sound(),
    {
        self.core.market_sound();
    }

    /// A fresh engine: empty book, nothing traded, kill switch off.
    pub fn new(clock: C, ids: I, sink: S) -> (e: Self)
        ensures
            e.wf(),
            e.market() == Market::opening(),
            e.the_clock() == clock,
            e.the_ids() == ids,
            e.the_sink() == sink,
    {
        Engine {
            core: Pipeline::new(),
            clock,
            ids,
            sink,
            fills: Vec::with_capacity(128),
            removed: Vec::with_capacity(64),
            events: Vec::with_capacity(256),
        }
    }

    /// The book.
    pub fn book(&self) -> (b: &Book)
        ensures
            b@ == self.market().book,
            self.wf() ==> b@.wf(),
    {
        self.core.book()
    }

    /// The risk state.
    pub fn risk(&self) -> (r: &RiskState)
        ensures
            r@.killed == self.market().killed,
            r@.last_trade == self.market().last_trade,
            self.wf() ==> r@.wf() && mirrors(r@, self.market().book),
    {
        self.core.risk()
    }

    /// The sink, to drain what was published.
    pub fn sink_mut(&mut self) -> (s: &mut S)
        ensures
            *s == old(self).the_sink(),
            final(self).the_sink() == *final(s),
            final(self).market() == old(self).market(),
            final(self).the_clock() == old(self).the_clock(),
            final(self).the_ids() == old(self).the_ids(),
            final(self).wf() == old(self).wf(),
    {
        &mut self.sink
    }

    /// The clock.
    pub fn clock(&self) -> (c: &C)
        ensures
            *c == self.the_clock(),
    {
        &self.clock
    }

    /// The clock, to set it between commands of a replay.
    pub fn clock_mut(&mut self) -> (c: &mut C)
        ensures
            *c == old(self).the_clock(),
            final(self).the_clock() == *final(c),
            final(self).market() == old(self).market(),
            final(self).the_sink() == old(self).the_sink(),
            final(self).the_ids() == old(self).the_ids(),
            final(self).wf() == old(self).wf(),
    {
        &mut self.clock
    }

    /// Carries out one command and publishes what it gives rise to.
    ///
    /// A command that may change the book is followed by one
    /// `BookUpdateL2Delta` for every level that changed, ordered by side
    /// and ascending price, and then by one `BookUpdateTop`. A snapshot
    /// request is answered by one `SnapshotResponse`; setting the kill
    /// switch publishes nothing.
    pub fn step(&mut self, msg: Inbound)
        requires
            old(self).wf(),
            old(self).has_room(msg),
        ensures
            final(self).wf(),
            final(self).market().sound(),
            final(self).the_clock() == old(self).the_clock(),
            ({
                let m = old(self).market();
                let t = old(self).the_ids().next_trade();
                let first = old(self).the_ids().next_seq();
                &&& final(self).market() == outcome(m, msg, t).market
                &&& final(self).the_ids().next_trade() == t + outcome(m, msg, t).trades
                &&& final(self).the_ids().next_seq() == first + message_count(m, msg, t)
                &&& final(self).log().len() == old(self).log().len() + message_count(m, msg, t)
                &&& final(self).log().take(old(self).log().len() as int) == old(self).log()
                &&& exists|recv: RecvTs| #[trigger]
                    answers(
                        old(self).the_clock(),
                        m,
                        msg,
                        t,
                        first,
                        recv,
                        final(self).log().skip(old(self).log().len() as int),
                    )
            }),
    {
        let ghost m = self.market();
        let ghost t = self.ids.next_trade();
        let ghost first = self.ids.next_seq();
        let ghost log0 = self.log();
        let recv_ts = self.clock.now();
        if let Inbound::SnapshotRequest(request) = msg {
            self.publish_snapshot(request, recv_ts);
            proof {
                let new = self.log().skip(log0.len() as int);
                assert(self.log().take(log0.len() as int) =~= log0);
                assert(answers(self.clock, m, msg, t, first, recv_ts, new));
                self.core.market_sound();
            }
            return ;
        }
        self.events.clear();
        self.core.apply(msg, &mut self.ids, &mut self.fills, &mut self.removed, &mut self.events);
        let ghost events = outcome(m, msg, t).events;
        proof {
            assert(self.events@ =~= events);
        }
        let mut i: usize = 0;
        while i < self.events.len()
            invariant
                i <= self.events@.len(),
                self.events@ == events,
                events == outcome(m, msg, t).events,
                !(msg is SnapshotRequest),
                self.core.wf(),
                self.core.market() == outcome(m, msg, t).market,
                self.clock == old(self).the_clock(),
                self.clock.reads(recv_ts),
                self.ids.next_trade() == t + outcome(m, msg, t).trades,
                self.ids.next_seq() == first + i,
                first + events.len() <= u64::MAX,
                self.log().len() == log0.len() + i,
                self.log().take(log0.len() as int) == log0,
                forall|k: int|
                    0 <= k < i ==> self.clock.reads(
                        emit_ts(#[trigger] self.log().skip(log0.len() as int)[k]),
                    ) && self.log().skip(log0.len() as int)[k] == stamped(
                        events[k],
                        (first + k) as u64,
                        recv_ts,
                        emit_ts(self.log().skip(log0.len() as int)[k]),
                    ),
            decreases self.events@.len() - i,
        {
            let ghost before = self.log();
            let seq = self.ids.next_engine_seq();
            let emit = self.clock.now();
            let out = stamp(self.events[i], seq, recv_ts, emit);
            let ghost view = out@;
            self.sink.emit(out);
            proof {
                let old_new = before.skip(log0.len() as int);
                let new = self.log().skip(log0.len() as int);
                assert(self.log() == before.push(view));
                assert(self.log().take(log0.len() as int) =~= before.take(log0.len() as int));
                assert(new =~= old_new.push(view));
                assert forall|k: int| 0 <= k < i + 1 implies self.clock.reads(
                    emit_ts(#[trigger] new[k]),
                ) && new[k] == stamped(
                    events[k],
                    (first + k) as u64,
                    recv_ts,
                    emit_ts(new[k]),
                ) by {
                    if k < i {
                        assert(new[k] == old_new[k]);
                    }
                }
            }
            i = i + 1;
        }
        proof {
            let new = self.log().skip(log0.len() as int);
            assert(answers(self.clock, m, msg, t, first, recv_ts, new));
            self.core.market_sound();
        }
    }

    /// Publishes a dump of the book.
    fn publish_snapshot(&mut self, msg: SnapshotRequest, recv_ts: RecvTs)
        requires
            old(self).wf(),
            old(self).the_ids().next_seq() < u64::MAX,
        ensures
            final(self).wf(),
            final(self).market() == old(self).market(),
            final(self).the_clock() == old(self).the_clock(),
            final(self).the_ids().next_trade() == old(self).the_ids().next_trade(),
            final(self).the_ids().next_seq() == old(self).the_ids().next_seq() + 1,
            final(self).log().len() == old(self).log().len() + 1,
            final(self).log().drop_last() == old(self).log(),
            old(self).the_clock().reads(emit_ts(final(self).log().last())),
            final(self).log().last() == snapshot(
                old(self).market(),
                msg,
                old(self).the_ids().next_seq(),
                recv_ts,
                emit_ts(final(self).log().last()),
            ),
    {
        let bids = self.core.book().bid_levels();
        let asks = self.core.book().ask_levels();
        let response = SnapshotResponse {
            engine_seq: self.ids.next_engine_seq(),
            request_id: msg.request_id,
            recv_ts,
            emit_ts: self.clock.now(),
            bids,
            asks,
        };
        let ghost log0 = self.log();
        self.sink.emit(Outbound::SnapshotResponse(response));
        proof {
            assert(self.log().drop_last() =~= log0);
        }
    }
}

} // verus!
