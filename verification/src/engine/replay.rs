//! Replay of a recorded inbound stream.

use vstd::prelude::*;

use crate::domain::{group_newtypes, Clock, IdGenerator, RecvTs};
use crate::engine::bounds::{messages_bounded, order_count};
use crate::engine::clock::StubClock;
use crate::engine::engine::{answers, emit_ts, message, message_count, Engine};
use crate::engine::ids::CounterIdGenerator;
use crate::engine::laws::in_domain;
use crate::engine::model::{outcome, Market};
use crate::gateway::recorder::{
    broken_off, read_records, read_undoes_record, record_size, record_views, recording, records,
    whole_frame, RecordError, RecordView,
};
use crate::marketdata::encoder;
use crate::marketdata::sink::{views, OutboundSink, VecSink};
use crate::wire::codec::u32_at;
use crate::wire::error::WireError;
use crate::wire::framing::{complete, frame_payload, incomplete, Frame, MessageKind};
use crate::wire::inbound::{parse_frame, parsed, Inbound};
use crate::wire::outbound::{
    fits, framed, BookUpdateL2Delta, BookUpdateTop, ExecReport, Outbound, OutboundView,
    SnapshotView, TradePrint,
};

verus! {

broadcast use group_newtypes;

/// Why a recording cannot be replayed.
#[derive(Debug, Clone, Copy, PartialEq, Eq, Structural)]
pub enum ReplayError {
    /// The recording is corrupt.
    Record(RecordError),
    /// A recorded frame cannot be decoded, or a message not be framed.
    Wire(WireError),
}

/// What a replay has come to.
pub struct Replay {
    /// The market.
    pub market: Market,
    /// Next trade id.
    pub trade: u64,
    /// Next sequence number.
    pub seq: u64,
    /// Everything published so far.
    pub log: Seq<OutboundView>,
}

impl Replay {
    /// Before the first record: an empty market, both counters at `1`.
    pub open spec fn start() -> Replay {
        Replay { market: Market::opening(), trade: 1, seq: 1, log: Seq::empty() }
    }

    /// After a command that came in at `recv`. The clock stands still at
    /// that time while the command is carried out.
    pub open spec fn next(self, msg: Inbound, recv: RecvTs) -> Replay {
        let o = outcome(self.market, msg, self.trade);
        let n = message_count(self.market, msg, self.trade);
        Replay {
            market: o.market,
            trade: (self.trade + o.trades) as u64,
            seq: (self.seq + n) as u64,
            log: self.log + Seq::new(
                n,
                |i: int|
                    message(
                        self.market,
                        msg,
                        self.trade,
                        i,
                        (self.seq + i) as u64,
                        recv,
                        recv,
                    ),
            ),
        }
    }

    /// Everything published after a run of records, or why one of them is
    /// no command.
    pub open spec fn run(self, recs: Seq<RecordView>) -> Result<Seq<OutboundView>, WireError>
        decreases recs.len(),
    {
        if recs.len() == 0 {
            Ok(self.log)
        } else {
            match command_in(recs[0].frame) {
                Err(e) => Err(e),
                Ok(msg) => self.next(msg, recs[0].recv_ts).run(recs.drop_first()),
            }
        }
    }
}

/// The command that a recorded frame holds.
pub open spec fn command_in(frame: Seq<u8>) -> Result<Inbound, WireError> {
    if !complete(frame) {
        Err(incomplete(frame))
    } else {
        match MessageKind::from_code(frame[4]) {
            None => Err(WireError::UnknownKind(frame[4])),
            Some(kind) => parsed(kind, frame_payload(frame)),
        }
    }
}

/// The message with every timestamp set to zero.
pub open spec fn untimed(msg: OutboundView) -> OutboundView {
    let zero = RecvTs::of(0);
    match msg {
        OutboundView::ExecReport(m) => OutboundView::ExecReport(
            ExecReport { recv_ts: zero, emit_ts: zero, ..m },
        ),
        OutboundView::TradePrint(m) => OutboundView::TradePrint(TradePrint { emit_ts: zero, ..m }),
        OutboundView::BookUpdateTop(m) => OutboundView::BookUpdateTop(
            BookUpdateTop { emit_ts: zero, ..m },
        ),
        OutboundView::BookUpdateL2Delta(m) => OutboundView::BookUpdateL2Delta(
            BookUpdateL2Delta { emit_ts: zero, ..m },
        ),
        OutboundView::SnapshotResponse(m) => OutboundView::SnapshotResponse(
            SnapshotView { recv_ts: zero, emit_ts: zero, ..m },
        ),
    }
}

/// A message as it goes into the output of a replay.
pub open spec fn shown(msg: OutboundView, no_timestamps: bool) -> OutboundView {
    if no_timestamps {
        untimed(msg)
    } else {
        msg
    }
}

/// The bytes of a run of messages.
pub open spec fn stream(log: Seq<OutboundView>, no_timestamps: bool) -> Result<Seq<u8>, WireError>
    decreases log.len(),
{
    if log.len() == 0 {
        Ok(Seq::empty())
    } else if !fits(shown(log[0], no_timestamps)) {
        Err(WireError::PayloadTooLarge)
    } else {
        match stream(log.drop_first(), no_timestamps) {
            Err(e) => Err(e),
            Ok(rest) => Ok(framed(shown(log[0], no_timestamps)) + rest),
        }
    }
}

/// What a replay of a recording gives. A broken-off last record is left
/// out.
pub open spec fn replay(bytes: Seq<u8>, no_timestamps: bool) -> Result<Seq<u8>, ReplayError> {
    match records(bytes) {
        Err(e) => Err(ReplayError::Record(e)),
        Ok((recs, _trailing)) => match Replay::start().run(recs) {
            Err(e) => Err(ReplayError::Wire(e)),
            Ok(log) => match stream(log, no_timestamps) {
                Err(e) => Err(ReplayError::Wire(e)),
                Ok(out) => Ok(out),
            },
        },
    }
}

/// Every record takes at least thirteen bytes.
proof fn records_take_room(bytes: Seq<u8>)
    ensures
        records(bytes) matches Ok((recs, _trailing)) ==> 13 * recs.len() <= bytes.len(),
    decreases bytes.len(),
{
    if bytes.len() >= 4 && u32_at(bytes, 0) >= 1 && bytes.len() >= record_size(
        bytes,
    ) {
        records_take_room(bytes.skip(record_size(bytes) as int));
    }
}

/// What is decoded is within its domain.
proof fn decoded_in_domain(kind: MessageKind, p: Seq<u8>)
    ensures
        parsed(kind, p) matches Ok(msg) ==> in_domain(msg),
{
}

/// Sets every timestamp of a message to zero.
pub fn zero_timestamps(ev: &mut Outbound)
    ensures
        final(ev)@ == untimed(old(ev)@),
{
    match ev {
        Outbound::ExecReport(r) => {
            r.recv_ts = RecvTs::new(0);
            r.emit_ts = RecvTs::new(0);
        },
        Outbound::TradePrint(t) => {
            t.emit_ts = RecvTs::new(0);
        },
        Outbound::BookUpdateTop(b) => {
            b.emit_ts = RecvTs::new(0);
        },
        Outbound::BookUpdateL2Delta(d) => {
            d.emit_ts = RecvTs::new(0);
        },
        Outbound::SnapshotResponse(s) => {
            s.recv_ts = RecvTs::new(0);
            s.emit_ts = RecvTs::new(0);
        },
    }
}

/// Encodes a run of messages.
fn write_stream(msgs: Vec<Outbound>, no_timestamps: bool) -> (r: Result<Vec<u8>, WireError>)
    ensures
        match r {
            Ok(out) => stream(views(msgs@), no_timestamps) == Ok::<Seq<u8>, WireError>(out@),
            Err(e) => stream(views(msgs@), no_timestamps) == Err::<Seq<u8>, WireError>(e),
        },
{
    let ghost log = views(msgs@);
    let mut left = msgs;
    let ghost all = stream(log, no_timestamps);
    let mut out: Vec<u8> = Vec::new();
    let mut i: usize = 0;
    proof {
        assert(log.skip(0) =~= log);
        if let Ok(rest) = all {
            assert(Seq::<u8>::empty() + rest =~= rest);
        }
    }
    while i < left.len()
        invariant
            i <= left@.len(),
            left@.len() == log.len(),
            log == views(msgs@),
            forall|k: int| i <= k < log.len() ==> (#[trigger] left@[k])@ == log[k],
            all == stream(log, no_timestamps),
            match stream(log.skip(i as int), no_timestamps) {
                Ok(rest) => all == Ok::<Seq<u8>, WireError>(out@ + rest),
                Err(e) => all == Err::<Seq<u8>, WireError>(e),
            },
        decreases left@.len() - i,
    {
        let ghost tail = log.skip(i as int);
        let ghost before = out@;
        proof {
            assert(tail[0] == log[i as int]);
            assert(tail.drop_first() =~= log.skip(i + 1));
            assert(left@[i as int]@ == log[i as int]);
        }
        if no_timestamps {
            zero_timestamps(&mut left[i]);
        }
        match encoder::encode(&left[i], &mut out) {
            Ok(()) => {},
            Err(e) => return Err(e),
        }
        proof {
            if let Ok(rest) = stream(tail.drop_first(), no_timestamps) {
                let f = framed(shown(tail[0], no_timestamps));
                assert(before + (f + rest) =~= out@ + rest);
            }
        }
        i = i + 1;
    }
    proof {
        assert(log.skip(i as int) =~= Seq::<OutboundView>::empty());
        assert(out@ + Seq::<u8>::empty() =~= out@);
    }
    Ok(out)
}

/// Engine of a replay.
type ReplayEngine = Engine<StubClock, CounterIdGenerator, VecSink>;

/// What a replay has come to, as its engine shows it.
spec fn state_of(engine: ReplayEngine) -> Replay {
    Replay {
        market: engine.market(),
        trade: engine.the_ids().next_trade(),
        seq: engine.the_ids().next_seq(),
        log: engine.log(),
    }
}

/// The messages and resting orders so far, weighted as the bound on
/// messages weighs them.
spec fn load(engine: ReplayEngine) -> int {
    engine.the_ids().next_seq() + 4 * order_count(engine.market().book)
}

/// Replays one record.
fn replay_record(engine: &mut ReplayEngine, frame: &[u8], recv_ts: RecvTs) -> (r: Result<
    (),
    WireError,
>)
    requires
        old(engine).wf(),
        old(engine).the_ids().next_trade() <= old(engine).the_ids().next_seq(),
        load(*old(engine)) + 12 <= u64::MAX,
    ensures
        match command_in(frame@) {
            Err(e) => r == Err::<(), WireError>(e),
            Ok(msg) => {
                &&& r is Ok
                &&& final(engine).wf()
                &&& final(engine).the_ids().next_trade() <= final(engine).the_ids().next_seq()
                &&& load(*final(engine)) <= load(*old(engine)) + 12
                &&& state_of(*final(engine)) == state_of(*old(engine)).next(msg, recv_ts)
            },
        },
{
    let ghost s = state_of(*engine);
    engine.clock_mut().set(recv_ts.as_nanos());
    let frame = match Frame::parse(frame) {
        Ok((frame, _total)) => frame,
        Err(e) => return Err(e),
    };
    let msg = match parse_frame(frame) {
        Ok(msg) => msg,
        Err(e) => return Err(e),
    };
    proof {
        decoded_in_domain(frame.kind, frame.payload@);
        engine.market_sound();
        messages_bounded(s.market, msg, s.trade);
    }
    let ghost clock = engine.the_clock();
    engine.step(msg);
    proof {
        let n = s.log.len() as int;
        let new = engine.log().skip(n);
        let recv = choose|recv: RecvTs| #[trigger]
            answers(clock, s.market, msg, s.trade, s.seq, recv, new);
        let t = s.next(msg, recv_ts);
        assert(recv == recv_ts);
        assert(engine.log() =~= engine.log().take(n) + new);
        assert forall|k: int| 0 <= k < new.len() implies #[trigger] new[k] == message(
            s.market,
            msg,
            s.trade,
            k,
            (s.seq + k) as u64,
            recv_ts,
            recv_ts,
        ) by {
            assert(clock.reads(emit_ts(new[k])));
        }
        assert(engine.log() =~= t.log);
    }
    Ok(())
}

/// Drives a fresh engine over a recording and returns the bytes of the
/// outbound stream. With `no_timestamps` every timestamp in it is zero.
///
/// The result depends on the two arguments alone.
pub fn replay_bytes(bytes: &[u8], no_timestamps: bool) -> (r: Result<Vec<u8>, ReplayError>)
    ensures
        match r {
            Ok(out) => replay(bytes@, no_timestamps) == Ok::<Seq<u8>, ReplayError>(out@),
            Err(e) => replay(bytes@, no_timestamps) == Err::<Seq<u8>, ReplayError>(e),
        },
{
    let len: usize = bytes.len();
    let (recs, _trailing) = match read_records(bytes) {
        Ok(v) => v,
        Err(e) => return Err(ReplayError::Record(e)),
    };
    let ghost all = record_views(recs@);
    let mut engine = Engine::new(StubClock::new(0), CounterIdGenerator::new(), VecSink::new());
    let mut i: usize = 0;
    proof {
        records_take_room(bytes@);
        assert(all.skip(0) =~= all);
    }
    while i < recs.len()
        invariant
            i <= recs@.len(),
            all == record_views(recs@),
            records(bytes@) matches Ok((rs, _t)) && rs == all,
            13 * recs@.len() <= len,
            engine.wf(),
            engine.the_ids().next_trade() <= engine.the_ids().next_seq(),
            load(engine) <= 1 + 12 * i,
            Replay::start().run(all) == state_of(engine).run(all.skip(i as int)),
        decreases recs@.len() - i,
    {
        let rec = recs[i];
        proof {
            let tail = all.skip(i as int);
            assert(tail[0] == rec@);
            assert(tail.drop_first() =~= all.skip(i + 1));
        }
        match replay_record(&mut engine, rec.frame, rec.recv_ts) {
            Ok(()) => {},
            Err(e) => return Err(ReplayError::Wire(e)),
        }
        i = i + 1;
    }
    proof {
        assert(all.skip(i as int) =~= Seq::<RecordView>::empty());
    }
    let ghost log = engine.log();
    let events = engine.sink_mut().take();
    proof {
        assert(views(events@) =~= log);
    }
    match write_stream(events, no_timestamps) {
        Ok(out) => Ok(out),
        Err(e) => Err(ReplayError::Wire(e)),
    }
}

/// The same records but for the times at which they came in.
pub open spec fn same_frames(a: Seq<RecordView>, b: Seq<RecordView>) -> bool {
    &&& a.len() == b.len()
    &&& forall|i: int| 0 <= i < a.len() ==> (#[trigger] a[i]).frame == b[i].frame
}

/// The same messages but for their timestamps.
pub open spec fn same_untimed(a: Seq<OutboundView>, b: Seq<OutboundView>) -> bool {
    &&& a.len() == b.len()
    &&& forall|i: int| 0 <= i < a.len() ==> untimed(#[trigger] a[i]) == untimed(b[i])
}

/// Runs over the same frames publish the same but for timestamps.
proof fn runs_agree(s: Replay, t: Replay, a: Seq<RecordView>, b: Seq<RecordView>)
    requires
        s.market == t.market,
        s.trade == t.trade,
        s.seq == t.seq,
        same_untimed(s.log, t.log),
        same_frames(a, b),
    ensures
        match (s.run(a), t.run(b)) {
            (Ok(x), Ok(y)) => same_untimed(x, y),
            (Err(x), Err(y)) => x == y,
            _ => false,
        },
    decreases a.len(),
{
    if a.len() > 0 {
        assert(a[0].frame == b[0].frame);
        if let Ok(msg) = command_in(a[0].frame) {
            let s1 = s.next(msg, a[0].recv_ts);
            let t1 = t.next(msg, b[0].recv_ts);
            assert forall|i: int| 0 <= i < s1.log.len() implies untimed(#[trigger] s1.log[i])
                == untimed(t1.log[i]) by {
                if i < s.log.len() {
                    assert(s1.log[i] == s.log[i]);
                    assert(t1.log[i] == t.log[i]);
                }
            }
            assert forall|i: int| 0 <= i < a.drop_first().len() implies (
            #[trigger] a.drop_first()[i]).frame == b.drop_first()[i].frame by {
                assert(a[i + 1].frame == b[i + 1].frame);
            }
            runs_agree(s1, t1, a.drop_first(), b.drop_first());
        }
    }
}

/// Without timestamps, messages that differ only in them give the same
/// bytes.
proof fn streams_agree(a: Seq<OutboundView>, b: Seq<OutboundView>)
    requires
        same_untimed(a, b),
    ensures
        stream(a, true) == stream(b, true),
    decreases a.len(),
{
    if a.len() > 0 {
        assert(untimed(a[0]) == untimed(b[0]));
        assert forall|i: int| 0 <= i < a.drop_first().len() implies untimed(
            #[trigger] a.drop_first()[i],
        ) == untimed(b.drop_first()[i]) by {
            assert(untimed(a[i + 1]) == untimed(b[i + 1]));
        }
        streams_agree(a.drop_first(), b.drop_first());
    }
}

/// With timestamps suppressed, the outbound bytes do not depend on when
/// anything happened: recordings of the same frames give the same bytes,
/// whatever the recorded times.
pub proof fn replay_ignores_time(a: Seq<u8>, b: Seq<u8>)
    requires
        records(a) is Ok,
        records(b) is Ok,
        same_frames(records(a)->Ok_0.0, records(b)->Ok_0.0),
    ensures
        replay(a, true) == replay(b, true),
{
    let x = records(a)->Ok_0.0;
    let y = records(b)->Ok_0.0;
    runs_agree(Replay::start(), Replay::start(), x, y);
    if let Ok(log) = Replay::start().run(x) {
        streams_agree(log, Replay::start().run(y)->Ok_0);
    }
}

/// A broken-off last record does not matter.
pub proof fn replay_ignores_broken_tail(rs: Seq<RecordView>, tail: Seq<u8>, no_timestamps: bool)
    requires
        forall|i: int| 0 <= i < rs.len() ==> whole_frame((#[trigger] rs[i]).frame),
        broken_off(tail),
    ensures
        replay(recording(rs) + tail, no_timestamps) == replay(recording(rs), no_timestamps),
{
    read_undoes_record(rs, tail);
    read_undoes_record(rs, Seq::empty());
    assert(recording(rs) + Seq::<u8>::empty() =~= recording(rs));
}

/// A run is its first command and then the rest.
proof fn run_steps(s: Replay, recs: Seq<RecordView>)
    requires
        recs.len() > 0,
    ensures
        match command_in(recs[0].frame) {
            Err(e) => s.run(recs) == Err::<Seq<OutboundView>, WireError>(e),
            Ok(msg) => s.run(recs) == s.next(msg, recs[0].recv_ts).run(recs.drop_first()),
        },
{
}

/// What was published stays published.
#[verifier::spinoff_prover]
#[verifier::rlimit(30)]
proof fn log_grows(s: Replay, recs: Seq<RecordView>)
    ensures
        s.run(recs) matches Ok(log) ==> s.log.is_prefix_of(log),
    decreases recs.len(),
{
    if recs.len() > 0 {
        if let Ok(msg) = command_in(recs[0].frame) {
            let t = s.next(msg, recs[0].recv_ts);
            log_grows(t, recs.drop_first());
            assert(s.log.is_prefix_of(t.log));
        }
    }
}

/// A run that goes on publishes first what it would have published without.
#[verifier::spinoff_prover]
#[verifier::rlimit(30)]
proof fn runs_extend(s: Replay, a: Seq<RecordView>, b: Seq<RecordView>)
    requires
        s.run(a + b) is Ok,
    ensures
        s.run(a) is Ok,
        s.run(a)->Ok_0.is_prefix_of(s.run(a + b)->Ok_0),
    decreases a.len(),
{
    if a.len() == 0 {
        assert(a + b =~= b);
        log_grows(s, b);
    } else {
        assert((a + b)[0] == a[0]);
        assert((a + b).drop_first() =~= a.drop_first() + b);
        let msg = command_in(a[0].frame)->Ok_0;
        let t = s.next(msg, a[0].recv_ts);
        run_steps(s, a);
        run_steps(s, a + b);
        runs_extend(t, a.drop_first(), b);
    }
}

/// The bytes of more messages start with the bytes of the first ones.
proof fn streams_extend(a: Seq<OutboundView>, b: Seq<OutboundView>, no_timestamps: bool)
    requires
        a.is_prefix_of(b),
        stream(b, no_timestamps) is Ok,
    ensures
        stream(a, no_timestamps) is Ok,
        stream(a, no_timestamps)->Ok_0.is_prefix_of(stream(b, no_timestamps)->Ok_0),
    decreases a.len(),
{
    if a.len() > 0 {
        assert(a[0] == b.subrange(0, a.len() as int)[0]);
        assert forall|i: int| 0 <= i < a.len() implies a[i] == b[i] by {
            assert(a[i] == b.subrange(0, a.len() as int)[i]);
        }
        assert(a.drop_first() =~= b.drop_first().subrange(0, a.len() - 1));
        streams_extend(a.drop_first(), b.drop_first(), no_timestamps);
        let head = framed(shown(a[0], no_timestamps));
        let x = stream(a.drop_first(), no_timestamps)->Ok_0;
        let y = stream(b.drop_first(), no_timestamps)->Ok_0;
        assert(x =~= y.subrange(0, x.len() as int));
        assert(head + x =~= (head + y).subrange(0, (head + x).len() as int));
    }
}

/// The bytes of two runs of records, one after the other.
proof fn recording_joins(rs: Seq<RecordView>, ts: Seq<RecordView>)
    ensures
        recording(rs + ts) == recording(rs) + recording(ts),
    decreases rs.len(),
{
    if rs.len() == 0 {
        assert(rs + ts =~= ts);
        assert(recording(rs) + recording(ts) =~= recording(ts));
    } else {
        recording_joins(rs.drop_first(), ts);
        assert((rs + ts).drop_first() =~= rs.drop_first() + ts);
        assert((rs + ts)[0] == rs[0]);
        assert(recording(rs + ts) =~= recording(rs) + recording(ts));
    }
}

/// A recording that goes on replays first to what it replayed to before:
/// where the longer one can be replayed, so can the shorter one, and the
/// bytes of the longer one start with those of the shorter one.
pub proof fn replay_extends(rs: Seq<RecordView>, ts: Seq<RecordView>, no_timestamps: bool)
    requires
        forall|i: int| 0 <= i < rs.len() ==> whole_frame((#[trigger] rs[i]).frame),
        forall|i: int| 0 <= i < ts.len() ==> whole_frame((#[trigger] ts[i]).frame),
        replay(recording(rs) + recording(ts), no_timestamps) is Ok,
    ensures
        replay(recording(rs), no_timestamps) is Ok,
        replay(recording(rs), no_timestamps)->Ok_0.is_prefix_of(
            replay(recording(rs) + recording(ts), no_timestamps)->Ok_0,
        ),
{
    let none = Seq::<u8>::empty();
    let all = rs + ts;
    recording_joins(rs, ts);
    assert forall|i: int| 0 <= i < all.len() implies whole_frame((#[trigger] all[i]).frame) by {
        if i < rs.len() {
            assert(all[i] == rs[i]);
        } else {
            assert(all[i] == ts[i - rs.len()]);
        }
    }
    read_undoes_record(rs, none);
    read_undoes_record(all, none);
    assert(recording(rs) + none =~= recording(rs));
    assert(recording(all) + none =~= recording(all));
    runs_extend(Replay::start(), rs, ts);
    streams_extend(
        Replay::start().run(rs)->Ok_0,
        Replay::start().run(all)->Ok_0,
        no_timestamps,
    );
}

} // verus!
