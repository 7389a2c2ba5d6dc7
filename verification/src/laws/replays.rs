//! What a replay gives back.

use vstd::prelude::*;

use crate::domain::{group_newtypes, Clock};
use crate::engine::clock::StubClock;
use crate::engine::engine::{answers, message, message_count};
use crate::engine::replay::{command_in, replay, shown, stream, untimed, Replay, ReplayError};
use crate::engine::runs::published;
use crate::gateway::recorder::{records, RecordView};
use crate::laws::bytes::le32;
use crate::laws::codes::{kind_code, kind_codes};
use crate::laws::framing::frame_is_read;
use crate::wire::error::WireError;
use crate::wire::framing::MessageKind;
use crate::wire::inbound::{self, Inbound};
use crate::wire::outbound::{fits, framed, payload, payload_size, OutboundView};

verus! {

broadcast use group_newtypes;

/// The command that a recorded frame holds is what its kind and payload say.
/// A frame that is too short, empty or of no known kind holds none.
pub proof fn recorded_frame_is_read(frame: Seq<u8>, kind: MessageKind)
    ensures
        ({
            let r = command_in(frame);
            let p = frame.subrange(5, 4 + le32(frame, 0));
            if frame.len() < 4 || frame.len() < 4 + le32(frame, 0) {
                r == Err::<Inbound, WireError>(WireError::Truncated)
            } else if le32(frame, 0) == 0 {
                r == Err::<Inbound, WireError>(WireError::EmptyFrame)
            } else if frame[4] == 0 || (6 < frame[4] && frame[4] < 101) || frame[4] > 105 {
                r == Err::<Inbound, WireError>(WireError::UnknownKind(frame[4]))
            } else {
                frame[4] == kind_code(kind) ==> r == inbound::parsed(kind, p)
            }
        }),
{
    frame_is_read(frame);
    if frame.len() >= 4 && frame.len() >= 4 + le32(frame, 0) && le32(frame, 0) > 0 {
        kind_codes(kind, frame[4]);
    }
}

/// A replay starts with an empty book, the switch off and nothing traded,
/// and numbers trades and messages from 1.
pub proof fn replay_starts_empty()
    ensures
        ({
            let s = Replay::start();
            &&& s.market.book.bids.len() == 0
            &&& s.market.book.asks.len() == 0
            &&& !s.market.killed
            &&& s.market.last_trade is None
            &&& s.trade == 1
            &&& s.seq == 1
            &&& s.log.len() == 0
        }),
{
}

/// A replay of records that hold commands publishes exactly what an engine
/// publishes for these commands while its clock stands still at the time of
/// each record.
#[verifier::spinoff_prover]
#[verifier::rlimit(30)]
pub proof fn replay_is_a_run(
    s: Replay,
    recs: Seq<RecordView>,
    msgs: Seq<Inbound>,
    clocks: Seq<StubClock>,
) -> (new: Seq<OutboundView>)
    requires
        recs.len() == msgs.len(),
        recs.len() == clocks.len(),
        forall|i: int|
            0 <= i < recs.len() ==> command_in((#[trigger] recs[i]).frame) == Ok::<
                Inbound,
                WireError,
            >(msgs[i]) && clocks[i].current() == recs[i].recv_ts@,
    ensures
        s.run(recs) == Ok::<Seq<OutboundView>, WireError>(s.log + new),
        published(clocks, s.market, msgs, s.trade, s.seq, new),
    decreases recs.len(),
{
    if recs.len() == 0 {
        assert(s.log + Seq::<OutboundView>::empty() =~= s.log);
        Seq::empty()
    } else {
        let msg = msgs[0];
        let recv = recs[0].recv_ts;
        let n = message_count(s.market, msg, s.trade);
        let first = Seq::new(
            n,
            |i: int| message(s.market, msg, s.trade, i, (s.seq + i) as u64, recv, recv),
        );
        let t = s.next(msg, recv);
        assert forall|i: int| 0 <= i < recs.drop_first().len() implies command_in(
            (#[trigger] recs.drop_first()[i]).frame,
        ) == Ok::<Inbound, WireError>(msgs.drop_first()[i]) && clocks.drop_first()[i].current()
            == recs.drop_first()[i].recv_ts@ by {
            assert(recs.drop_first()[i] == recs[i + 1]);
        }
        assert(command_in(recs[0].frame) == Ok::<Inbound, WireError>(msg));
        let rest = replay_is_a_run(t, recs.drop_first(), msgs.drop_first(), clocks.drop_first());
        let new = first + rest;
        assert(t.log == s.log + first);
        assert(s.log + first + rest =~= s.log + new);
        assert(new.take(n as int) =~= first);
        assert(new.skip(n as int) =~= rest);
        assert(clocks[0].reads(recv));
        assert(answers(clocks[0], s.market, msg, s.trade, s.seq, recv, first));
        new
    }
}

/// The first record that holds no command ends a replay with what is wrong
/// with it.
pub proof fn replay_stops_at_a_bad_record(s: Replay, recs: Seq<RecordView>, i: int, e: WireError)
    requires
        0 <= i < recs.len(),
        forall|j: int| 0 <= j < i ==> command_in((#[trigger] recs[j]).frame) is Ok,
        command_in(recs[i].frame) == Err::<Inbound, WireError>(e),
    ensures
        s.run(recs) == Err::<Seq<OutboundView>, WireError>(e),
    decreases recs.len(),
{
    if i > 0 {
        assert(command_in(recs[0].frame) is Ok);
        let t = s.next(command_in(recs[0].frame)->Ok_0, recs[0].recv_ts);
        assert forall|j: int| 0 <= j < i - 1 implies command_in(
            (#[trigger] recs.drop_first()[j]).frame,
        ) is Ok by {
            assert(recs.drop_first()[j] == recs[j + 1]);
        }
        replay_stops_at_a_bad_record(t, recs.drop_first(), i - 1, e);
    }
}

/// Without timestamps a message keeps all its fields but its times, which
/// are zero; with them it is shown as it is.
pub proof fn only_times_are_left_out(msg: OutboundView)
    ensures
        shown(msg, false) == msg,
        match (msg, shown(msg, true)) {
            (OutboundView::ExecReport(a), OutboundView::ExecReport(b)) => {
                &&& b.recv_ts@ == 0 && b.emit_ts@ == 0
                &&& a.engine_seq == b.engine_seq
                &&& a.order_id == b.order_id
                &&& a.account_id == b.account_id
                &&& a.state == b.state
                &&& a.fill_price == b.fill_price
                &&& a.fill_qty == b.fill_qty
                &&& a.leaves_qty == b.leaves_qty
                &&& a.reject_reason == b.reject_reason
                &&& a.cancel_reason == b.cancel_reason
            },
            (OutboundView::TradePrint(a), OutboundView::TradePrint(b)) => {
                &&& b.emit_ts@ == 0
                &&& a.engine_seq == b.engine_seq
                &&& a.trade_id == b.trade_id
                &&& a.price == b.price
                &&& a.qty == b.qty
                &&& a.aggressor_side == b.aggressor_side
            },
            (OutboundView::BookUpdateTop(a), OutboundView::BookUpdateTop(b)) => {
                &&& b.emit_ts@ == 0
                &&& a.engine_seq == b.engine_seq
                &&& a.bid == b.bid
                &&& a.ask == b.ask
            },
            (OutboundView::BookUpdateL2Delta(a), OutboundView::BookUpdateL2Delta(b)) => {
                &&& b.emit_ts@ == 0
                &&& a.engine_seq == b.engine_seq
                &&& a.price == b.price
                &&& a.new_qty == b.new_qty
                &&& a.side == b.side
            },
            (OutboundView::SnapshotResponse(a), OutboundView::SnapshotResponse(b)) => {
                &&& b.recv_ts@ == 0 && b.emit_ts@ == 0
                &&& a.engine_seq == b.engine_seq
                &&& a.request_id == b.request_id
                &&& a.bids == b.bids
                &&& a.asks == b.asks
            },
            _ => false,
        },
        shown(msg, true) == untimed(msg),
{
}

/// A message fits a frame exactly if its payload is shorter than four bytes
/// of length can count.
pub proof fn frames_have_a_limit(msg: OutboundView)
    ensures
        fits(msg) <==> payload(msg).len() + 1 <= 0xffff_ffff,
{
    payload_size(msg);
}

/// The output of a replay is the frames of its messages, one after the
/// other; a message that does not fit a frame ends it.
pub proof fn output_is_frame_after_frame(
    log: Seq<OutboundView>,
    msg: OutboundView,
    no_timestamps: bool,
)
    ensures
        stream(Seq::empty(), no_timestamps) == Ok::<Seq<u8>, WireError>(Seq::empty()),
        stream(log.push(msg), no_timestamps) == (match stream(log, no_timestamps) {
            Err(e) => Err::<Seq<u8>, WireError>(e),
            Ok(out) => if fits(shown(msg, no_timestamps)) {
                Ok(out + framed(shown(msg, no_timestamps)))
            } else {
                Err(WireError::PayloadTooLarge)
            },
        }),
    decreases log.len(),
{
    let all = log.push(msg);
    let none = Seq::<u8>::empty();
    if log.len() == 0 {
        assert(all.drop_first() =~= Seq::<OutboundView>::empty());
        assert(stream(all.drop_first(), no_timestamps) == Ok::<Seq<u8>, WireError>(none));
        let f = framed(shown(msg, no_timestamps));
        assert(f + none =~= none + f);
    } else {
        output_is_frame_after_frame(log.drop_first(), msg, no_timestamps);
        assert(all.drop_first() =~= log.drop_first().push(msg));
        assert(all[0] == log[0]);
        if let Ok(rest) = stream(log.drop_first(), no_timestamps) {
            let a = framed(shown(log[0], no_timestamps));
            let b = framed(shown(msg, no_timestamps));
            assert(a + (rest + b) =~= a + rest + b);
        }
    }
}

/// A replay reads the recording, runs its commands from the start and
/// writes what was published. The first of the three that fails gives the
/// error.
pub proof fn replay_reads_runs_and_writes(bytes: Seq<u8>, no_timestamps: bool)
    ensures
        match records(bytes) {
            Err(e) => replay(bytes, no_timestamps) == Err::<Seq<u8>, ReplayError>(
                ReplayError::Record(e),
            ),
            Ok((recs, _)) => match Replay::start().run(recs) {
                Err(e) => replay(bytes, no_timestamps) == Err::<Seq<u8>, ReplayError>(
                    ReplayError::Wire(e),
                ),
                Ok(log) => match stream(log, no_timestamps) {
                    Err(e) => replay(bytes, no_timestamps) == Err::<Seq<u8>, ReplayError>(
                        ReplayError::Wire(e),
                    ),
                    Ok(out) => replay(bytes, no_timestamps) == Ok::<Seq<u8>, ReplayError>(out),
                },
            },
        },
{
}

} // verus!
