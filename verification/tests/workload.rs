//! Synthetic load and the replay fixture.

use hft_clob_core::domain::{CancelReason, Clock, ExecState, RecvTs, RejectReason, Side};
use hft_clob_core::engine::clock::stamp_of;
use hft_clob_core::engine::replay::{zero_timestamps, ReplayError};
use hft_clob_core::engine::{
    replay_bytes, CounterIdGenerator, Engine, StubClock, VecSink, WallClock,
};
use hft_clob_core::fixture::{fixture, push_cancel, push_new_order};
use hft_clob_core::gateway::recorder::{read_records, RecordError};
use hft_clob_core::marketdata::encoder;
use hft_clob_core::wire::inbound::Inbound;
use hft_clob_core::wire::outbound::Outbound;
use hft_clob_core::wire::WireError;
use hft_clob_core::workload::{generate_ops, op_to_inbound, Lcg, Op};

fn decode_all(mut bytes: &[u8]) -> Vec<Outbound> {
    let mut out = Vec::new();
    while !bytes.is_empty() {
        let (msg, total) = encoder::decode(bytes).expect("decode");
        out.push(msg);
        bytes = &bytes[total..];
    }
    out
}

#[test]
fn lcg_values() {
    let mut rng = Lcg::new(0);
    assert_eq!(rng.next(), 1);
    assert_eq!(rng.next(), 6_364_136_223_846_793_006);
    assert_eq!(rng.next(), 13_885_033_948_157_127_959);
    assert_eq!(Lcg::new(u64::MAX).next(), 12_082_607_849_862_758_612);
}

#[test]
fn load_of_a_seed() {
    let ops = generate_ops(10, 0xdead_beef);
    let aggressive = |id, account, side, price, qty| Op::Aggressive {
        id,
        account,
        side,
        price,
        qty,
    };
    let add = |id, account, side, price, qty| Op::Add {
        id,
        account,
        side,
        price,
        qty,
    };
    assert_eq!(
        ops,
        vec![
            aggressive(1, 6, Side::Bid, 72, 2),
            aggressive(2, 7, Side::Ask, 81, 1),
            add(3, 4, Side::Bid, 90, 1),
            add(4, 8, Side::Bid, 90, 7),
            Op::Cancel { id: 3, account: 4 },
            add(5, 5, Side::Ask, 110, 4),
            aggressive(6, 1, Side::Ask, 85, 4),
            Op::Cancel { id: 4, account: 6 },
            aggressive(7, 7, Side::Ask, 90, 6),
            Op::Cancel { id: 5, account: 4 },
        ]
    );
    assert!(generate_ops(0, 1).is_empty());
}

#[test]
fn load_runs_through_the_engine() {
    let mut engine = Engine::new(StubClock::new(1), CounterIdGenerator::new(), VecSink::new());
    let mut last = 0;
    for op in generate_ops(2_000, 7) {
        let msg = op_to_inbound(op);
        if let Inbound::NewOrder(n) = msg {
            assert!(n.price.is_some());
        }
        engine.step(msg);
        for out in engine.sink_mut().take() {
            let seq = match out {
                Outbound::ExecReport(r) => r.engine_seq.as_raw(),
                Outbound::TradePrint(t) => t.engine_seq.as_raw(),
                Outbound::BookUpdateTop(b) => b.engine_seq.as_raw(),
                Outbound::BookUpdateL2Delta(d) => d.engine_seq.as_raw(),
                Outbound::SnapshotResponse(s) => s.engine_seq.as_raw(),
            };
            assert_eq!(seq, last + 1);
            last = seq;
        }
        match (engine.book().best_bid(), engine.book().best_ask()) {
            (Some(bid), Some(ask)) => assert!(bid < ask),
            _ => {}
        }
    }
}

#[test]
fn fixture_is_eight_records() {
    let bytes = fixture();
    let (records, left) = read_records(&bytes).expect("records");
    assert_eq!(records.len(), 8);
    assert_eq!(left, 0);
    assert_eq!(records[0].recv_ts.as_nanos(), 1_000);
    assert_eq!(records[7].recv_ts.as_nanos(), 2_002);
    assert_eq!(records[7].frame.len(), 29);
    let mut own = Vec::new();
    push_new_order(&mut own, 1, 2, Side::Ask, 100, 5, 1_000);
    assert_eq!(&bytes[..own.len()], &own[..]);
    own.clear();
    push_cancel(&mut own, 3, 2, 2_002);
    assert_eq!(&bytes[bytes.len() - own.len()..], &own[..]);
}

#[test]
fn fixture_replay() {
    let out = decode_all(&replay_bytes(&fixture(), false).expect("replay"));
    let trades: Vec<(u64, i64, u64, Side, i64)> = out
        .iter()
        .filter_map(|o| match o {
            Outbound::TradePrint(t) => Some((
                t.trade_id.as_raw(),
                t.price.as_ticks(),
                t.qty.as_lots(),
                t.aggressor_side,
                t.emit_ts.as_nanos(),
            )),
            _ => None,
        })
        .collect();
    assert_eq!(
        trades,
        vec![
            (1, 100, 5, Side::Bid, 2_000),
            (2, 102, 1, Side::Bid, 2_000),
        ]
    );
    // An offer at 95 is more than five percent below the last trade.
    assert!(out.iter().any(|o| matches!(
        o,
        Outbound::ExecReport(r)
            if r.order_id.as_raw() == 101 && r.reject_reason == Some(RejectReason::PriceBand)
    )));
    let cancels: Vec<u64> = out
        .iter()
        .filter_map(|o| match o {
            Outbound::ExecReport(r)
                if r.state == ExecState::Cancelled
                    && r.cancel_reason == Some(CancelReason::UserRequested) =>
            {
                Some(r.order_id.as_raw())
            }
            _ => None,
        })
        .collect();
    assert_eq!(cancels, vec![3]);
    match out.last() {
        Some(Outbound::BookUpdateTop(t)) => {
            let (bid, bid_qty) = t.bid.expect("bid");
            assert_eq!((bid.as_ticks(), bid_qty.as_lots()), (97, 2));
            let (ask, ask_qty) = t.ask.expect("ask");
            assert_eq!((ask.as_ticks(), ask_qty.as_lots()), (102, 2));
        }
        other => panic!("unexpected last message: {other:?}"),
    }
}

#[test]
fn replay_without_timestamps_does_not_depend_on_when_it_was_recorded() {
    let mut early = Vec::new();
    let mut late = Vec::new();
    for (id, side, price) in [(1, Side::Bid, 100), (2, Side::Ask, 99), (3, Side::Ask, 105)] {
        let account = id as u32;
        push_new_order(&mut early, id, account, side, price, 5, 10);
        push_new_order(&mut late, id, account, side, price, 5, 99_999);
    }
    let a = replay_bytes(&early, true).expect("early");
    let b = replay_bytes(&late, true).expect("late");
    assert_eq!(a, b);
    assert_ne!(
        replay_bytes(&early, false).expect("early"),
        replay_bytes(&late, false).expect("late")
    );
    for msg in decode_all(&a) {
        let mut zeroed = msg.clone();
        zero_timestamps(&mut zeroed);
        assert_eq!(zeroed, msg);
    }
}

#[test]
fn replay_reads_up_to_the_last_whole_record() {
    let whole = fixture();
    let mut own = Vec::new();
    push_cancel(&mut own, 1, 2, 3);
    for n in 0..own.len() {
        let mut cut = whole.clone();
        cut.extend_from_slice(&own[..n]);
        assert_eq!(
            replay_bytes(&cut, true).expect("cut"),
            replay_bytes(&whole, true).expect("whole")
        );
    }
}

#[test]
fn replay_of_nothing() {
    assert_eq!(replay_bytes(&[], false), Ok(Vec::new()));
}

#[test]
fn replay_errors() {
    let zero = [0u8; 12];
    assert_eq!(
        replay_bytes(&zero, false),
        Err(ReplayError::Record(RecordError::ZeroLengthFrame))
    );
    let mut unknown = vec![1, 0, 0, 0, 77];
    unknown.extend_from_slice(&[0u8; 8]);
    assert_eq!(
        replay_bytes(&unknown, false),
        Err(ReplayError::Wire(WireError::UnknownKind(77)))
    );
    let mut short = vec![3, 0, 0, 0, 1, 0, 0];
    short.extend_from_slice(&[0u8; 8]);
    assert_eq!(
        replay_bytes(&short, false),
        Err(ReplayError::Wire(WireError::PayloadSize))
    );
}

#[test]
fn clock_stamps() {
    assert_eq!(stamp_of(Some(1_700_000_000_000_000_123)), RecvTs::new(1_700_000_000_000_000_123));
    assert_eq!(stamp_of(None), RecvTs::new(0));
    // The system clock is past the start of 2020.
    assert!(WallClock.now().as_nanos() > 1_577_836_800_000_000_000);
}

#[test]
fn replay_of_more_records_starts_with_the_replay_of_the_first() {
    let all = fixture();
    let (records, _) = read_records(&all).expect("records");
    let whole = replay_bytes(&all, false).expect("whole");
    let mut end = 0;
    let mut last = 0;
    for r in &records {
        end += r.frame.len() + 8;
        let part = replay_bytes(&all[..end], false).expect("part");
        assert!(part.len() > last);
        assert!(whole.starts_with(&part));
        last = part.len();
    }
    assert_eq!(last, whole.len());
}
