//! The engine, its clocks and its counters.

use hft_clob_core::domain::{
    AccountId, CancelReason, ClientTs, Clock, ExecState, IdGenerator, OrderId, OrderType, Price,
    Qty, RejectReason, Side, Tif,
};
use hft_clob_core::engine::{CounterIdGenerator, Engine, StubClock, VecSink, WallClock};
use hft_clob_core::wire::inbound::{
    CancelOrder, Inbound, KillSwitchSet, KillSwitchState, MassCancel, NewOrder,
};
use hft_clob_core::wire::outbound::Outbound;

fn engine_with_stub() -> Engine<StubClock, CounterIdGenerator, VecSink> {
    Engine::new(
        StubClock::new(1_000_000_000),
        CounterIdGenerator::new(),
        VecSink::new(),
    )
}

fn limit_order(id: u64, account: u32, side: Side, price: i64, qty: u64, tif: Tif) -> NewOrder {
    NewOrder {
        client_ts: ClientTs::new(0),
        order_id: OrderId::new(id).expect("ok"),
        account_id: AccountId::new(account).expect("ok"),
        side,
        order_type: OrderType::Limit,
        tif,
        price: Some(Price::new(price).expect("ok")),
        qty: Qty::new(qty).expect("ok"),
    }
}

fn engine_seqs(events: &[Outbound]) -> Vec<u64> {
    events
        .iter()
        .map(|o| match o {
            Outbound::ExecReport(r) => r.engine_seq.as_raw(),
            Outbound::TradePrint(t) => t.engine_seq.as_raw(),
            Outbound::BookUpdateTop(b) => b.engine_seq.as_raw(),
            Outbound::BookUpdateL2Delta(d) => d.engine_seq.as_raw(),
            Outbound::SnapshotResponse(s) => s.engine_seq.as_raw(),
        })
        .collect()
}

#[test]
fn test_step_new_order_accept_emits_accepted_and_book_update() {
    let mut e = engine_with_stub();
    e.step(Inbound::NewOrder(limit_order(
        1,
        7,
        Side::Bid,
        100,
        5,
        Tif::Gtc,
    )));
    let events = e.sink_mut().take();
    // At minimum: Accepted + BookUpdateTop.
    assert!(events.len() >= 2);
    let seqs = engine_seqs(&events);
    for w in seqs.windows(2) {
        assert!(w[0] < w[1], "engine_seq must be strictly monotonic");
    }
}

#[test]
fn test_step_kill_switch_rejects_new_order() {
    let mut e = engine_with_stub();
    e.step(Inbound::KillSwitchSet(KillSwitchSet {
        client_ts: ClientTs::new(0),
        state: KillSwitchState::Halt,
        admin_token: 0,
    }));
    e.step(Inbound::NewOrder(limit_order(
        1,
        7,
        Side::Bid,
        100,
        5,
        Tif::Gtc,
    )));
    let events = e.sink_mut().take();
    let rejected = events
        .iter()
        .filter_map(|o| match o {
            Outbound::ExecReport(r) if matches!(r.state, ExecState::Rejected) => Some(r),
            _ => None,
        })
        .next()
        .expect("Rejected exec report present");
    assert_eq!(rejected.reject_reason, Some(RejectReason::KillSwitched));
}

#[test]
fn test_step_cross_emits_trade_print_and_two_exec_reports() {
    let mut e = engine_with_stub();
    // Resting ask at 100, qty 5.
    e.step(Inbound::NewOrder(limit_order(
        1,
        2,
        Side::Ask,
        100,
        5,
        Tif::Gtc,
    )));
    let _ = e.sink_mut().take();
    // Aggressive bid at 100, qty 5 — full fill.
    e.step(Inbound::NewOrder(limit_order(
        2,
        7,
        Side::Bid,
        100,
        5,
        Tif::Gtc,
    )));
    let events = e.sink_mut().take();
    let mut trade_count = 0usize;
    let mut fill_exec_count = 0usize;
    for o in &events {
        match o {
            Outbound::TradePrint(_) => trade_count += 1,
            Outbound::ExecReport(r)
                if matches!(r.state, ExecState::Filled | ExecState::PartiallyFilled) =>
            {
                fill_exec_count += 1;
            }
            _ => {}
        }
    }
    assert_eq!(trade_count, 1);
    assert_eq!(fill_exec_count, 2); // maker + taker
}

#[test]
fn test_step_engine_seq_strictly_monotonic_across_many_commands() {
    let mut e = engine_with_stub();
    e.step(Inbound::NewOrder(limit_order(
        1,
        2,
        Side::Ask,
        100,
        5,
        Tif::Gtc,
    )));
    e.step(Inbound::NewOrder(limit_order(
        2,
        7,
        Side::Bid,
        105,
        3,
        Tif::Gtc,
    )));
    e.step(Inbound::CancelOrder(CancelOrder {
        client_ts: ClientTs::new(0),
        order_id: OrderId::new(2).expect("ok"),
        account_id: AccountId::new(7).expect("ok"),
    }));
    e.step(Inbound::NewOrder(limit_order(
        3,
        7,
        Side::Bid,
        100,
        5,
        Tif::Gtc,
    )));
    let events = e.sink_mut().take();
    let seqs = engine_seqs(&events);
    for w in seqs.windows(2) {
        assert!(w[0] < w[1], "engine_seq must be strictly monotonic");
    }
}

#[test]
fn test_step_cancel_unknown_order_emits_rejected() {
    let mut e = engine_with_stub();
    e.step(Inbound::CancelOrder(CancelOrder {
        client_ts: ClientTs::new(0),
        order_id: OrderId::new(99).expect("ok"),
        account_id: AccountId::new(7).expect("ok"),
    }));
    let events = e.sink_mut().take();
    let any_rejected = events.iter().any(|o| {
        matches!(
            o,
            Outbound::ExecReport(r)
                if matches!(r.state, ExecState::Rejected)
                    && r.reject_reason == Some(RejectReason::UnknownOrderId)
        )
    });
    assert!(any_rejected);
}

#[test]
fn test_step_kill_switch_disengage_lets_orders_through() {
    let mut e = engine_with_stub();
    e.step(Inbound::KillSwitchSet(KillSwitchSet {
        client_ts: ClientTs::new(0),
        state: KillSwitchState::Halt,
        admin_token: 0,
    }));
    e.step(Inbound::KillSwitchSet(KillSwitchSet {
        client_ts: ClientTs::new(0),
        state: KillSwitchState::Resume,
        admin_token: 0,
    }));
    e.step(Inbound::NewOrder(limit_order(
        1,
        7,
        Side::Bid,
        100,
        5,
        Tif::Gtc,
    )));
    let events = e.sink_mut().take();
    let any_rejected = events.iter().any(|o| {
        matches!(
            o,
            Outbound::ExecReport(r) if matches!(r.state, ExecState::Rejected)
        )
    });
    assert!(!any_rejected);
}

#[test]
fn test_step_mass_cancel_emits_per_order() {
    let mut e = engine_with_stub();
    e.step(Inbound::NewOrder(limit_order(
        1,
        7,
        Side::Bid,
        100,
        5,
        Tif::Gtc,
    )));
    e.step(Inbound::NewOrder(limit_order(
        2,
        7,
        Side::Bid,
        99,
        3,
        Tif::Gtc,
    )));
    let _ = e.sink_mut().take();
    e.step(Inbound::MassCancel(MassCancel {
        client_ts: ClientTs::new(0),
        account_id: AccountId::new(7).expect("ok"),
    }));
    let events = e.sink_mut().take();
    let cancelled_count = events
        .iter()
        .filter(|o| {
            matches!(
                o,
                Outbound::ExecReport(r)
                    if matches!(r.state, ExecState::Cancelled)
                        && r.cancel_reason == Some(CancelReason::MassCancel)
            )
        })
        .count();
    assert_eq!(cancelled_count, 2);
}

#[test]
fn test_wall_clock_returns_positive_nanos() {
    let c = WallClock;
    assert!(c.now().as_nanos() > 0);
}

#[test]
fn test_stub_clock_returns_set_value() {
    let mut c = StubClock::new(42);
    assert_eq!(c.now().as_nanos(), 42);
    c.set(123);
    assert_eq!(c.now().as_nanos(), 123);
}

#[test]
fn test_counter_starts_at_one_for_both_streams() {
    let mut ids = CounterIdGenerator::new();
    assert_eq!(ids.next_trade_id().as_raw(), 1);
    assert_eq!(ids.next_engine_seq().as_raw(), 1);
}

#[test]
fn test_counter_increments_strictly_monotonically() {
    let mut ids = CounterIdGenerator::new();
    let a = ids.next_engine_seq();
    let b = ids.next_engine_seq();
    let c = ids.next_engine_seq();
    assert!(a < b && b < c);
}

#[test]
fn test_counter_streams_are_independent() {
    let mut ids = CounterIdGenerator::new();
    let _ = ids.next_engine_seq();
    let _ = ids.next_engine_seq();
    assert_eq!(ids.next_trade_id().as_raw(), 1);
}

#[test]
fn test_resume_preserves_counters() {
    let mut ids = CounterIdGenerator::resume(50, 100);
    assert_eq!(ids.next_trade_id().as_raw(), 50);
    assert_eq!(ids.next_engine_seq().as_raw(), 100);
}
