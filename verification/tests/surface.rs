//! A client, a session and an engine joined by their bytes.

use hft_clob_core::client::{
    poll, recv_step, request, wants_more, Received, RecvFault, RecvStep,
    DEFAULT_RECV_TIMEOUT_MILLIS,
};
use hft_clob_core::domain::{
    AccountId, CancelReason, ClientTs, ExecState, OrderId, OrderType, Price, Qty, RecvTs,
    RejectReason, Side, Tif,
};
use hft_clob_core::engine::{CounterIdGenerator, Engine, StubClock, VecSink};
use hft_clob_core::gateway::session::{
    closing_reply, decide, try_decode, CloseReason, DecodeStep, SessionAction, SessionEvent,
};
use hft_clob_core::gateway::DEFAULT_READ_BUFFER;
use hft_clob_core::marketdata::encoder;
use hft_clob_core::wire::framing::{Frame, MessageKind};
use hft_clob_core::wire::inbound::{
    CancelOrder, Inbound, KillSwitchSet, KillSwitchState, MassCancel, NewOrder, SnapshotRequest,
};
use hft_clob_core::wire::outbound::Outbound;
use hft_clob_core::wire::WireError;

struct Surface {
    engine: Engine<StubClock, CounterIdGenerator, VecSink>,
}

impl Surface {
    fn new() -> Self {
        Self {
            engine: Engine::new(
                StubClock::new(1_000_000),
                CounterIdGenerator::new(),
                VecSink::new(),
            ),
        }
    }

    /// Sends commands as bytes and reads what comes back as bytes.
    fn send(&mut self, msgs: &[Inbound]) -> Vec<Outbound> {
        let mut wire = Vec::new();
        for msg in msgs {
            wire.extend(request(msg));
        }
        let mut back = Vec::new();
        loop {
            match decide(SessionEvent::Buffered, &wire) {
                SessionAction::Forward { msg, total } => {
                    wire.drain(..total);
                    self.engine.step(msg);
                    for out in self.engine.sink_mut().take() {
                        encoder::encode(&out, &mut back).expect("encode");
                    }
                }
                SessionAction::Read => break,
                SessionAction::Close(reason) => panic!("closed: {reason:?}"),
            }
        }
        let mut events = Vec::new();
        while let Received::Message { msg, total } = poll(&back) {
            back.drain(..total);
            events.push(msg);
        }
        assert!(back.is_empty());
        events
    }
}

fn limit_order(id: u64, account: u32, side: Side, price: i64, qty: u64, tif: Tif) -> NewOrder {
    NewOrder {
        client_ts: ClientTs::new(0),
        order_id: OrderId::new(id).expect("ok"),
        account_id: AccountId::new(account).expect("ok"),
        side,
        order_type: OrderType::Limit,
        tif,
        price: Some(Price::new(price).expect("ok")),
        qty: Qty::new(qty).expect("ok"),
    }
}

fn order(id: u64, account: u32, side: Side, price: i64, qty: u64, tif: Tif) -> Inbound {
    Inbound::NewOrder(limit_order(id, account, side, price, qty, tif))
}

fn kill(state: KillSwitchState) -> Inbound {
    Inbound::KillSwitchSet(KillSwitchSet {
        client_ts: ClientTs::new(0),
        state,
        admin_token: 0,
    })
}

fn cancel(id: u64, account: u32) -> Inbound {
    Inbound::CancelOrder(CancelOrder {
        client_ts: ClientTs::new(0),
        order_id: OrderId::new(id).expect("ok"),
        account_id: AccountId::new(account).expect("ok"),
    })
}

fn has_report(events: &[Outbound], state: ExecState) -> bool {
    events
        .iter()
        .any(|o| matches!(o, Outbound::ExecReport(r) if r.state == state))
}

fn has_rejection(events: &[Outbound], reason: RejectReason) -> bool {
    events.iter().any(|o| {
        matches!(o, Outbound::ExecReport(r)
            if r.state == ExecState::Rejected && r.reject_reason == Some(reason))
    })
}

fn has_cancel(events: &[Outbound], reason: CancelReason) -> bool {
    events.iter().any(|o| {
        matches!(o, Outbound::ExecReport(r)
            if r.state == ExecState::Cancelled && r.cancel_reason == Some(reason))
    })
}

#[test]
fn surface_new_order_gtc_rests() {
    let mut s = Surface::new();
    let events = s.send(&[order(1, 7, Side::Bid, 100, 5, Tif::Gtc)]);
    assert!(has_report(&events, ExecState::Accepted));
    assert!(events
        .iter()
        .any(|o| matches!(o, Outbound::BookUpdateTop(_))));
}

#[test]
fn surface_new_order_gtc_crosses() {
    let mut s = Surface::new();
    s.send(&[order(1, 2, Side::Ask, 100, 5, Tif::Gtc)]);
    let events = s.send(&[order(2, 7, Side::Bid, 100, 5, Tif::Gtc)]);
    assert!(events.iter().any(|o| matches!(o, Outbound::TradePrint(_))));
    assert!(has_report(&events, ExecState::Filled));
}

#[test]
fn surface_new_order_ioc_partial() {
    let mut s = Surface::new();
    s.send(&[order(1, 2, Side::Ask, 100, 3, Tif::Gtc)]);
    let events = s.send(&[order(2, 7, Side::Bid, 100, 10, Tif::Ioc)]);
    assert!(events.iter().any(|o| matches!(
        o,
        Outbound::ExecReport(r)
            if r.order_id == OrderId::new(2).expect("ok")
                && r.state == ExecState::Cancelled
                && r.cancel_reason == Some(CancelReason::IocRemaining)
    )));
}

#[test]
fn surface_post_only_would_cross() {
    let mut s = Surface::new();
    s.send(&[order(1, 2, Side::Ask, 100, 5, Tif::Gtc)]);
    let events = s.send(&[order(2, 7, Side::Bid, 100, 5, Tif::PostOnly)]);
    assert!(has_rejection(&events, RejectReason::PostOnlyWouldCross));
}

#[test]
fn surface_cancel_order_user_requested() {
    let mut s = Surface::new();
    s.send(&[order(1, 7, Side::Bid, 100, 5, Tif::Gtc)]);
    let events = s.send(&[cancel(1, 7)]);
    assert!(has_cancel(&events, CancelReason::UserRequested));
}

#[test]
fn surface_mass_cancel() {
    let mut s = Surface::new();
    s.send(&[
        order(1, 7, Side::Bid, 99, 3, Tif::Gtc),
        order(2, 7, Side::Bid, 98, 3, Tif::Gtc),
        order(3, 7, Side::Ask, 110, 3, Tif::Gtc),
    ]);
    let events = s.send(&[Inbound::MassCancel(MassCancel {
        client_ts: ClientTs::new(0),
        account_id: AccountId::new(7).expect("ok"),
    })]);
    let cancelled = events
        .iter()
        .filter(|o| {
            matches!(o, Outbound::ExecReport(r)
                if r.state == ExecState::Cancelled
                    && r.cancel_reason == Some(CancelReason::MassCancel))
        })
        .count();
    assert_eq!(cancelled, 3);
}

#[test]
fn surface_kill_switch_halt_resume() {
    let mut s = Surface::new();
    assert!(s.send(&[kill(KillSwitchState::Halt)]).is_empty());
    let halted = s.send(&[order(1, 7, Side::Bid, 100, 5, Tif::Gtc)]);
    assert!(has_rejection(&halted, RejectReason::KillSwitched));
    assert!(s.send(&[kill(KillSwitchState::Resume)]).is_empty());
    let resumed = s.send(&[order(2, 7, Side::Bid, 100, 5, Tif::Gtc)]);
    assert!(has_report(&resumed, ExecState::Accepted));
}

#[test]
fn surface_snapshot_request_round_trip() {
    let mut s = Surface::new();
    s.send(&[
        order(1, 7, Side::Bid, 100, 5, Tif::Gtc),
        order(2, 2, Side::Ask, 101, 3, Tif::Gtc),
    ]);
    let events = s.send(&[Inbound::SnapshotRequest(SnapshotRequest { request_id: 42 })]);
    assert_eq!(events.len(), 1);
    match &events[0] {
        Outbound::SnapshotResponse(snap) => {
            assert_eq!(snap.request_id, 42);
            assert_eq!(snap.bids.len(), 1);
            assert_eq!(snap.bids[0].price.as_ticks(), 100);
            assert_eq!(snap.bids[0].qty.as_lots(), 5);
            assert_eq!(snap.asks.len(), 1);
            assert_eq!(snap.asks[0].price.as_ticks(), 101);
            assert_eq!(snap.asks[0].qty.as_lots(), 3);
        }
        other => panic!("unexpected variant: {other:?}"),
    }
}

#[test]
fn surface_engine_seq_strictly_monotonic() {
    let mut s = Surface::new();
    let events = s.send(&[
        order(1, 2, Side::Ask, 100, 5, Tif::Gtc),
        order(2, 7, Side::Bid, 100, 3, Tif::Gtc),
        cancel(1, 2),
    ]);
    let mut last = 0u64;
    for ev in &events {
        let seq = match ev {
            Outbound::ExecReport(r) => r.engine_seq.as_raw(),
            Outbound::TradePrint(t) => t.engine_seq.as_raw(),
            Outbound::BookUpdateTop(b) => b.engine_seq.as_raw(),
            Outbound::BookUpdateL2Delta(d) => d.engine_seq.as_raw(),
            Outbound::SnapshotResponse(r) => r.engine_seq.as_raw(),
        };
        assert_eq!(seq, last + 1, "engine_seq must have no gap");
        last = seq;
    }
    assert!(last > 0);
}

#[test]
fn surface_client_round_trip() {
    let mut s = Surface::new();
    let events = s.send(&[order(42, 7, Side::Bid, 100, 5, Tif::Gtc)]);
    let report = events.iter().find_map(|o| match o {
        Outbound::ExecReport(r) => Some(*r),
        _ => None,
    });
    let report = report.expect("expected ExecReport on the same connection");
    assert_eq!(report.order_id, OrderId::new(42).expect("ok"));
    assert_eq!(report.account_id, AccountId::new(7).expect("ok"));
    assert_eq!(report.leaves_qty, Some(Qty::new(5).expect("ok")));
    assert_eq!(report.recv_ts.as_nanos(), 1_000_000);
}

#[test]
fn session_forwards_one_message() {
    let msg = order(42, 7, Side::Bid, 100, 5, Tif::Gtc);
    let bytes = request(&msg);
    assert_eq!(bytes.len(), 45);
    assert_eq!(
        decide(SessionEvent::Buffered, &bytes),
        SessionAction::Forward { msg, total: 45 }
    );
    assert_eq!(
        try_decode(&bytes),
        DecodeStep::Decoded { msg, total: 45 }
    );
}

#[test]
fn session_forwards_several_messages_of_one_read() {
    let mut bytes = Vec::new();
    for (id, price, qty) in [(1, 100, 5), (2, 99, 3), (3, 98, 1)] {
        bytes.extend(request(&order(id, 7, Side::Bid, price, qty, Tif::Gtc)));
    }
    let mut count = 0;
    while let SessionAction::Forward { msg, total } = decide(SessionEvent::Buffered, &bytes) {
        assert!(matches!(msg, Inbound::NewOrder(_)));
        bytes.drain(..total);
        count += 1;
    }
    assert_eq!(count, 3);
    assert_eq!(decide(SessionEvent::Buffered, &bytes), SessionAction::Read);
}

#[test]
fn session_waits_for_the_rest_of_a_frame() {
    let bytes = request(&cancel(1, 7));
    for n in 0..bytes.len() {
        assert_eq!(
            decide(SessionEvent::Buffered, &bytes[..n]),
            SessionAction::Read
        );
        assert_eq!(try_decode(&bytes[..n]), DecodeStep::NeedMore);
    }
}

#[test]
fn session_closes_on_malformed_frame() {
    let mut framed = Vec::new();
    Frame::write(MessageKind::NewOrder, &[0u8; 10], &mut framed).expect("fits");
    assert_eq!(
        decide(SessionEvent::Buffered, &framed),
        SessionAction::Close(CloseReason::Malformed(WireError::PayloadSize))
    );
}

#[test]
fn session_closes_on_outbound_kind() {
    let mut framed = Vec::new();
    Frame::write(MessageKind::TradePrint, &[0u8; 48], &mut framed).expect("fits");
    assert_eq!(
        decide(SessionEvent::Buffered, &framed),
        SessionAction::Close(CloseReason::Malformed(WireError::UnknownKind(102)))
    );
}

#[test]
fn session_closes_on_unassigned_kind() {
    let framed = [3, 0, 0, 0, 77, 1, 2];
    assert_eq!(
        decide(SessionEvent::Buffered, &framed),
        SessionAction::Close(CloseReason::UnknownKind(77))
    );
    assert_eq!(
        try_decode(&framed),
        DecodeStep::Skipped { byte: 77, total: 7 }
    );
}

#[test]
fn session_closes_on_empty_frame() {
    for bytes in [vec![0u8; 4], vec![0u8; 9], vec![0, 0, 0, 0, 6, 1, 2]] {
        assert_eq!(
            try_decode(&bytes),
            DecodeStep::Malformed {
                err: WireError::EmptyFrame,
                total: 4
            }
        );
        assert_eq!(
            decide(SessionEvent::Buffered, &bytes),
            SessionAction::Close(CloseReason::Malformed(WireError::EmptyFrame))
        );
        assert_eq!(poll(&bytes), Received::Failed(WireError::EmptyFrame));
    }
    assert_eq!(
        decide(SessionEvent::Buffered, &[0, 0, 0]),
        SessionAction::Read
    );
}

#[test]
fn session_hands_on_what_comes_before_a_fault_and_answers_it() {
    let first = order(1, 7, Side::Bid, 100, 5, Tif::Gtc);
    let second = cancel(1, 7);
    let mut bytes = request(&first);
    bytes.extend(request(&second));
    Frame::write(MessageKind::NewOrder, &[0u8; 10], &mut bytes).expect("fits");
    bytes.extend(request(&first));
    let mut forwarded = Vec::new();
    let reason = loop {
        match decide(SessionEvent::Buffered, &bytes) {
            SessionAction::Forward { msg, total } => {
                forwarded.push(msg);
                bytes.drain(..total);
            }
            SessionAction::Close(reason) => break reason,
            SessionAction::Read => panic!("the bytes are all there"),
        }
    };
    assert_eq!(forwarded, vec![first, second]);
    assert_eq!(reason, CloseReason::Malformed(WireError::PayloadSize));
    let reply = closing_reply(reason, RecvTs::new(77));
    assert_eq!(reply.len(), 69);
    match poll(&reply) {
        Received::Message { msg, total } => {
            assert_eq!(total, 69);
            match msg {
                Outbound::ExecReport(r) => {
                    assert_eq!(r.state, ExecState::Rejected);
                    assert_eq!(r.reject_reason, Some(RejectReason::MalformedMessage));
                    assert_eq!(r.engine_seq.as_raw(), 0);
                    assert_eq!(r.order_id.as_raw(), 1);
                    assert_eq!(r.account_id.as_raw(), 1);
                    assert_eq!(r.recv_ts.as_nanos(), 77);
                    assert_eq!(r.emit_ts.as_nanos(), 77);
                    assert_eq!(r.leaves_qty, None);
                }
                other => panic!("unexpected variant: {other:?}"),
            }
        }
        other => panic!("unexpected reply: {other:?}"),
    }
}

#[test]
fn only_bytes_that_hold_no_command_are_answered() {
    let now = RecvTs::new(5);
    assert_eq!(
        closing_reply(CloseReason::UnknownKind(77), now),
        closing_reply(CloseReason::Malformed(WireError::EmptyFrame), now)
    );
    for reason in [
        CloseReason::QueueFull,
        CloseReason::PeerClosed,
        CloseReason::ReadFailed,
    ] {
        assert!(closing_reply(reason, now).is_empty());
    }
}

#[test]
fn session_ends_with_its_connection() {
    let bytes = request(&cancel(1, 7));
    let cases = [
        (SessionEvent::QueueFull, CloseReason::QueueFull),
        (SessionEvent::PeerClosed, CloseReason::PeerClosed),
        (SessionEvent::ReadFailed, CloseReason::ReadFailed),
    ];
    for (event, reason) in cases {
        assert_eq!(decide(event, &bytes), SessionAction::Close(reason));
    }
    assert_eq!(DEFAULT_READ_BUFFER, 4096);
}

#[test]
fn client_hands_out_what_has_arrived_even_if_time_has_run_out() {
    let mut s = Surface::new();
    let events = s.send(&[order(1, 7, Side::Bid, 100, 5, Tif::Gtc)]);
    let mut bytes = Vec::new();
    encoder::encode(&events[0], &mut bytes).expect("encode");
    assert_eq!(bytes.len(), 69);
    match recv_step(&bytes, true) {
        RecvStep::Deliver { msg, total } => {
            assert_eq!(msg, events[0]);
            assert_eq!(total, 69);
        }
        other => panic!("unexpected step: {other:?}"),
    }
    assert_eq!(recv_step(&bytes[..68], false), RecvStep::Read);
    assert_eq!(
        recv_step(&bytes[..68], true),
        RecvStep::Fail(RecvFault::Timeout)
    );
    assert_eq!(poll(&bytes[..68]), Received::NeedMore);
}

#[test]
fn client_fails_on_bytes_that_are_no_message() {
    let framed = [1, 0, 0, 0, 77];
    assert_eq!(poll(&framed), Received::Failed(WireError::UnknownKind(77)));
    assert_eq!(
        recv_step(&framed, false),
        RecvStep::Fail(RecvFault::Wire(WireError::UnknownKind(77)))
    );
}

#[test]
fn client_drains_up_to_a_number_or_until_time_runs_out() {
    assert!(wants_more(0, 1, false));
    assert!(!wants_more(1, 1, false));
    assert!(!wants_more(0, 1, true));
    assert!(!wants_more(0, 0, false));
    assert_eq!(DEFAULT_RECV_TIMEOUT_MILLIS, 500);
}

#[test]
fn reads_may_split_the_bytes_anywhere() {
    let msgs = vec![
        order(1, 7, Side::Bid, 100, 5, Tif::Gtc),
        cancel(1, 7),
        kill(KillSwitchState::Halt),
    ];
    let mut bytes = Vec::new();
    for msg in &msgs {
        bytes.extend(request(msg));
    }
    bytes.extend_from_slice(&request(&msgs[0])[..17]);
    for size in [1, 2, 3, 5, 7, 29, 44, 45, 46, 200] {
        let mut held: Vec<u8> = Vec::new();
        let mut forwarded = Vec::new();
        for read in bytes.chunks(size) {
            held.extend_from_slice(read);
            loop {
                match decide(SessionEvent::Buffered, &held) {
                    SessionAction::Forward { msg, total } => {
                        forwarded.push(msg);
                        held.drain(..total);
                    }
                    SessionAction::Read => break,
                    SessionAction::Close(reason) => panic!("closed: {reason:?}"),
                }
            }
        }
        assert_eq!(forwarded, msgs);
        assert_eq!(held.len(), 17);
    }
}
