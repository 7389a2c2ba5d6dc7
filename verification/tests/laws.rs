//! What holds of the book, of risk and of every command, on concrete values.

use hft_clob_core::domain::consts::{
    LOT_SIZE, MAX_NOTIONAL_PER_ACCT, MAX_OPEN_ORDERS_PER_ACCT, PRICE_BAND_BPS, SYMBOL, TICK_SIZE,
};
use hft_clob_core::domain::{
    AccountId, CancelReason, ClientTs, EngineSeq, ExecState, OrderId, OrderKey, OrderType, Price,
    Qty, RecvTs, RejectReason, Side, Tif, TradeId,
};
use hft_clob_core::engine::{CounterIdGenerator, Engine, StubClock, VecSink};
use hft_clob_core::matching::{AggressiveOrder, Book, BookError, RestingOrder};
use hft_clob_core::risk::{notional_of, RiskState};
use hft_clob_core::wire::inbound::{
    CancelOrder, CancelReplace, Inbound, KillSwitchSet, KillSwitchState, MassCancel, NewOrder,
    SnapshotRequest,
};
use hft_clob_core::wire::outbound::Outbound;

type TestEngine = Engine<StubClock, CounterIdGenerator, VecSink>;

fn engine() -> TestEngine {
    Engine::new(StubClock::new(5), CounterIdGenerator::new(), VecSink::new())
}

fn price(p: i64) -> Price {
    Price::new(p).expect("price")
}

fn qty(q: u64) -> Qty {
    Qty::new(q).expect("qty")
}

fn id(i: u64) -> OrderId {
    OrderId::new(i).expect("id")
}

fn acct(a: u32) -> AccountId {
    AccountId::new(a).expect("account")
}

fn key(a: u32, i: u64) -> OrderKey {
    OrderKey {
        account_id: acct(a),
        order_id: id(i),
    }
}

fn new_order(i: u64, a: u32, side: Side, p: i64, q: u64, tif: Tif) -> NewOrder {
    NewOrder {
        client_ts: ClientTs::new(0),
        order_id: id(i),
        account_id: acct(a),
        side,
        order_type: OrderType::Limit,
        tif,
        price: Some(price(p)),
        qty: qty(q),
    }
}

fn market_order(i: u64, a: u32, side: Side, q: u64) -> NewOrder {
    NewOrder {
        order_type: OrderType::Market,
        tif: Tif::Ioc,
        price: None,
        ..new_order(i, a, side, 1, q, Tif::Ioc)
    }
}

fn cancel(i: u64, a: u32) -> CancelOrder {
    CancelOrder {
        client_ts: ClientTs::new(0),
        order_id: id(i),
        account_id: acct(a),
    }
}

fn replace(i: u64, a: u32, p: i64, q: u64) -> CancelReplace {
    CancelReplace {
        client_ts: ClientTs::new(0),
        order_id: id(i),
        account_id: acct(a),
        new_price: price(p),
        new_qty: qty(q),
    }
}

fn kill(state: KillSwitchState) -> Inbound {
    Inbound::KillSwitchSet(KillSwitchSet {
        client_ts: ClientTs::new(0),
        state,
        admin_token: 0,
    })
}

fn run(e: &mut TestEngine, msg: Inbound) -> Vec<Outbound> {
    e.step(msg);
    e.sink_mut().take()
}

fn enter(e: &mut TestEngine, i: u64, a: u32, side: Side, p: i64, q: u64) -> Vec<Outbound> {
    run(
        e,
        Inbound::NewOrder(new_order(i, a, side, p, q, Tif::Gtc)),
    )
}

/// Order id, state, fill price and quantity, and leaves of every report.
fn reports(events: &[Outbound]) -> Vec<(u64, ExecState, Option<(i64, u64)>, Option<u64>)> {
    events
        .iter()
        .filter_map(|o| match o {
            Outbound::ExecReport(r) => Some((
                r.order_id.as_raw(),
                r.state,
                r.fill_price
                    .map(|p| (p.as_ticks(), r.fill_qty.expect("fill qty").as_lots())),
                r.leaves_qty.map(|q| q.as_lots()),
            )),
            _ => None,
        })
        .collect()
}

fn rejection(events: &[Outbound]) -> Option<RejectReason> {
    events.iter().find_map(|o| match o {
        Outbound::ExecReport(r) => r.reject_reason,
        _ => None,
    })
}

fn cancellations(events: &[Outbound]) -> Vec<(u64, CancelReason)> {
    events
        .iter()
        .filter_map(|o| match o {
            Outbound::ExecReport(r) => r.cancel_reason.map(|c| (r.order_id.as_raw(), c)),
            _ => None,
        })
        .collect()
}

fn deltas(events: &[Outbound]) -> Vec<(Side, i64, u64)> {
    events
        .iter()
        .filter_map(|o| match o {
            Outbound::BookUpdateL2Delta(d) => Some((
                d.side,
                d.price.as_ticks(),
                d.new_qty.map_or(0, |q| q.as_lots()),
            )),
            _ => None,
        })
        .collect()
}

/// A refusal is the rejection and the top of the unchanged book.
fn assert_refused(events: &[Outbound], reason: RejectReason) {
    assert_eq!(events.len(), 2);
    assert_eq!(rejection(events), Some(reason));
    assert!(matches!(events[1], Outbound::BookUpdateTop(_)));
}

fn levels(e: &TestEngine) -> (Vec<(i64, u64)>, Vec<(i64, u64)>) {
    let side = |levels: Vec<hft_clob_core::matching::Level>| {
        levels
            .iter()
            .map(|l| (l.price.as_ticks(), l.qty.as_lots()))
            .collect()
    };
    (side(e.book().bid_levels()), side(e.book().ask_levels()))
}

fn resting(i: u64, a: u32, side: Side, p: i64, q: u64) -> RestingOrder {
    RestingOrder {
        order_id: id(i),
        account_id: acct(a),
        side,
        price: price(p),
        qty: qty(q),
        tif: Tif::Gtc,
    }
}

fn taker(a: u32, side: Side, limit: Option<i64>, q: u64, tif: Tif) -> AggressiveOrder {
    AggressiveOrder {
        order_id: id(999),
        account_id: acct(a),
        side,
        price: limit.map(price),
        qty: qty(q),
        tif,
    }
}

#[test]
fn constants() {
    assert_eq!(TICK_SIZE, 1);
    assert_eq!(LOT_SIZE, 1);
    assert_eq!(PRICE_BAND_BPS, 500);
    assert_eq!(MAX_OPEN_ORDERS_PER_ACCT, 1_000);
    assert_eq!(MAX_NOTIONAL_PER_ACCT, 10_000_000_000);
    assert_eq!(SYMBOL, "BTC-USDC");
}

#[test]
fn texts() {
    assert_eq!(price(1234).to_string(), "1234t");
    assert_eq!(qty(u64::MAX).to_string(), "18446744073709551615q");
    assert_eq!(id(10).to_string(), "ord:10");
    assert_eq!(acct(7).to_string(), "acct:7");
    assert_eq!(
        ClientTs::new(i64::MIN).to_string(),
        "cts:-9223372036854775808"
    );
    assert_eq!(RecvTs::new(0).to_string(), "rts:0");
    assert_eq!(EngineSeq::new(0).to_string(), "seq:0");
    assert_eq!(TradeId::new(100).to_string(), "trd:100");
    assert_eq!(Side::Bid.to_string(), "Bid");
    assert_eq!(CancelReason::IocRemaining.to_string(), "IocRemaining");
    assert_eq!(ExecState::PartiallyFilled.to_string(), "PartiallyFilled");
    assert_eq!(RejectReason::MaxNotional.to_string(), "MaxNotional");
}

#[test]
fn walk_takes_best_price_first_and_then_first_come() {
    let mut book = Book::new();
    for o in [
        resting(1, 1, Side::Ask, 101, 5),
        resting(2, 2, Side::Ask, 100, 5),
        resting(3, 3, Side::Ask, 100, 5),
        resting(4, 4, Side::Ask, 103, 5),
    ] {
        assert_eq!(book.add_resting(o), Ok(()));
    }
    let mut ids = CounterIdGenerator::new();
    let mut fills = Vec::new();
    let r = book.match_aggressive(
        taker(9, Side::Bid, Some(102), 12, Tif::Gtc),
        &mut ids,
        &mut fills,
    );
    let got: Vec<(u64, u64, i64, u64, Option<u64>)> = fills
        .iter()
        .map(|f| {
            (
                f.trade_id.as_raw(),
                f.maker_order_id.as_raw(),
                f.price.as_ticks(),
                f.qty.as_lots(),
                f.maker_leaves.map(|q| q.as_lots()),
            )
        })
        .collect();
    assert_eq!(
        got,
        vec![
            (1, 2, 100, 5, None),
            (2, 3, 100, 5, None),
            (3, 1, 101, 2, Some(3)),
        ]
    );
    assert_eq!(r.taker_remaining, None);
    assert_eq!(r.self_trade, None);
    assert_eq!(book.best_ask(), Some(price(101)));
}

#[test]
fn walk_stops_at_the_limit_and_conserves_quantity() {
    let mut book = Book::new();
    book.add_resting(resting(1, 1, Side::Bid, 100, 4)).expect("add");
    book.add_resting(resting(2, 2, Side::Bid, 98, 4)).expect("add");
    let mut ids = CounterIdGenerator::new();
    let mut fills = Vec::new();
    let r = book.match_aggressive(
        taker(9, Side::Ask, Some(99), 10, Tif::Gtc),
        &mut ids,
        &mut fills,
    );
    assert_eq!(fills.len(), 1);
    assert_eq!(r.taker_remaining, Some(qty(6)));
    assert!(!book.would_cross(Side::Ask, Some(price(99))));
    assert!(book.would_cross(Side::Ask, Some(price(98))));
    assert!(book.would_cross(Side::Ask, None));
}

#[test]
fn walk_halts_at_the_takers_own_order() {
    let mut book = Book::new();
    book.add_resting(resting(1, 1, Side::Ask, 100, 4)).expect("add");
    book.add_resting(resting(2, 9, Side::Ask, 100, 4)).expect("add");
    book.add_resting(resting(3, 1, Side::Ask, 100, 4)).expect("add");
    let mut ids = CounterIdGenerator::new();
    let mut fills = Vec::new();
    let r = book.match_aggressive(
        taker(9, Side::Bid, None, 10, Tif::Ioc),
        &mut ids,
        &mut fills,
    );
    assert_eq!(fills.len(), 1);
    assert_eq!(r.self_trade, Some(resting(2, 9, Side::Ask, 100, 4)));
    assert_eq!(r.taker_remaining, Some(qty(6)));
    assert_eq!(book.get(key(1, 1)), None);
    assert_eq!(book.get(key(9, 2)), None);
    assert_eq!(book.get(key(1, 3)), Some(resting(3, 1, Side::Ask, 100, 4)));
}

#[test]
fn post_only_taker_that_crosses_changes_nothing() {
    let mut book = Book::new();
    book.add_resting(resting(1, 1, Side::Ask, 100, 4)).expect("add");
    let mut ids = CounterIdGenerator::new();
    let mut fills = Vec::new();
    let r = book.match_aggressive(
        taker(9, Side::Bid, Some(100), 10, Tif::PostOnly),
        &mut ids,
        &mut fills,
    );
    assert!(r.taker_post_only_rejected);
    assert!(fills.is_empty());
    assert_eq!(
        book.get(key(1, 1)),
        Some(resting(1, 1, Side::Ask, 100, 4))
    );
}

#[test]
fn book_errors() {
    let mut book = Book::new();
    assert_eq!(book.cancel(key(1, 1)), Err(BookError::UnknownOrderId));
    assert_eq!(
        book.replace(key(1, 1), price(1), qty(1)),
        Err(BookError::UnknownOrderId)
    );
    book.add_resting(resting(1, 1, Side::Ask, 100, 4)).expect("add");
    assert_eq!(
        book.add_resting(resting(1, 1, Side::Bid, 90, 4)),
        Err(BookError::DuplicateOrderId)
    );
    assert_eq!(book.best_bid(), None);
    assert_eq!(book.cancel(key(2, 1)), Err(BookError::UnknownOrderId));
}

#[test]
fn cancel_gives_back_the_book() {
    let mut book = Book::new();
    book.add_resting(resting(1, 1, Side::Bid, 100, 4)).expect("add");
    book.add_resting(resting(2, 1, Side::Bid, 99, 4)).expect("add");
    let before = book.bid_levels();
    let o = resting(3, 2, Side::Bid, 100, 7);
    book.add_resting(o).expect("add");
    assert_eq!(book.cancel(key(2, 3)), Ok(o));
    assert_eq!(book.bid_levels(), before);
}

#[test]
fn levels_add_up_and_saturate() {
    let mut book = Book::new();
    book.add_resting(resting(1, 1, Side::Bid, 100, u64::MAX)).expect("add");
    book.add_resting(resting(2, 1, Side::Bid, 100, 5)).expect("add");
    book.add_resting(resting(3, 1, Side::Bid, 101, 5)).expect("add");
    let levels: Vec<(i64, u64)> = book
        .bid_levels()
        .iter()
        .map(|l| (l.price.as_ticks(), l.qty.as_lots()))
        .collect();
    assert_eq!(levels, vec![(101, 5), (100, u64::MAX)]);
}

#[test]
fn reports_of_a_sweep() {
    let mut e = engine();
    enter(&mut e, 1, 1, Side::Ask, 100, 3);
    enter(&mut e, 2, 2, Side::Ask, 101, 5);
    let events = enter(&mut e, 3, 9, Side::Bid, 101, 4);
    assert!(matches!(events[0], Outbound::TradePrint(_)));
    assert!(matches!(events[3], Outbound::TradePrint(_)));
    assert_eq!(
        reports(&events),
        vec![
            (1, ExecState::Filled, Some((100, 3)), None),
            (3, ExecState::PartiallyFilled, Some((100, 3)), Some(1)),
            (2, ExecState::PartiallyFilled, Some((101, 1)), Some(4)),
            (3, ExecState::Filled, Some((101, 1)), None),
        ]
    );
    assert_eq!(
        deltas(&events),
        vec![(Side::Ask, 100, 0), (Side::Ask, 101, 4)]
    );
    assert!(matches!(events.last(), Some(Outbound::BookUpdateTop(_))));
    assert_eq!(e.risk().last_trade_price(), Some(price(101)));
}

#[test]
fn residue_of_a_limit_order_rests() {
    let mut e = engine();
    enter(&mut e, 1, 1, Side::Ask, 100, 3);
    let events = enter(&mut e, 2, 9, Side::Bid, 100, 5);
    assert_eq!(
        reports(&events).last(),
        Some(&(2, ExecState::Accepted, None, Some(2)))
    );
    assert_eq!(levels(&e), (vec![(100, 2)], vec![]));
    assert_eq!(e.risk().exposure(acct(9)).open, 1);
    assert_eq!(e.risk().exposure(acct(9)).notional, 200);
    assert_eq!(e.risk().exposure(acct(1)).open, 0);
    assert_eq!(e.risk().exposure(acct(1)).notional, 0);
}

#[test]
fn partial_fill_keeps_the_order_on_the_books() {
    let mut e = engine();
    enter(&mut e, 1, 1, Side::Ask, 100, 5);
    enter(&mut e, 2, 9, Side::Bid, 100, 2);
    assert_eq!(e.risk().exposure(acct(1)).open, 1);
    assert_eq!(e.risk().exposure(acct(1)).notional, 300);
}

#[test]
fn immediate_order_never_rests() {
    let mut e = engine();
    enter(&mut e, 1, 1, Side::Ask, 100, 3);
    let events = run(
        &mut e,
        Inbound::NewOrder(new_order(2, 9, Side::Bid, 100, 5, Tif::Ioc)),
    );
    assert_eq!(cancellations(&events), vec![(2, CancelReason::IocRemaining)]);
    assert_eq!(levels(&e), (vec![], vec![]));
}

#[test]
fn market_order_takes_what_there_is() {
    let mut e = engine();
    enter(&mut e, 1, 1, Side::Bid, 100, 3);
    enter(&mut e, 2, 1, Side::Bid, 90, 3);
    let events = run(&mut e, Inbound::NewOrder(market_order(3, 9, Side::Ask, 10)));
    let trades = events
        .iter()
        .filter(|o| matches!(o, Outbound::TradePrint(_)))
        .count();
    assert_eq!(trades, 2);
    assert_eq!(cancellations(&events), vec![(3, CancelReason::IocRemaining)]);
    assert_eq!(levels(&e), (vec![], vec![]));
}

#[test]
fn market_order_in_an_empty_book_is_refused() {
    let mut e = engine();
    enter(&mut e, 1, 1, Side::Bid, 100, 3);
    let events = run(&mut e, Inbound::NewOrder(market_order(2, 9, Side::Bid, 1)));
    assert_refused(&events, RejectReason::MarketOrderInEmptyBook);
}

#[test]
fn self_trade_cancels_both_and_keeps_earlier_fills() {
    let mut e = engine();
    enter(&mut e, 1, 1, Side::Ask, 100, 3);
    enter(&mut e, 2, 9, Side::Ask, 100, 3);
    enter(&mut e, 3, 1, Side::Ask, 100, 3);
    let events = enter(&mut e, 4, 9, Side::Bid, 100, 8);
    assert_eq!(
        cancellations(&events),
        vec![
            (2, CancelReason::SelfTradePrevented),
            (4, CancelReason::SelfTradePrevented),
        ]
    );
    assert_eq!(levels(&e), (vec![], vec![(100, 3)]));
    assert_eq!(e.risk().exposure(acct(9)).open, 0);
}

#[test]
fn duplicate_id_is_refused_before_it_trades() {
    let mut e = engine();
    enter(&mut e, 1, 7, Side::Bid, 99, 5);
    enter(&mut e, 1, 2, Side::Ask, 100, 3);
    for tif in [Tif::Gtc, Tif::Ioc, Tif::PostOnly] {
        for p in [98, 100] {
            let events = run(
                &mut e,
                Inbound::NewOrder(new_order(1, 7, Side::Bid, p, 3, tif)),
            );
            assert_refused(&events, RejectReason::DuplicateOrderId);
        }
    }
    let events = run(&mut e, Inbound::NewOrder(market_order(1, 7, Side::Bid, 1)));
    assert_refused(&events, RejectReason::DuplicateOrderId);
    assert_eq!(levels(&e), (vec![(99, 5)], vec![(100, 3)]));
    assert_eq!(e.risk().exposure(acct(7)).open, 1);
}

#[test]
fn id_is_free_again_once_its_order_is_gone() {
    let mut e = engine();
    enter(&mut e, 1, 7, Side::Bid, 99, 5);
    run(&mut e, Inbound::CancelOrder(cancel(1, 7)));
    assert_eq!(
        reports(&enter(&mut e, 1, 7, Side::Bid, 98, 5)),
        vec![(1, ExecState::Accepted, None, Some(5))]
    );
}

#[test]
fn accounts_do_not_share_ids() {
    let mut e = engine();
    enter(&mut e, 1, 1, Side::Bid, 100, 3);
    assert_eq!(
        reports(&enter(&mut e, 1, 2, Side::Bid, 99, 4)),
        vec![(1, ExecState::Accepted, None, Some(4))]
    );
    run(&mut e, Inbound::CancelReplace(replace(1, 1, 100, 2)));
    assert_eq!(levels(&e), (vec![(100, 2), (99, 4)], vec![]));
    run(&mut e, Inbound::CancelOrder(cancel(1, 2)));
    assert_eq!(levels(&e), (vec![(100, 2)], vec![]));
    assert_eq!(e.risk().exposure(acct(1)).open, 1);
    assert_eq!(e.risk().exposure(acct(2)).open, 0);
}

#[test]
fn kill_switch_refuses_every_client_command() {
    let mut e = engine();
    enter(&mut e, 1, 1, Side::Bid, 100, 3);
    assert!(run(&mut e, kill(KillSwitchState::Halt)).is_empty());
    assert!(e.risk().is_kill_switched());
    let commands = [
        Inbound::NewOrder(new_order(2, 1, Side::Bid, 100, 1, Tif::Gtc)),
        Inbound::CancelOrder(cancel(1, 1)),
        Inbound::CancelReplace(replace(1, 1, 100, 1)),
        Inbound::MassCancel(MassCancel {
            client_ts: ClientTs::new(0),
            account_id: acct(1),
        }),
    ];
    for msg in commands {
        assert_refused(&run(&mut e, msg), RejectReason::KillSwitched);
    }
    let snapshot = run(
        &mut e,
        Inbound::SnapshotRequest(SnapshotRequest { request_id: 1 }),
    );
    assert_eq!(snapshot.len(), 1);
    assert!(run(&mut e, kill(KillSwitchState::Resume)).is_empty());
    assert!(!e.risk().is_kill_switched());
    assert_eq!(levels(&e), (vec![(100, 3)], vec![]));
}

#[test]
fn refused_mass_cancel_names_order_one() {
    let mut e = engine();
    run(&mut e, kill(KillSwitchState::Halt));
    let events = run(
        &mut e,
        Inbound::MassCancel(MassCancel {
            client_ts: ClientTs::new(0),
            account_id: acct(4),
        }),
    );
    match &events[0] {
        Outbound::ExecReport(r) => {
            assert_eq!(r.order_id, id(1));
            assert_eq!(r.account_id, acct(4));
        }
        other => panic!("unexpected variant: {other:?}"),
    }
}

#[test]
fn mass_cancel_takes_bids_then_asks_of_one_account() {
    let mut e = engine();
    enter(&mut e, 1, 1, Side::Ask, 105, 1);
    enter(&mut e, 2, 1, Side::Bid, 99, 1);
    enter(&mut e, 3, 2, Side::Bid, 100, 1);
    enter(&mut e, 4, 1, Side::Bid, 100, 1);
    let events = run(
        &mut e,
        Inbound::MassCancel(MassCancel {
            client_ts: ClientTs::new(0),
            account_id: acct(1),
        }),
    );
    assert_eq!(
        cancellations(&events),
        vec![
            (4, CancelReason::MassCancel),
            (2, CancelReason::MassCancel),
            (1, CancelReason::MassCancel),
        ]
    );
    assert_eq!(
        deltas(&events),
        vec![(Side::Bid, 99, 0), (Side::Bid, 100, 1), (Side::Ask, 105, 0)]
    );
    assert_eq!(levels(&e), (vec![(100, 1)], vec![]));
}

#[test]
fn cancelled_order_is_gone() {
    let mut e = engine();
    enter(&mut e, 1, 1, Side::Bid, 100, 3);
    let events = run(&mut e, Inbound::CancelOrder(cancel(1, 1)));
    assert_eq!(cancellations(&events), vec![(1, CancelReason::UserRequested)]);
    assert_eq!(levels(&e), (vec![], vec![]));
    let again = run(&mut e, Inbound::CancelOrder(cancel(1, 1)));
    assert_refused(&again, RejectReason::UnknownOrderId);
}

#[test]
fn strangers_can_neither_cancel_nor_amend() {
    let mut e = engine();
    enter(&mut e, 1, 1, Side::Bid, 100, 3);
    assert_refused(
        &run(&mut e, Inbound::CancelOrder(cancel(1, 2))),
        RejectReason::UnknownOrderId,
    );
    assert_refused(
        &run(&mut e, Inbound::CancelReplace(replace(1, 2, 100, 1))),
        RejectReason::UnknownOrderId,
    );
    assert_eq!(levels(&e), (vec![(100, 3)], vec![]));
}

#[test]
fn reduction_keeps_the_place_in_the_queue() {
    let mut e = engine();
    enter(&mut e, 1, 1, Side::Ask, 100, 5);
    enter(&mut e, 2, 2, Side::Ask, 100, 5);
    let events = run(&mut e, Inbound::CancelReplace(replace(1, 1, 100, 3)));
    assert_eq!(
        reports(&events),
        vec![(1, ExecState::Replaced, None, Some(3))]
    );
    assert_eq!(e.risk().exposure(acct(1)).notional, 300);
    let events = enter(&mut e, 3, 9, Side::Bid, 100, 1);
    assert_eq!(reports(&events)[0].0, 1);
}

#[test]
fn more_quantity_or_a_new_price_goes_to_the_tail() {
    for (p, q) in [(100, 6), (100, 5), (101, 5)] {
        let mut e = engine();
        enter(&mut e, 1, 1, Side::Ask, 100, 5);
        enter(&mut e, 2, 2, Side::Ask, 100, 5);
        enter(&mut e, 3, 2, Side::Ask, 101, 5);
        let events = run(&mut e, Inbound::CancelReplace(replace(1, 1, p, q)));
        assert_eq!(
            reports(&events),
            vec![(1, ExecState::Replaced, None, Some(q))]
        );
        let filled: Vec<u64> = reports(&enter(&mut e, 9, 9, Side::Bid, 101, 16))
            .iter()
            .map(|r| r.0)
            .filter(|i| *i != 9)
            .collect();
        let expected = if p == 100 { vec![2, 1, 3] } else { vec![2, 3, 1] };
        assert_eq!(filled, expected);
    }
}

#[test]
fn amendment_over_the_cap_is_refused_and_the_order_is_gone() {
    let mut e = engine();
    enter(&mut e, 1, 1, Side::Bid, 1_000, 5);
    let events = run(
        &mut e,
        Inbound::CancelReplace(replace(1, 1, 1_000, 10_000_001)),
    );
    assert_eq!(rejection(&events), Some(RejectReason::MaxNotional));
    assert_eq!(deltas(&events), vec![(Side::Bid, 1_000, 0)]);
    assert_eq!(levels(&e), (vec![], vec![]));
    assert_eq!(e.risk().exposure(acct(1)).open, 0);
}

#[test]
fn post_only_order_rests_or_is_refused() {
    let mut e = engine();
    enter(&mut e, 1, 1, Side::Ask, 100, 5);
    let events = run(
        &mut e,
        Inbound::NewOrder(new_order(2, 2, Side::Bid, 100, 5, Tif::PostOnly)),
    );
    assert_refused(&events, RejectReason::PostOnlyWouldCross);
    let events = run(
        &mut e,
        Inbound::NewOrder(new_order(3, 2, Side::Bid, 99, 5, Tif::PostOnly)),
    );
    assert_eq!(
        reports(&events),
        vec![(3, ExecState::Accepted, None, Some(5))]
    );
    let events = run(&mut e, Inbound::CancelReplace(replace(3, 2, 100, 5)));
    assert_refused(&events, RejectReason::PostOnlyWouldCross);
    assert_eq!(levels(&e), (vec![(99, 5)], vec![(100, 5)]));
}

#[test]
fn price_band() {
    let mut risk = RiskState::new();
    let check = |r: &RiskState, p: i64| {
        r.check_new_order(&new_order(1, 1, Side::Bid, p, 1, Tif::Gtc), None)
    };
    assert_eq!(check(&risk, 1), Ok(()));
    risk.on_fill(price(1_000));
    assert_eq!(check(&risk, 1_050), Ok(()));
    assert_eq!(check(&risk, 950), Ok(()));
    assert_eq!(check(&risk, 1_051), Err(RejectReason::PriceBand));
    assert_eq!(check(&risk, 949), Err(RejectReason::PriceBand));
    assert_eq!(
        risk.check_cancel_replace(&replace(1, 1, 1_051, 1)),
        Err(RejectReason::PriceBand)
    );
    assert_eq!(risk.check_cancel_replace(&replace(1, 1, 1_050, 1)), Ok(()));
    risk.on_fill(price(i64::MAX));
    assert_eq!(check(&risk, i64::MAX), Err(RejectReason::MaxNotional));
    assert_eq!(check(&risk, 1), Err(RejectReason::PriceBand));
}

#[test]
fn notional_cap() {
    let mut risk = RiskState::new();
    assert_eq!(notional_of(price(3), qty(7)), 21);
    assert_eq!(
        notional_of(price(i64::MAX), qty(u64::MAX)),
        9_223_372_036_854_775_807u128 * 18_446_744_073_709_551_615u128
    );
    assert_eq!(risk.on_order_resting(acct(1), MAX_NOTIONAL_PER_ACCT), Ok(()));
    assert_eq!(
        risk.on_order_resting(acct(1), 1),
        Err(RejectReason::MaxNotional)
    );
    assert_eq!(risk.check_caps(acct(2), MAX_NOTIONAL_PER_ACCT), Ok(()));
    assert_eq!(
        risk.check_caps(acct(2), MAX_NOTIONAL_PER_ACCT + 1),
        Err(RejectReason::MaxNotional)
    );
    risk.on_order_reduced(acct(1), 5);
    assert_eq!(risk.exposure(acct(1)).open, 1);
    assert_eq!(risk.check_caps(acct(1), 5), Ok(()));
    risk.on_order_removed(acct(1), MAX_NOTIONAL_PER_ACCT);
    assert_eq!(risk.exposure(acct(1)).open, 0);
    assert_eq!(risk.exposure(acct(1)).notional, 0);
    risk.on_order_removed(acct(1), 1);
    assert_eq!(risk.exposure(acct(1)).open, 0);
}

#[test]
fn open_order_cap() {
    let mut e = engine();
    for i in 1..=1_000 {
        enter(&mut e, i, 1, Side::Bid, 10, 1);
    }
    assert_eq!(e.risk().exposure(acct(1)).open, 1_000);
    assert_refused(
        &enter(&mut e, 1_001, 1, Side::Bid, 10, 1),
        RejectReason::MaxOpenOrders,
    );
    run(&mut e, Inbound::CancelOrder(cancel(500, 1)));
    assert_eq!(
        reports(&enter(&mut e, 1_002, 1, Side::Bid, 10, 1))[0].1,
        ExecState::Accepted
    );
}

#[test]
fn notional_cap_of_a_market_order_goes_by_the_best_opposite_price() {
    let mut e = engine();
    enter(&mut e, 1, 1, Side::Ask, 1_000_000, 10_000);
    let order = |q| Inbound::NewOrder(market_order(2, 2, Side::Bid, q));
    assert_refused(&run(&mut e, order(10_001)), RejectReason::MaxNotional);
    let events = run(&mut e, order(10_000));
    assert_eq!(reports(&events)[1].1, ExecState::Filled);
}

#[test]
fn deltas_bring_a_mirror_up_to_date() {
    let mut e = engine();
    let mut mirror: Vec<(Side, i64, u64)> = Vec::new();
    let commands = [
        Inbound::NewOrder(new_order(1, 1, Side::Bid, 100, 5, Tif::Gtc)),
        Inbound::NewOrder(new_order(2, 2, Side::Ask, 102, 5, Tif::Gtc)),
        Inbound::NewOrder(new_order(3, 1, Side::Bid, 100, 2, Tif::Gtc)),
        Inbound::NewOrder(new_order(4, 3, Side::Ask, 100, 6, Tif::Gtc)),
        Inbound::CancelReplace(replace(3, 1, 99, 4)),
        Inbound::CancelOrder(cancel(2, 2)),
    ];
    for msg in commands {
        for (side, p, q) in deltas(&run(&mut e, msg)) {
            mirror.retain(|l| (l.0, l.1) != (side, p));
            if q > 0 {
                mirror.push((side, p, q));
            }
        }
        let (bids, asks) = levels(&e);
        let mut expected: Vec<(Side, i64, u64)> = Vec::new();
        expected.extend(bids.iter().map(|l| (Side::Bid, l.0, l.1)));
        expected.extend(asks.iter().map(|l| (Side::Ask, l.0, l.1)));
        assert_eq!(mirror.len(), expected.len());
        for level in expected {
            assert!(mirror.contains(&level));
        }
    }
}

#[test]
fn top_carries_the_quantity_at_the_best_price() {
    let mut e = engine();
    enter(&mut e, 1, 7, Side::Bid, 100, 3);
    let events = enter(&mut e, 2, 7, Side::Bid, 99, 5);
    match events.last() {
        Some(Outbound::BookUpdateTop(t)) => {
            assert_eq!(t.bid, Some((price(100), qty(3))));
            assert_eq!(t.ask, None);
        }
        other => panic!("unexpected last message: {other:?}"),
    }
    let events = enter(&mut e, 3, 8, Side::Bid, 100, 4);
    match events.last() {
        Some(Outbound::BookUpdateTop(t)) => assert_eq!(t.bid, Some((price(100), qty(7)))),
        other => panic!("unexpected last message: {other:?}"),
    }
}

#[test]
fn resumed_counters_go_on_numbering() {
    let mut e = Engine::new(
        StubClock::new(1),
        CounterIdGenerator::resume(50, 70),
        VecSink::new(),
    );
    e.step(Inbound::NewOrder(new_order(1, 1, Side::Ask, 100, 1, Tif::Gtc)));
    e.clock_mut().set(9);
    e.step(Inbound::NewOrder(new_order(2, 2, Side::Bid, 100, 1, Tif::Gtc)));
    let events = e.sink_mut().take();
    match (&events[0], &events[3]) {
        (Outbound::ExecReport(r), Outbound::TradePrint(t)) => {
            assert_eq!(r.engine_seq.as_raw(), 70);
            assert_eq!(r.recv_ts.as_nanos(), 1);
            assert_eq!(t.engine_seq.as_raw(), 73);
            assert_eq!(t.trade_id.as_raw(), 50);
            assert_eq!(t.emit_ts.as_nanos(), 9);
        }
        other => panic!("unexpected messages: {other:?}"),
    }
    assert!(e.sink_mut().is_empty());
    assert_eq!(e.sink_mut().len(), 0);
}
