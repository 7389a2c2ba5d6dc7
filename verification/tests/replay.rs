//! Replay of recordings.

use hft_clob_core::domain::{AccountId, ClientTs, OrderId, OrderType, Price, Qty, Side, Tif};
use hft_clob_core::engine::replay_bytes;
use hft_clob_core::wire::framing::{Frame, MessageKind};
use hft_clob_core::wire::inbound::{new_order, NewOrder};

fn record_new_order(out: &mut Vec<u8>, id: u64, account: u32, price: i64, qty: u64, ts: i64) {
    let msg = NewOrder {
        client_ts: ClientTs::new(0),
        order_id: OrderId::new(id).expect("ok"),
        account_id: AccountId::new(account).expect("ok"),
        side: Side::Bid,
        order_type: OrderType::Limit,
        tif: Tif::Gtc,
        price: Some(Price::new(price).expect("ok")),
        qty: Qty::new(qty).expect("ok"),
    };
    let mut payload = Vec::new();
    new_order::encode(&msg, &mut payload);
    let mut frame = Vec::new();
    Frame::write(MessageKind::NewOrder, &payload, &mut frame).expect("fits");
    out.extend_from_slice(&frame);
    let ts_u: u64 = ts as u64;
    out.extend_from_slice(&ts_u.to_le_bytes());
}

#[test]
fn test_replay_bytes_two_independent_runs_identical_with_no_timestamps() {
    let mut inbound = Vec::new();
    for i in 0..20u64 {
        record_new_order(
            &mut inbound,
            i + 1,
            7,
            100 + (i as i64),
            5,
            1_000 + i as i64,
        );
    }
    let a = replay_bytes(&inbound, true).expect("a");
    let b = replay_bytes(&inbound, true).expect("b");
    assert_eq!(a, b);
    assert!(!a.is_empty());
}

#[test]
fn test_replay_bytes_two_independent_runs_identical_with_timestamps_when_clock_deterministic() {
    let mut inbound = Vec::new();
    for i in 0..10u64 {
        record_new_order(
            &mut inbound,
            i + 1,
            7,
            100 + (i as i64),
            5,
            1_000 + i as i64,
        );
    }
    let a = replay_bytes(&inbound, false).expect("a");
    let b = replay_bytes(&inbound, false).expect("b");
    assert_eq!(a, b);
}

#[test]
fn test_replay_bytes_partial_trailing_record_is_tolerated() {
    let mut inbound = Vec::new();
    record_new_order(&mut inbound, 1, 7, 100, 5, 1_000);
    // Append a few junk bytes that look like the start of a
    // truncated record.
    inbound.extend_from_slice(&[0u8; 3]);
    let out = replay_bytes(&inbound, true).expect("replay");
    assert!(!out.is_empty());
}
