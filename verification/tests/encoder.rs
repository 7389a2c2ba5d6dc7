//! Outbound encoding.

use hft_clob_core::domain::{
    AccountId, EngineSeq, ExecState, OrderId, Price, Qty, RecvTs, Side, TradeId,
};
use hft_clob_core::marketdata::encoder::{decode, encode};
use hft_clob_core::wire::outbound::{BookUpdateTop, ExecReport, Outbound, TradePrint};

#[test]
fn test_encode_then_decode_roundtrip_exec_report() {
    let msg = Outbound::ExecReport(ExecReport {
        engine_seq: EngineSeq::new(1),
        order_id: OrderId::new(42).expect("ok"),
        account_id: AccountId::new(7).expect("ok"),
        state: ExecState::Accepted,
        fill_price: None,
        fill_qty: None,
        leaves_qty: Some(Qty::new(5).expect("ok")),
        reject_reason: None,
        cancel_reason: None,
        recv_ts: RecvTs::new(100),
        emit_ts: RecvTs::new(101),
    });
    let mut buf = Vec::new();
    encode(&msg, &mut buf).expect("encode");
    let (decoded, total) = decode(&buf).expect("decode");
    assert_eq!(total, buf.len());
    assert_eq!(decoded, msg);
}

#[test]
fn test_encode_then_decode_roundtrip_trade_print() {
    let msg = Outbound::TradePrint(TradePrint {
        engine_seq: EngineSeq::new(2),
        trade_id: TradeId::new(1),
        price: Price::new(100).expect("ok"),
        qty: Qty::new(5).expect("ok"),
        aggressor_side: Side::Bid,
        emit_ts: RecvTs::new(200),
    });
    let mut buf = Vec::new();
    encode(&msg, &mut buf).expect("encode");
    let (decoded, total) = decode(&buf).expect("decode");
    assert_eq!(total, buf.len());
    assert_eq!(decoded, msg);
}

#[test]
fn test_encode_then_decode_roundtrip_book_update_top() {
    let msg = Outbound::BookUpdateTop(BookUpdateTop {
        engine_seq: EngineSeq::new(3),
        bid: Some((Price::new(99).expect("ok"), Qty::new(10).expect("ok"))),
        ask: Some((Price::new(101).expect("ok"), Qty::new(7).expect("ok"))),
        emit_ts: RecvTs::new(300),
    });
    let mut buf = Vec::new();
    encode(&msg, &mut buf).expect("encode");
    let (decoded, total) = decode(&buf).expect("decode");
    assert_eq!(total, buf.len());
    assert_eq!(decoded, msg);
}

#[test]
fn test_encode_appends_to_existing_buffer() {
    let mut buf = vec![0xCA, 0xFE];
    let msg = Outbound::TradePrint(TradePrint {
        engine_seq: EngineSeq::new(1),
        trade_id: TradeId::new(1),
        price: Price::new(100).expect("ok"),
        qty: Qty::new(1).expect("ok"),
        aggressor_side: Side::Bid,
        emit_ts: RecvTs::new(0),
    });
    encode(&msg, &mut buf).expect("encode");
    assert_eq!(&buf[..2], &[0xCA, 0xFE]);
    let (decoded, _) = decode(&buf[2..]).expect("decode");
    assert_eq!(decoded, msg);
}
