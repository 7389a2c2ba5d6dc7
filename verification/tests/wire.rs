//! Frames and payloads, byte by byte.

use hft_clob_core::domain::{
    AccountId, AccountIdError, CancelReason, CancelReasonError, ClientTs, DomainError, EngineSeq,
    ExecState, ExecStateError, OrderId, OrderIdError, OrderType, OrderTypeError, Price, PriceError,
    Qty, QtyError, RecvTs, RejectReason, RejectReasonError, Side, SideError, Tif, TifError,
    TradeId,
};
use hft_clob_core::marketdata::encoder;
use hft_clob_core::wire::framing::{
    Frame, MessageKind, ParseOutcome, FRAME_HEADER_BYTES, FRAME_LEN_BYTES, WIRE_VERSION,
};
use hft_clob_core::wire::inbound::{
    cancel_order, cancel_replace, encode_frame, kill_switch, mass_cancel, new_order, parse_frame,
    snapshot_request, CancelOrder, CancelReplace, Inbound, KillSwitchSet, KillSwitchState,
    MassCancel, NewOrder, SnapshotRequest,
};
use hft_clob_core::wire::outbound::{
    book_update_l2_delta, book_update_top, exec_report, snapshot_response, trade_print,
    BookUpdateL2Delta, BookUpdateTop, ExecReport, Outbound, SnapshotResponse, TradePrint,
};
use hft_clob_core::wire::WireError;

fn sample_order() -> NewOrder {
    NewOrder {
        client_ts: ClientTs::new(0x0102_0304_0506_0708),
        order_id: OrderId::new(0x1112).expect("ok"),
        account_id: AccountId::new(7).expect("ok"),
        side: Side::Ask,
        order_type: OrderType::Limit,
        tif: Tif::PostOnly,
        price: Some(Price::new(100).expect("ok")),
        qty: Qty::new(5).expect("ok"),
    }
}

fn sample_order_bytes() -> Vec<u8> {
    vec![
        8, 7, 6, 5, 4, 3, 2, 1, // client_ts
        0x12, 0x11, 0, 0, 0, 0, 0, 0, // order_id
        7, 0, 0, 0, // account_id
        2, 1, 3, 0, // side, type, tif, pad
        100, 0, 0, 0, 0, 0, 0, 0, // price
        5, 0, 0, 0, 0, 0, 0, 0, // qty
    ]
}

fn commands() -> Vec<Inbound> {
    vec![
        Inbound::NewOrder(sample_order()),
        Inbound::NewOrder(NewOrder {
            order_type: OrderType::Market,
            tif: Tif::Ioc,
            price: None,
            ..sample_order()
        }),
        Inbound::CancelOrder(CancelOrder {
            client_ts: ClientTs::new(-1),
            order_id: OrderId::new(u64::MAX).expect("ok"),
            account_id: AccountId::new(u32::MAX).expect("ok"),
        }),
        Inbound::CancelReplace(CancelReplace {
            client_ts: ClientTs::new(3),
            order_id: OrderId::new(4).expect("ok"),
            account_id: AccountId::new(5).expect("ok"),
            new_price: Price::new(i64::MAX).expect("ok"),
            new_qty: Qty::new(u64::MAX).expect("ok"),
        }),
        Inbound::MassCancel(MassCancel {
            client_ts: ClientTs::new(i64::MIN),
            account_id: AccountId::new(9).expect("ok"),
        }),
        Inbound::KillSwitchSet(KillSwitchSet {
            client_ts: ClientTs::new(1),
            state: KillSwitchState::Resume,
            admin_token: 0xfeed,
        }),
        Inbound::SnapshotRequest(SnapshotRequest { request_id: 42 }),
    ]
}

#[test]
fn frame_layout() {
    let mut out = vec![0xaa];
    Frame::write(MessageKind::MassCancel, &[1, 2, 3], &mut out).expect("fits");
    assert_eq!(out, vec![0xaa, 4, 0, 0, 0, 4, 1, 2, 3]);
    let (frame, total) = Frame::parse(&out[1..]).expect("parse");
    assert_eq!(frame.kind, MessageKind::MassCancel);
    assert_eq!(frame.payload, &[1, 2, 3]);
    assert_eq!(total, 8);
    assert_eq!(WIRE_VERSION, 1);
    assert_eq!(FRAME_LEN_BYTES, 4);
    assert_eq!(FRAME_HEADER_BYTES, 5);
}

#[test]
fn frame_parse_ignores_what_follows() {
    let bytes = [1, 0, 0, 0, 6, 9, 9, 9];
    let (frame, total) = Frame::parse(&bytes).expect("parse");
    assert_eq!(frame.kind, MessageKind::SnapshotRequest);
    assert!(frame.payload.is_empty());
    assert_eq!(total, 5);
}

#[test]
fn frame_truncated() {
    let bytes = [3, 0, 0, 0, 6, 9, 9];
    for n in 0..bytes.len() {
        assert_eq!(Frame::parse(&bytes[..n]), Err(WireError::Truncated));
        assert_eq!(Frame::parse_or_skip(&bytes[..n]), Err(WireError::Truncated));
    }
    assert!(Frame::parse(&bytes).is_ok());
}

#[test]
fn frame_of_unassigned_kind() {
    let bytes = [2, 0, 0, 0, 200, 9];
    assert_eq!(Frame::parse(&bytes), Err(WireError::UnknownKind(200)));
    assert_eq!(
        Frame::parse_or_skip(&bytes),
        Ok((ParseOutcome::UnknownKind(200), 6))
    );
}

#[test]
fn message_kind_codes_are_stable() {
    let kinds = [
        (1, MessageKind::NewOrder),
        (2, MessageKind::CancelOrder),
        (3, MessageKind::CancelReplace),
        (4, MessageKind::MassCancel),
        (5, MessageKind::KillSwitchSet),
        (6, MessageKind::SnapshotRequest),
        (101, MessageKind::ExecReport),
        (102, MessageKind::TradePrint),
        (103, MessageKind::BookUpdateTop),
        (104, MessageKind::BookUpdateL2Delta),
        (105, MessageKind::SnapshotResponse),
    ];
    for (code, kind) in kinds {
        assert_eq!(kind.as_u8(), code);
        assert_eq!(MessageKind::of_code(code), Some(kind));
    }
    assert_eq!(MessageKind::of_code(0), None);
    assert_eq!(MessageKind::of_code(7), None);
    assert_eq!(MessageKind::of_code(106), None);
}

#[test]
fn payload_sizes() {
    assert_eq!(new_order::SIZE, 40);
    assert_eq!(cancel_order::SIZE, 24);
    assert_eq!(cancel_replace::SIZE, 40);
    assert_eq!(mass_cancel::SIZE, 16);
    assert_eq!(kill_switch::SIZE, 24);
    assert_eq!(snapshot_request::SIZE, 16);
    assert_eq!(exec_report::SIZE, 64);
    assert_eq!(trade_print::SIZE, 48);
    assert_eq!(book_update_top::SIZE, 48);
    assert_eq!(book_update_l2_delta::SIZE, 40);
}

#[test]
fn new_order_layout() {
    let mut out = Vec::new();
    new_order::encode(&sample_order(), &mut out);
    assert_eq!(out, sample_order_bytes());
    assert_eq!(new_order::decode(&out), Ok(sample_order()));
}

#[test]
fn every_command_is_read_back() {
    for msg in commands() {
        let mut framed = Vec::new();
        encode_frame(&msg, &mut framed);
        let size = framed.len();
        framed.extend_from_slice(&[1, 2, 3]);
        let (frame, total) = Frame::parse(&framed).expect("parse");
        assert_eq!(total, size);
        assert_eq!(parse_frame(frame), Ok(msg));
    }
}

#[test]
fn new_order_rejects_bad_fields() {
    let cases: Vec<(usize, u8, WireError)> = vec![
        (23, 1, WireError::NonZeroPad(23)),
        (16, 0, WireError::Domain(DomainError::AccountId(AccountIdError::Zero))),
        (20, 3, WireError::Domain(DomainError::Side(SideError::Unknown(3)))),
        (21, 0, WireError::Domain(DomainError::OrderType(OrderTypeError::Unknown(0)))),
        (22, 9, WireError::Domain(DomainError::Tif(TifError::Unknown(9)))),
        (24, 0, WireError::Domain(DomainError::Price(PriceError::NonPositive))),
        (31, 0x80, WireError::Domain(DomainError::Price(PriceError::NonPositive))),
        (32, 0, WireError::Domain(DomainError::Qty(QtyError::Zero))),
    ];
    for (at, byte, err) in cases {
        let mut p = sample_order_bytes();
        p[at] = byte;
        assert_eq!(new_order::decode(&p), Err(err));
    }
    let mut p = sample_order_bytes();
    p[8] = 0;
    p[9] = 0;
    assert_eq!(
        new_order::decode(&p),
        Err(WireError::Domain(DomainError::OrderId(OrderIdError::Zero)))
    );
    assert_eq!(
        new_order::decode(&sample_order_bytes()[..39]),
        Err(WireError::PayloadSize)
    );
}

#[test]
fn market_order_names_no_price_and_is_immediate() {
    let mut p = sample_order_bytes();
    p[21] = 2;
    assert_eq!(new_order::decode(&p), Err(WireError::MarketTerms));
    p[22] = 2;
    assert_eq!(new_order::decode(&p), Err(WireError::MarketTerms));
    p[24] = 0;
    let decoded = new_order::decode(&p).expect("market order");
    assert_eq!(decoded.order_type, OrderType::Market);
    assert_eq!(decoded.price, None);
    assert_eq!(decoded.tif, Tif::Ioc);
    p[22] = 1;
    assert_eq!(new_order::decode(&p), Err(WireError::MarketTerms));
}

#[test]
fn kill_switch_state_is_checked() {
    let mut p = Vec::new();
    let msg = KillSwitchSet {
        client_ts: ClientTs::new(0),
        state: KillSwitchState::Halt,
        admin_token: 0x0102,
    };
    kill_switch::encode(&msg, &mut p);
    assert_eq!(
        p,
        vec![0, 0, 0, 0, 0, 0, 0, 0, 1, 0, 0, 0, 0, 0, 0, 0, 2, 1, 0, 0, 0, 0, 0, 0]
    );
    assert_eq!(kill_switch::decode(&p), Ok(msg));
    p[8] = 3;
    assert_eq!(
        kill_switch::decode(&p),
        Err(WireError::UnknownKillSwitchState(3))
    );
    p[15] = 1;
    assert_eq!(kill_switch::decode(&p), Err(WireError::NonZeroPad(15)));
}

#[test]
fn outbound_kind_is_no_command() {
    let framed = [1, 0, 0, 0, 101];
    let (frame, _) = Frame::parse(&framed).expect("parse");
    assert_eq!(parse_frame(frame), Err(WireError::UnknownKind(101)));
}

#[test]
fn command_kind_is_no_outbound_message() {
    let mut framed = Vec::new();
    encode_frame(
        &Inbound::SnapshotRequest(SnapshotRequest { request_id: 1 }),
        &mut framed,
    );
    assert_eq!(encoder::decode(&framed), Err(WireError::UnknownKind(6)));
}

fn sample_report() -> ExecReport {
    ExecReport {
        engine_seq: EngineSeq::new(1),
        order_id: OrderId::new(2).expect("ok"),
        account_id: AccountId::new(3).expect("ok"),
        state: ExecState::Rejected,
        fill_price: None,
        fill_qty: None,
        leaves_qty: Some(Qty::new(9).expect("ok")),
        reject_reason: Some(RejectReason::MaxNotional),
        cancel_reason: None,
        recv_ts: RecvTs::new(4),
        emit_ts: RecvTs::new(5),
    }
}

#[test]
fn exec_report_layout() {
    let mut out = Vec::new();
    encoder::encode(&Outbound::ExecReport(sample_report()), &mut out).expect("encode");
    let mut expected = vec![65, 0, 0, 0, 101];
    for raw in [1u64, 2] {
        expected.extend_from_slice(&raw.to_le_bytes());
    }
    expected.extend_from_slice(&3u32.to_le_bytes());
    expected.extend_from_slice(&[ExecState::Rejected.as_u8(), 8, 0, 0]);
    for raw in [0u64, 0, 9, 4, 5] {
        expected.extend_from_slice(&raw.to_le_bytes());
    }
    assert_eq!(out, expected);
}

#[test]
fn exec_report_rejects_bad_fields() {
    let mut p = Vec::new();
    exec_report::encode(&sample_report(), &mut p);
    let cases: Vec<(usize, u8, WireError)> = vec![
        (20, 0, WireError::Domain(DomainError::ExecState(ExecStateError::Unknown(0)))),
        (21, 99, WireError::Domain(DomainError::RejectReason(RejectReasonError::Unknown(99)))),
        (22, 99, WireError::Domain(DomainError::CancelReason(CancelReasonError::Unknown(99)))),
        (23, 4, WireError::NonZeroPad(23)),
        (31, 0xff, WireError::Domain(DomainError::Price(PriceError::NonPositive))),
    ];
    for (at, byte, err) in cases {
        let mut q = p.clone();
        q[at] = byte;
        assert_eq!(exec_report::decode(&q), Err(err));
    }
    assert_eq!(exec_report::decode(&p), Ok(sample_report()));
    p[22] = CancelReason::MassCancel.as_u8();
    assert_eq!(
        exec_report::decode(&p).expect("decode").cancel_reason,
        Some(CancelReason::MassCancel)
    );
}

#[test]
fn delta_without_quantity_is_a_removed_level() {
    let msg = BookUpdateL2Delta {
        engine_seq: EngineSeq::new(7),
        price: Price::new(100).expect("ok"),
        new_qty: None,
        side: Side::Bid,
        emit_ts: RecvTs::new(1),
    };
    let mut p = Vec::new();
    book_update_l2_delta::encode(&msg, &mut p);
    assert_eq!(p[16..24], [0u8; 8]);
    assert_eq!(book_update_l2_delta::decode(&p), Ok(msg));
}

#[test]
fn trade_print_layout() {
    let msg = TradePrint {
        engine_seq: EngineSeq::new(1),
        trade_id: TradeId::new(2),
        price: Price::new(3).expect("ok"),
        qty: Qty::new(4).expect("ok"),
        aggressor_side: Side::Ask,
        emit_ts: RecvTs::new(5),
    };
    let mut p = Vec::new();
    trade_print::encode(&msg, &mut p);
    let mut expected = Vec::new();
    for raw in [1u64, 2, 3, 4, 2, 5] {
        expected.extend_from_slice(&raw.to_le_bytes());
    }
    assert_eq!(p, expected);
    p[39] = 1;
    assert_eq!(trade_print::decode(&p), Err(WireError::NonZeroPad(39)));
}

#[test]
fn top_of_an_empty_side() {
    let msg = BookUpdateTop {
        engine_seq: EngineSeq::new(1),
        bid: None,
        ask: Some((Price::new(100).expect("ok"), Qty::new(5).expect("ok"))),
        emit_ts: RecvTs::new(2),
    };
    let mut p = Vec::new();
    book_update_top::encode(&msg, &mut p);
    assert_eq!(p[8..24], [0u8; 16]);
    assert_eq!(book_update_top::decode(&p), Ok(msg));
    p[16] = 1;
    assert!(matches!(
        book_update_top::decode(&p),
        Err(WireError::Domain(DomainError::Price(PriceError::NonPositive)))
    ));
}

#[test]
fn snapshot_layout() {
    let level = |price: i64, qty: u64| snapshot_response::Level {
        price: Price::new(price).expect("ok"),
        qty: Qty::new(qty).expect("ok"),
    };
    let msg = SnapshotResponse {
        engine_seq: EngineSeq::new(1),
        request_id: 2,
        recv_ts: RecvTs::new(3),
        emit_ts: RecvTs::new(4),
        bids: vec![level(100, 5), level(99, 6)],
        asks: vec![level(101, 7)],
    };
    let mut framed = Vec::new();
    encoder::encode(&Outbound::SnapshotResponse(msg.clone()), &mut framed).expect("encode");
    let mut expected = Vec::new();
    for raw in [1u64, 2, 3, 4] {
        expected.extend_from_slice(&raw.to_le_bytes());
    }
    expected.extend_from_slice(&[2, 0, 0, 0, 1, 0, 0, 0]);
    for raw in [100u64, 5, 99, 6, 101, 7] {
        expected.extend_from_slice(&raw.to_le_bytes());
    }
    assert_eq!(&framed[5..], &expected[..]);
    let (decoded, total) = encoder::decode(&framed).expect("decode");
    assert_eq!(decoded, Outbound::SnapshotResponse(msg));
    assert_eq!(total, framed.len());
    assert_eq!(
        snapshot_response::decode(&expected[..expected.len() - 1]),
        Err(WireError::PayloadSize)
    );
    let at = expected.len() - 8;
    expected[at] = 0;
    assert_eq!(
        snapshot_response::decode(&expected),
        Err(WireError::Domain(DomainError::Qty(QtyError::Zero)))
    );
}
