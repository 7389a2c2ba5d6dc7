//! Domain types.

use hft_clob_core::domain::consts::{LOT_SIZE, TICK_SIZE};
use hft_clob_core::domain::{
    AccountId, AccountIdError, CancelReason, CancelReasonError, ClientTs, EngineSeq,
    EngineSeqError, ExecState, ExecStateError, OrderId, OrderIdError, OrderType, OrderTypeError,
    Price, PriceError, Qty, QtyError, RecvTs, RejectReason, RejectReasonError, Side, SideError,
    Tif, TifError, TradeId, TradeIdError,
};

#[test]
fn test_account_id_new_zero_returns_err() {
    assert_eq!(AccountId::new(0), Err(AccountIdError::Zero));
}

#[test]
fn test_account_id_new_one_returns_ok() {
    assert!(AccountId::new(1).is_ok());
}

#[test]
fn test_cancel_reason_discriminants_are_stable() {
    assert_eq!(CancelReason::UserRequested.as_u8(), 1);
    assert_eq!(CancelReason::Replaced.as_u8(), 5);
}

#[test]
fn test_cancel_reason_try_from_unknown_returns_err() {
    assert_eq!(
        CancelReason::try_from(0),
        Err(CancelReasonError::Unknown(0))
    );
    assert_eq!(
        CancelReason::try_from(6),
        Err(CancelReasonError::Unknown(6))
    );
}

#[test]
fn test_client_ts_zero_is_zero() {
    assert_eq!(ClientTs::zero().as_nanos(), 0);
}

#[test]
fn test_engine_seq_initial_is_zero() {
    assert_eq!(EngineSeq::initial().as_raw(), 0);
}

#[test]
fn test_engine_seq_next_increments_by_one() {
    let s = EngineSeq::new(41).next().expect("no overflow");
    assert_eq!(s.as_raw(), 42);
}

#[test]
fn test_engine_seq_next_overflow_returns_err() {
    assert_eq!(
        EngineSeq::new(u64::MAX).next(),
        Err(EngineSeqError::Overflow)
    );
}

#[test]
fn test_exec_state_discriminants_are_stable() {
    assert_eq!(ExecState::Accepted.as_u8(), 1);
    assert_eq!(ExecState::Replaced.as_u8(), 6);
}

#[test]
fn test_exec_state_try_from_unknown_returns_err() {
    assert_eq!(ExecState::try_from(0), Err(ExecStateError::Unknown(0)));
    assert_eq!(ExecState::try_from(7), Err(ExecStateError::Unknown(7)));
}

#[test]
fn test_order_id_new_zero_returns_err() {
    assert_eq!(OrderId::new(0), Err(OrderIdError::Zero));
}

#[test]
fn test_order_id_new_one_returns_ok() {
    assert!(OrderId::new(1).is_ok());
}

#[test]
fn test_order_type_as_u8_assigns_one_and_two() {
    assert_eq!(OrderType::Limit.as_u8(), 1);
    assert_eq!(OrderType::Market.as_u8(), 2);
}

#[test]
fn test_order_type_try_from_unknown_returns_err() {
    assert_eq!(OrderType::try_from(0), Err(OrderTypeError::Unknown(0)));
    assert_eq!(OrderType::try_from(3), Err(OrderTypeError::Unknown(3)));
}

#[test]
fn test_price_new_zero_returns_non_positive() {
    assert_eq!(Price::new(0), Err(PriceError::NonPositive));
}

#[test]
fn test_price_new_negative_returns_non_positive() {
    assert_eq!(Price::new(-1), Err(PriceError::NonPositive));
}

#[test]
fn test_price_new_one_tick_returns_ok() {
    assert!(Price::new(TICK_SIZE).is_ok());
}

#[test]
fn test_price_min_is_one_tick() {
    assert_eq!(Price::min_value().as_ticks(), TICK_SIZE);
}

#[test]
fn test_qty_new_zero_returns_zero_error() {
    assert_eq!(Qty::new(0), Err(QtyError::Zero));
}

#[test]
fn test_qty_new_one_lot_returns_ok() {
    assert!(Qty::new(LOT_SIZE).is_ok());
}

#[test]
fn test_qty_min_is_one_lot() {
    assert_eq!(Qty::min_value().as_lots(), LOT_SIZE);
}

#[test]
fn test_recv_ts_zero_is_zero() {
    assert_eq!(RecvTs::zero().as_nanos(), 0);
}

#[test]
fn test_reject_reason_discriminants_are_stable() {
    assert_eq!(RejectReason::KillSwitched.as_u8(), 1);
    assert_eq!(RejectReason::MalformedMessage.as_u8(), 15);
}

#[test]
fn test_reject_reason_try_from_unknown_returns_err() {
    assert_eq!(
        RejectReason::try_from(0),
        Err(RejectReasonError::Unknown(0))
    );
    assert_eq!(
        RejectReason::try_from(16),
        Err(RejectReasonError::Unknown(16))
    );
    assert_eq!(
        RejectReason::try_from(255),
        Err(RejectReasonError::Unknown(255))
    );
}

#[test]
fn test_side_as_u8_assigns_one_and_two() {
    assert_eq!(Side::Bid.as_u8(), 1);
    assert_eq!(Side::Ask.as_u8(), 2);
}

#[test]
fn test_side_opposite_swaps() {
    assert_eq!(Side::Bid.opposite(), Side::Ask);
    assert_eq!(Side::Ask.opposite(), Side::Bid);
}

#[test]
fn test_side_try_from_unknown_returns_err() {
    assert_eq!(Side::try_from(0), Err(SideError::Unknown(0)));
    assert_eq!(Side::try_from(3), Err(SideError::Unknown(3)));
    assert_eq!(Side::try_from(255), Err(SideError::Unknown(255)));
}

#[test]
fn test_tif_as_u8_assigns_one_two_three() {
    assert_eq!(Tif::Gtc.as_u8(), 1);
    assert_eq!(Tif::Ioc.as_u8(), 2);
    assert_eq!(Tif::PostOnly.as_u8(), 3);
}

#[test]
fn test_tif_try_from_unknown_returns_err() {
    assert_eq!(Tif::try_from(0), Err(TifError::Unknown(0)));
    assert_eq!(Tif::try_from(4), Err(TifError::Unknown(4)));
}

#[test]
fn test_trade_id_initial_is_zero() {
    assert_eq!(TradeId::initial().as_raw(), 0);
}

#[test]
fn test_trade_id_next_increments_by_one() {
    let s = TradeId::new(99).next().expect("no overflow");
    assert_eq!(s.as_raw(), 100);
}

#[test]
fn test_trade_id_next_overflow_returns_err() {
    assert_eq!(TradeId::new(u64::MAX).next(), Err(TradeIdError::Overflow));
}

