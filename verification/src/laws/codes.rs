//! The code of each value on the wire, and its name in text.

use vstd::prelude::*;

use crate::domain::{
    CancelReason, CancelReasonError, ExecState, ExecStateError, OrderType, OrderTypeError,
    RejectReason, RejectReasonError, Side, SideError, Tif, TifError,
};
use crate::wire::framing::MessageKind;
use crate::wire::inbound::KillSwitchState;

verus! {

/// A bid is 1, an ask 2.
pub open spec fn side_code(x: Side) -> u8 {
    if x is Bid {
        1
    } else {
        2
    }
}

/// A limit order is 1, a market order 2.
pub open spec fn type_code(x: OrderType) -> u8 {
    if x is Limit {
        1
    } else {
        2
    }
}

/// Good-til-cancel is 1, immediate-or-cancel 2, post-only 3.
pub open spec fn tif_code(x: Tif) -> u8 {
    if x is Gtc {
        1
    } else if x is Ioc {
        2
    } else {
        3
    }
}

/// Halting is 1, resuming 2.
pub open spec fn switch_code(x: KillSwitchState) -> u8 {
    if x is Halt {
        1
    } else {
        2
    }
}

/// States of an order, from 1.
pub open spec fn state_code(x: ExecState) -> u8 {
    if x is Accepted {
        1
    } else if x is Rejected {
        2
    } else if x is PartiallyFilled {
        3
    } else if x is Filled {
        4
    } else if x is Cancelled {
        5
    } else {
        6
    }
}

/// Reasons for a cancellation, from 1.
pub open spec fn cancel_code(x: CancelReason) -> u8 {
    if x is UserRequested {
        1
    } else if x is MassCancel {
        2
    } else if x is IocRemaining {
        3
    } else if x is SelfTradePrevented {
        4
    } else {
        5
    }
}

/// Reasons for a refusal, from 1.
pub open spec fn reject_code(x: RejectReason) -> u8 {
    if x is KillSwitched {
        1
    } else if x is InvalidPrice {
        2
    } else if x is InvalidQty {
        3
    } else if x is TickViolation {
        4
    } else if x is LotViolation {
        5
    } else if x is PriceBand {
        6
    } else if x is MaxOpenOrders {
        7
    } else if x is MaxNotional {
        8
    } else if x is UnknownOrderId {
        9
    } else if x is DuplicateOrderId {
        10
    } else if x is PostOnlyWouldCross {
        11
    } else if x is SelfTradePrevented {
        12
    } else if x is MarketOrderInEmptyBook {
        13
    } else if x is UnknownAccount {
        14
    } else {
        15
    }
}

/// Kinds of message: commands from 1, messages that go out from 101.
pub open spec fn kind_code(x: MessageKind) -> u8 {
    if x is NewOrder {
        1
    } else if x is CancelOrder {
        2
    } else if x is CancelReplace {
        3
    } else if x is MassCancel {
        4
    } else if x is KillSwitchSet {
        5
    } else if x is SnapshotRequest {
        6
    } else if x is ExecReport {
        101
    } else if x is TradePrint {
        102
    } else if x is BookUpdateTop {
        103
    } else if x is BookUpdateL2Delta {
        104
    } else {
        105
    }
}

/// Each side, type, time in force and switch position is written as its
/// code and read from its code; no other code is read.
pub proof fn order_codes(side: Side, order_type: OrderType, tif: Tif, state: KillSwitchState, v: u8)
    ensures
        side.code() == side_code(side),
        Side::from_code(v) == Ok::<Side, SideError>(side) <==> v == side_code(side),
        v == 0 || v > 2 ==> Side::from_code(v) == Err::<Side, SideError>(SideError::Unknown(v)),
        order_type.code() == type_code(order_type),
        OrderType::from_code(v) == Ok::<OrderType, OrderTypeError>(order_type) <==> v == type_code(
            order_type,
        ),
        v == 0 || v > 2 ==> OrderType::from_code(v) == Err::<OrderType, OrderTypeError>(
            OrderTypeError::Unknown(v),
        ),
        tif.code() == tif_code(tif),
        Tif::from_code(v) == Ok::<Tif, TifError>(tif) <==> v == tif_code(tif),
        v == 0 || v > 3 ==> Tif::from_code(v) == Err::<Tif, TifError>(TifError::Unknown(v)),
        state.code() == switch_code(state),
        KillSwitchState::from_code(v) == Some(state) <==> v == switch_code(state),
        v == 0 || v > 2 ==> KillSwitchState::from_code(v) is None,
{
}

/// Each state and each reason is written as its code and read from its
/// code; no other code is read.
pub proof fn report_codes(
    state: ExecState,
    cancel_reason: CancelReason,
    reject_reason: RejectReason,
    v: u8,
)
    ensures
        state.code() == state_code(state),
        ExecState::from_code(v) == Ok::<ExecState, ExecStateError>(state) <==> v == state_code(
            state,
        ),
        v == 0 || v > 6 ==> ExecState::from_code(v) == Err::<ExecState, ExecStateError>(
            ExecStateError::Unknown(v),
        ),
        cancel_reason.code() == cancel_code(cancel_reason),
        CancelReason::from_code(v) == Ok::<CancelReason, CancelReasonError>(cancel_reason) <==> v
            == cancel_code(cancel_reason),
        v == 0 || v > 5 ==> CancelReason::from_code(v) == Err::<CancelReason, CancelReasonError>(
            CancelReasonError::Unknown(v),
        ),
        reject_reason.code() == reject_code(reject_reason),
        RejectReason::from_code(v) == Ok::<RejectReason, RejectReasonError>(reject_reason) <==> v
            == reject_code(reject_reason),
        v == 0 || v > 15 ==> RejectReason::from_code(v) == Err::<RejectReason, RejectReasonError>(
            RejectReasonError::Unknown(v),
        ),
{
}

/// Each kind of message is written as its code and read from its code; no
/// other code is read.
pub proof fn kind_codes(kind: MessageKind, v: u8)
    ensures
        kind.code() == kind_code(kind),
        MessageKind::from_code(v) == Some(kind) <==> v == kind_code(kind),
        v == 0 || (6 < v && v < 101) || v > 105 ==> MessageKind::from_code(v) is None,
{
}

/// Each value has its own name in text.
pub proof fn values_have_names(
    side: Side,
    order_type: OrderType,
    tif: Tif,
    state: ExecState,
    cancel_reason: CancelReason,
    reject_reason: RejectReason,
)
    ensures
        side is Bid ==> side.label() == "Bid"@,
        side is Ask ==> side.label() == "Ask"@,
        order_type is Limit ==> order_type.label() == "Limit"@,
        order_type is Market ==> order_type.label() == "Market"@,
        tif is Gtc ==> tif.label() == "GTC"@,
        tif is Ioc ==> tif.label() == "IOC"@,
        tif is PostOnly ==> tif.label() == "POST_ONLY"@,
        state is Accepted ==> state.label() == "Accepted"@,
        state is Rejected ==> state.label() == "Rejected"@,
        state is PartiallyFilled ==> state.label() == "PartiallyFilled"@,
        state is Filled ==> state.label() == "Filled"@,
        state is Cancelled ==> state.label() == "Cancelled"@,
        state is Replaced ==> state.label() == "Replaced"@,
        cancel_reason is UserRequested ==> cancel_reason.label() == "UserRequested"@,
        cancel_reason is MassCancel ==> cancel_reason.label() == "MassCancel"@,
        cancel_reason is IocRemaining ==> cancel_reason.label() == "IocRemaining"@,
        cancel_reason is SelfTradePrevented ==> cancel_reason.label() == "SelfTradePrevented"@,
        cancel_reason is Replaced ==> cancel_reason.label() == "Replaced"@,
        reject_reason is KillSwitched ==> reject_reason.label() == "KillSwitched"@,
        reject_reason is InvalidPrice ==> reject_reason.label() == "InvalidPrice"@,
        reject_reason is InvalidQty ==> reject_reason.label() == "InvalidQty"@,
        reject_reason is TickViolation ==> reject_reason.label() == "TickViolation"@,
        reject_reason is LotViolation ==> reject_reason.label() == "LotViolation"@,
        reject_reason is PriceBand ==> reject_reason.label() == "PriceBand"@,
        reject_reason is MaxOpenOrders ==> reject_reason.label() == "MaxOpenOrders"@,
        reject_reason is MaxNotional ==> reject_reason.label() == "MaxNotional"@,
        reject_reason is UnknownOrderId ==> reject_reason.label() == "UnknownOrderId"@,
        reject_reason is DuplicateOrderId ==> reject_reason.label() == "DuplicateOrderId"@,
        reject_reason is PostOnlyWouldCross ==> reject_reason.label() == "PostOnlyWouldCross"@,
        reject_reason is SelfTradePrevented ==> reject_reason.label() == "SelfTradePrevented"@,
        reject_reason is MarketOrderInEmptyBook ==> reject_reason.label()
            == "MarketOrderInEmptyBook"@,
        reject_reason is UnknownAccount ==> reject_reason.label() == "UnknownAccount"@,
        reject_reason is MalformedMessage ==> reject_reason.label() == "MalformedMessage"@,
{
}

} // verus!
