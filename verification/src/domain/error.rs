//! Aggregated domain error.

use vstd::prelude::*;
use vstd::std_specs::convert::FromSpecImpl;

use crate::domain::{
    AccountIdError, CancelReasonError, EngineSeqError, ExecStateError, OrderIdError,
    OrderTypeError, PriceError, QtyError, RejectReasonError, SideError, TifError, TradeIdError,
};

verus! {

/// Any validation or decode error of a domain type.
#[derive(Debug, Clone, Copy, PartialEq, Eq, Structural)]
#[non_exhaustive]
pub enum DomainError {
    /// `Price` validation.
    Price(PriceError),
    /// `Qty` validation.
    Qty(QtyError),
    /// `OrderId` validation.
    OrderId(OrderIdError),
    /// `AccountId` validation.
    AccountId(AccountIdError),
    /// `EngineSeq` overflow.
    EngineSeq(EngineSeqError),
    /// `TradeId` overflow.
    TradeId(TradeIdError),
    /// `Side` decode.
    Side(SideError),
    /// `OrderType` decode.
    OrderType(OrderTypeError),
    /// `Tif` decode.
    Tif(TifError),
    /// `RejectReason` decode.
    RejectReason(RejectReasonError),
    /// `CancelReason` decode.
    CancelReason(CancelReasonError),
    /// `ExecState` decode.
    ExecState(ExecStateError),
}

impl From<PriceError> for DomainError {
    fn from(v: PriceError) -> (r: Self) {
        DomainError::Price(v)
    }
}

impl FromSpecImpl<PriceError> for DomainError {
    open spec fn obeys_from_spec() -> bool {
        true
    }

    open spec fn from_spec(v: PriceError) -> Self {
        DomainError::Price(v)
    }
}

impl From<QtyError> for DomainError {
    fn from(v: QtyError) -> (r: Self) {
        DomainError::Qty(v)
    }
}

impl FromSpecImpl<QtyError> for DomainError {
    open spec fn obeys_from_spec() -> bool {
        true
    }

    open spec fn from_spec(v: QtyError) -> Self {
        DomainError::Qty(v)
    }
}

impl From<OrderIdError> for DomainError {
    fn from(v: OrderIdError) -> (r: Self) {
        DomainError::OrderId(v)
    }
}

impl FromSpecImpl<OrderIdError> for DomainError {
    open spec fn obeys_from_spec() -> bool {
        true
    }

    open spec fn from_spec(v: OrderIdError) -> Self {
        DomainError::OrderId(v)
    }
}

impl From<AccountIdError> for DomainError {
    fn from(v: AccountIdError) -> (r: Self) {
        DomainError::AccountId(v)
    }
}

impl FromSpecImpl<AccountIdError> for DomainError {
    open spec fn obeys_from_spec() -> bool {
        true
    }

    open spec fn from_spec(v: AccountIdError) -> Self {
        DomainError::AccountId(v)
    }
}

impl From<EngineSeqError> for DomainError {
    fn from(v: EngineSeqError) -> (r: Self) {
        DomainError::EngineSeq(v)
    }
}

impl FromSpecImpl<EngineSeqError> for DomainError {
    open spec fn obeys_from_spec() -> bool {
        true
    }

    open spec fn from_spec(v: EngineSeqError) -> Self {
        DomainError::EngineSeq(v)
    }
}

impl From<TradeIdError> for DomainError {
    fn from(v: TradeIdError) -> (r: Self) {
        DomainError::TradeId(v)
    }
}

impl FromSpecImpl<TradeIdError> for DomainError {
    open spec fn obeys_from_spec() -> bool {
        true
    }

    open spec fn from_spec(v: TradeIdError) -> Self {
        DomainError::TradeId(v)
    }
}

impl From<SideError> for DomainError {
    fn from(v: SideError) -> (r: Self) {
        DomainError::Side(v)
    }
}

impl FromSpecImpl<SideError> for DomainError {
    open spec fn obeys_from_spec() -> bool {
        true
    }

    open spec fn from_spec(v: SideError) -> Self {
        DomainError::Side(v)
    }
}

impl From<OrderTypeError> for DomainError {
    fn from(v: OrderTypeError) -> (r: Self) {
        DomainError::OrderType(v)
    }
}

impl FromSpecImpl<OrderTypeError> for DomainError {
    open spec fn obeys_from_spec() -> bool {
        true
    }

    open spec fn from_spec(v: OrderTypeError) -> Self {
        DomainError::OrderType(v)
    }
}

impl From<TifError> for DomainError {
    fn from(v: TifError) -> (r: Self) {
        DomainError::Tif(v)
    }
}

impl FromSpecImpl<TifError> for DomainError {
    open spec fn obeys_from_spec() -> bool {
        true
    }

    open spec fn from_spec(v: TifError) -> Self {
        DomainError::Tif(v)
    }
}

impl From<RejectReasonError> for DomainError {
    fn from(v: RejectReasonError) -> (r: Self) {
        DomainError::RejectReason(v)
    }
}

impl FromSpecImpl<RejectReasonError> for DomainError {
    open spec fn obeys_from_spec() -> bool {
        true
    }

    open spec fn from_spec(v: RejectReasonError) -> Self {
        DomainError::RejectReason(v)
    }
}

impl From<CancelReasonError> for DomainError {
    fn from(v: CancelReasonError) -> (r: Self) {
        DomainError::CancelReason(v)
    }
}

impl FromSpecImpl<CancelReasonError> for DomainError {
    open spec fn obeys_from_spec() -> bool {
        true
    }

    open spec fn from_spec(v: CancelReasonError) -> Self {
        DomainError::CancelReason(v)
    }
}

impl From<ExecStateError> for DomainError {
    fn from(v: ExecStateError) -> (r: Self) {
        DomainError::ExecState(v)
    }
}

impl FromSpecImpl<ExecStateError> for DomainError {
    open spec fn obeys_from_spec() -> bool {
        true
    }

    open spec fn from_spec(v: ExecStateError) -> Self {
        DomainError::ExecState(v)
    }
}

} // verus!
