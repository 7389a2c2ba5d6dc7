//! Rejection reason codes.

use vstd::prelude::*;
use vstd::std_specs::convert::TryFromSpecImpl;
use vstd::string::StringExecFns;

verus! {

/// Why a command was refused. The wire codes are stable: they are appended to, never
/// reassigned.
#[derive(Debug, Clone, Copy, PartialEq, Eq, PartialOrd, Ord, Hash, Structural)]
pub enum RejectReason {
    /// Kill switch is engaged.
    KillSwitched,
    /// Price field outside the legal range.
    InvalidPrice,
    /// Quantity field outside the legal range.
    InvalidQty,
    /// Price not a multiple of `TICK_SIZE`.
    TickViolation,
    /// Quantity not a multiple of `LOT_SIZE`.
    LotViolation,
    /// Price differs from the last trade by more than `PRICE_BAND_BPS`.
    PriceBand,
    /// Account already at `MAX_OPEN_ORDERS_PER_ACCT`.
    MaxOpenOrders,
    /// Order would exceed `MAX_NOTIONAL_PER_ACCT`.
    MaxNotional,
    /// Cancel / cancel-replace targeted an unknown order.
    UnknownOrderId,
    /// The new order's id already exists for this account.
    DuplicateOrderId,
    /// Post-only order would cross on arrival.
    PostOnlyWouldCross,
    /// Self-trade prevention (cancel-both policy).
    SelfTradePrevented,
    /// Market order against an empty opposite side.
    MarketOrderInEmptyBook,
    /// Account not bound to the session.
    UnknownAccount,
    /// Payload failed wire validation.
    MalformedMessage,
}

impl RejectReason {
    /// The wire code of each variant.
    pub open spec fn code(self) -> u8 {
        match self {
            RejectReason::KillSwitched => 1,
            RejectReason::InvalidPrice => 2,
            RejectReason::InvalidQty => 3,
            RejectReason::TickViolation => 4,
            RejectReason::LotViolation => 5,
            RejectReason::PriceBand => 6,
            RejectReason::MaxOpenOrders => 7,
            RejectReason::MaxNotional => 8,
            RejectReason::UnknownOrderId => 9,
            RejectReason::DuplicateOrderId => 10,
            RejectReason::PostOnlyWouldCross => 11,
            RejectReason::SelfTradePrevented => 12,
            RejectReason::MarketOrderInEmptyBook => 13,
            RejectReason::UnknownAccount => 14,
            RejectReason::MalformedMessage => 15,
        }
    }

    /// The variant with wire code `v`, if the code is assigned.
    pub open spec fn from_code(v: u8) -> Result<RejectReason, RejectReasonError> {
        match v {
            1 => Ok(RejectReason::KillSwitched),
            2 => Ok(RejectReason::InvalidPrice),
            3 => Ok(RejectReason::InvalidQty),
            4 => Ok(RejectReason::TickViolation),
            5 => Ok(RejectReason::LotViolation),
            6 => Ok(RejectReason::PriceBand),
            7 => Ok(RejectReason::MaxOpenOrders),
            8 => Ok(RejectReason::MaxNotional),
            9 => Ok(RejectReason::UnknownOrderId),
            10 => Ok(RejectReason::DuplicateOrderId),
            11 => Ok(RejectReason::PostOnlyWouldCross),
            12 => Ok(RejectReason::SelfTradePrevented),
            13 => Ok(RejectReason::MarketOrderInEmptyBook),
            14 => Ok(RejectReason::UnknownAccount),
            15 => Ok(RejectReason::MalformedMessage),
            _ => Err(RejectReasonError::Unknown(v)),
        }
    }

    /// Decoding undoes encoding, and only assigned codes decode.
    pub proof fn codes_round_trip(self, v: u8)
        ensures
            RejectReason::from_code(self.code()) == Ok::<RejectReason, RejectReasonError>(self),
            RejectReason::from_code(v) == Ok::<RejectReason, RejectReasonError>(self) <==> v == self.code(),
    {
    }

    /// Wire code.
    pub fn as_u8(self) -> (r: u8)
        ensures
            r == self.code(),
    {
        match self {
            RejectReason::KillSwitched => 1,
            RejectReason::InvalidPrice => 2,
            RejectReason::InvalidQty => 3,
            RejectReason::TickViolation => 4,
            RejectReason::LotViolation => 5,
            RejectReason::PriceBand => 6,
            RejectReason::MaxOpenOrders => 7,
            RejectReason::MaxNotional => 8,
            RejectReason::UnknownOrderId => 9,
            RejectReason::DuplicateOrderId => 10,
            RejectReason::PostOnlyWouldCross => 11,
            RejectReason::SelfTradePrevented => 12,
            RejectReason::MarketOrderInEmptyBook => 13,
            RejectReason::UnknownAccount => 14,
            RejectReason::MalformedMessage => 15,
        }
    }

    /// Name used in logs, as a mathematical function.
    pub open spec fn label(self) -> Seq<char> {
        match self {
            RejectReason::KillSwitched => "KillSwitched"@,
            RejectReason::InvalidPrice => "InvalidPrice"@,
            RejectReason::InvalidQty => "InvalidQty"@,
            RejectReason::TickViolation => "TickViolation"@,
            RejectReason::LotViolation => "LotViolation"@,
            RejectReason::PriceBand => "PriceBand"@,
            RejectReason::MaxOpenOrders => "MaxOpenOrders"@,
            RejectReason::MaxNotional => "MaxNotional"@,
            RejectReason::UnknownOrderId => "UnknownOrderId"@,
            RejectReason::DuplicateOrderId => "DuplicateOrderId"@,
            RejectReason::PostOnlyWouldCross => "PostOnlyWouldCross"@,
            RejectReason::SelfTradePrevented => "SelfTradePrevented"@,
            RejectReason::MarketOrderInEmptyBook => "MarketOrderInEmptyBook"@,
            RejectReason::UnknownAccount => "UnknownAccount"@,
            RejectReason::MalformedMessage => "MalformedMessage"@,
        }
    }

    /// Name used in logs.
    pub fn name(self) -> (r: &'static str)
        ensures
            r@ == self.label(),
    {
        match self {
            RejectReason::KillSwitched => "KillSwitched",
            RejectReason::InvalidPrice => "InvalidPrice",
            RejectReason::InvalidQty => "InvalidQty",
            RejectReason::TickViolation => "TickViolation",
            RejectReason::LotViolation => "LotViolation",
            RejectReason::PriceBand => "PriceBand",
            RejectReason::MaxOpenOrders => "MaxOpenOrders",
            RejectReason::MaxNotional => "MaxNotional",
            RejectReason::UnknownOrderId => "UnknownOrderId",
            RejectReason::DuplicateOrderId => "DuplicateOrderId",
            RejectReason::PostOnlyWouldCross => "PostOnlyWouldCross",
            RejectReason::SelfTradePrevented => "SelfTradePrevented",
            RejectReason::MarketOrderInEmptyBook => "MarketOrderInEmptyBook",
            RejectReason::UnknownAccount => "UnknownAccount",
            RejectReason::MalformedMessage => "MalformedMessage",
        }
    }

    /// Text for logs.
    pub fn to_string(&self) -> (r: String)
        ensures
            r@ == self.label(),
    {
        String::from_str(self.name())
    }
}

impl TryFrom<u8> for RejectReason {
    type Error = RejectReasonError;

    fn try_from(v: u8) -> (r: Result<Self, RejectReasonError>) {
        match v {
            1 => Ok(RejectReason::KillSwitched),
            2 => Ok(RejectReason::InvalidPrice),
            3 => Ok(RejectReason::InvalidQty),
            4 => Ok(RejectReason::TickViolation),
            5 => Ok(RejectReason::LotViolation),
            6 => Ok(RejectReason::PriceBand),
            7 => Ok(RejectReason::MaxOpenOrders),
            8 => Ok(RejectReason::MaxNotional),
            9 => Ok(RejectReason::UnknownOrderId),
            10 => Ok(RejectReason::DuplicateOrderId),
            11 => Ok(RejectReason::PostOnlyWouldCross),
            12 => Ok(RejectReason::SelfTradePrevented),
            13 => Ok(RejectReason::MarketOrderInEmptyBook),
            14 => Ok(RejectReason::UnknownAccount),
            15 => Ok(RejectReason::MalformedMessage),
            other => Err(RejectReasonError::Unknown(other)),
        }
    }
}

impl TryFromSpecImpl<u8> for RejectReason {
    open spec fn obeys_try_from_spec() -> bool {
        true
    }

    open spec fn try_from_spec(v: u8) -> Result<Self, RejectReasonError> {
        RejectReason::from_code(v)
    }
}

/// Decode error for [`RejectReason`].
#[derive(Debug, Clone, Copy, PartialEq, Eq, Structural)]
#[non_exhaustive]
pub enum RejectReasonError {
    /// The code is not assigned.
    Unknown(u8),
}

} // verus!
