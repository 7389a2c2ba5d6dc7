//! Cancellation reason codes.

use vstd::prelude::*;
use vstd::std_specs::convert::TryFromSpecImpl;
use vstd::string::StringExecFns;

verus! {

/// Why an order was cancelled. The wire codes are stable: they are appended to, never
/// reassigned.
#[derive(Debug, Clone, Copy, PartialEq, Eq, PartialOrd, Ord, Hash, Structural)]
pub enum CancelReason {
    /// Client sent a `CancelOrder`.
    UserRequested,
    /// Client sent a `MassCancel` covering this order.
    MassCancel,
    /// Unfilled remainder of an immediate-or-cancel order.
    IocRemaining,
    /// Self-trade prevention (cancel-both policy).
    SelfTradePrevented,
    /// Order amended by a `CancelReplace`.
    Replaced,
}

impl CancelReason {
    /// The wire code of each variant.
    pub open spec fn code(self) -> u8 {
        match self {
            CancelReason::UserRequested => 1,
            CancelReason::MassCancel => 2,
            CancelReason::IocRemaining => 3,
            CancelReason::SelfTradePrevented => 4,
            CancelReason::Replaced => 5,
        }
    }

    /// The variant with wire code `v`, if the code is assigned.
    pub open spec fn from_code(v: u8) -> Result<CancelReason, CancelReasonError> {
        match v {
            1 => Ok(CancelReason::UserRequested),
            2 => Ok(CancelReason::MassCancel),
            3 => Ok(CancelReason::IocRemaining),
            4 => Ok(CancelReason::SelfTradePrevented),
            5 => Ok(CancelReason::Replaced),
            _ => Err(CancelReasonError::Unknown(v)),
        }
    }

    /// Decoding undoes encoding, and only assigned codes decode.
    pub proof fn codes_round_trip(self, v: u8)
        ensures
            CancelReason::from_code(self.code()) == Ok::<CancelReason, CancelReasonError>(self),
            CancelReason::from_code(v) == Ok::<CancelReason, CancelReasonError>(self) <==> v == self.code(),
    {
    }

    /// Wire code.
    pub fn as_u8(self) -> (r: u8)
        ensures
            r == self.code(),
    {
        match self {
            CancelReason::UserRequested => 1,
            CancelReason::MassCancel => 2,
            CancelReason::IocRemaining => 3,
            CancelReason::SelfTradePrevented => 4,
            CancelReason::Replaced => 5,
        }
    }

    /// Name used in logs, as a mathematical function.
    pub open spec fn label(self) -> Seq<char> {
        match self {
            CancelReason::UserRequested => "UserRequested"@,
            CancelReason::MassCancel => "MassCancel"@,
            CancelReason::IocRemaining => "IocRemaining"@,
            CancelReason::SelfTradePrevented => "SelfTradePrevented"@,
            CancelReason::Replaced => "Replaced"@,
        }
    }

    /// Name used in logs.
    pub fn name(self) -> (r: &'static str)
        ensures
            r@ == self.label(),
    {
        match self {
            CancelReason::UserRequested => "UserRequested",
            CancelReason::MassCancel => "MassCancel",
            CancelReason::IocRemaining => "IocRemaining",
            CancelReason::SelfTradePrevented => "SelfTradePrevented",
            CancelReason::Replaced => "Replaced",
        }
    }

    /// Text for logs.
    pub fn to_string(&self) -> (r: String)
        ensures
            r@ == self.label(),
    {
        String::from_str(self.name())
    }
}

impl TryFrom<u8> for CancelReason {
    type Error = CancelReasonError;

    fn try_from(v: u8) -> (r: Result<Self, CancelReasonError>) {
        match v {
            1 => Ok(CancelReason::UserRequested),
            2 => Ok(CancelReason::MassCancel),
            3 => Ok(CancelReason::IocRemaining),
            4 => Ok(CancelReason::SelfTradePrevented),
            5 => Ok(CancelReason::Replaced),
            other => Err(CancelReasonError::Unknown(other)),
        }
    }
}

impl TryFromSpecImpl<u8> for CancelReason {
    open spec fn obeys_try_from_spec() -> bool {
        true
    }

    open spec fn try_from_spec(v: u8) -> Result<Self, CancelReasonError> {
        CancelReason::from_code(v)
    }
}

/// Decode error for [`CancelReason`].
#[derive(Debug, Clone, Copy, PartialEq, Eq, Structural)]
#[non_exhaustive]
pub enum CancelReasonError {
    /// The code is not assigned.
    Unknown(u8),
}

} // verus!
