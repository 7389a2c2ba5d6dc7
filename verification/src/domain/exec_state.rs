//! Execution-report state.

use vstd::prelude::*;
use vstd::std_specs::convert::TryFromSpecImpl;
use vstd::string::StringExecFns;

verus! {

/// Lifecycle state carried in every `ExecReport`. The wire codes are stable: they are appended to, never
/// reassigned.
#[derive(Debug, Clone, Copy, PartialEq, Eq, PartialOrd, Ord, Hash, Structural)]
pub enum ExecState {
    /// Order rests on the book.
    Accepted,
    /// Order refused; carries a `RejectReason`.
    Rejected,
    /// Order partially filled; `leaves_qty` is what is left.
    PartiallyFilled,
    /// Order fully filled; terminal.
    Filled,
    /// Order cancelled; carries a `CancelReason`. Terminal.
    Cancelled,
    /// Order amended by a `CancelReplace`.
    Replaced,
}

impl ExecState {
    /// The wire code of each variant.
    pub open spec fn code(self) -> u8 {
        match self {
            ExecState::Accepted => 1,
            ExecState::Rejected => 2,
            ExecState::PartiallyFilled => 3,
            ExecState::Filled => 4,
            ExecState::Cancelled => 5,
            ExecState::Replaced => 6,
        }
    }

    /// The variant with wire code `v`, if the code is assigned.
    pub open spec fn from_code(v: u8) -> Result<ExecState, ExecStateError> {
        match v {
            1 => Ok(ExecState::Accepted),
            2 => Ok(ExecState::Rejected),
            3 => Ok(ExecState::PartiallyFilled),
            4 => Ok(ExecState::Filled),
            5 => Ok(ExecState::Cancelled),
            6 => Ok(ExecState::Replaced),
            _ => Err(ExecStateError::Unknown(v)),
        }
    }

    /// Decoding undoes encoding, and only assigned codes decode.
    pub proof fn codes_round_trip(self, v: u8)
        ensures
            ExecState::from_code(self.code()) == Ok::<ExecState, ExecStateError>(self),
            ExecState::from_code(v) == Ok::<ExecState, ExecStateError>(self) <==> v == self.code(),
    {
    }

    /// Wire code.
    pub fn as_u8(self) -> (r: u8)
        ensures
            r == self.code(),
    {
        match self {
            ExecState::Accepted => 1,
            ExecState::Rejected => 2,
            ExecState::PartiallyFilled => 3,
            ExecState::Filled => 4,
            ExecState::Cancelled => 5,
            ExecState::Replaced => 6,
        }
    }

    /// Name used in logs, as a mathematical function.
    pub open spec fn label(self) -> Seq<char> {
        match self {
            ExecState::Accepted => "Accepted"@,
            ExecState::Rejected => "Rejected"@,
            ExecState::PartiallyFilled => "PartiallyFilled"@,
            ExecState::Filled => "Filled"@,
            ExecState::Cancelled => "Cancelled"@,
            ExecState::Replaced => "Replaced"@,
        }
    }

    /// Name used in logs.
    pub fn name(self) -> (r: &'static str)
        ensures
            r@ == self.label(),
    {
        match self {
            ExecState::Accepted => "Accepted",
            ExecState::Rejected => "Rejected",
            ExecState::PartiallyFilled => "PartiallyFilled",
            ExecState::Filled => "Filled",
            ExecState::Cancelled => "Cancelled",
            ExecState::Replaced => "Replaced",
        }
    }

    /// Text for logs.
    pub fn to_string(&self) -> (r: String)
        ensures
            r@ == self.label(),
    {
        String::from_str(self.name())
    }
}

impl TryFrom<u8> for ExecState {
    type Error = ExecStateError;

    fn try_from(v: u8) -> (r: Result<Self, ExecStateError>) {
        match v {
            1 => Ok(ExecState::Accepted),
            2 => Ok(ExecState::Rejected),
            3 => Ok(ExecState::PartiallyFilled),
            4 => Ok(ExecState::Filled),
            5 => Ok(ExecState::Cancelled),
            6 => Ok(ExecState::Replaced),
            other => Err(ExecStateError::Unknown(other)),
        }
    }
}

impl TryFromSpecImpl<u8> for ExecState {
    open spec fn obeys_try_from_spec() -> bool {
        true
    }

    open spec fn try_from_spec(v: u8) -> Result<Self, ExecStateError> {
        ExecState::from_code(v)
    }
}

/// Decode error for [`ExecState`].
#[derive(Debug, Clone, Copy, PartialEq, Eq, Structural)]
#[non_exhaustive]
pub enum ExecStateError {
    /// The code is not assigned.
    Unknown(u8),
}

} // verus!
