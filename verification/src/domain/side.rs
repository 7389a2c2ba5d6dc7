//! Order side.

use vstd::prelude::*;
use vstd::std_specs::convert::TryFromSpecImpl;
use vstd::string::StringExecFns;

verus! {

/// Order side. The wire codes are stable: they are appended to, never
/// reassigned.
#[derive(Debug, Clone, Copy, PartialEq, Eq, PartialOrd, Ord, Hash, Structural)]
pub enum Side {
    /// Buy side.
    Bid,
    /// Sell side.
    Ask,
}

impl Side {
    /// The wire code of each variant.
    pub open spec fn code(self) -> u8 {
        match self {
            Side::Bid => 1,
            Side::Ask => 2,
        }
    }

    /// The variant with wire code `v`, if the code is assigned.
    pub open spec fn from_code(v: u8) -> Result<Side, SideError> {
        match v {
            1 => Ok(Side::Bid),
            2 => Ok(Side::Ask),
            _ => Err(SideError::Unknown(v)),
        }
    }

    /// Decoding undoes encoding, and only assigned codes decode.
    pub proof fn codes_round_trip(self, v: u8)
        ensures
            Side::from_code(self.code()) == Ok::<Side, SideError>(self),
            Side::from_code(v) == Ok::<Side, SideError>(self) <==> v == self.code(),
    {
    }

    /// Wire code.
    pub fn as_u8(self) -> (r: u8)
        ensures
            r == self.code(),
    {
        match self {
            Side::Bid => 1,
            Side::Ask => 2,
        }
    }

    /// Name used in logs, as a mathematical function.
    pub open spec fn label(self) -> Seq<char> {
        match self {
            Side::Bid => "Bid"@,
            Side::Ask => "Ask"@,
        }
    }

    /// Name used in logs.
    pub fn name(self) -> (r: &'static str)
        ensures
            r@ == self.label(),
    {
        match self {
            Side::Bid => "Bid",
            Side::Ask => "Ask",
        }
    }

    /// Text for logs.
    pub fn to_string(&self) -> (r: String)
        ensures
            r@ == self.label(),
    {
        String::from_str(self.name())
    }

    /// The other side, as a mathematical function.
    pub open spec fn other(self) -> Side {
        match self {
            Side::Bid => Side::Ask,
            Side::Ask => Side::Bid,
        }
    }

    /// The other side.
    pub fn opposite(self) -> (r: Side)
        ensures
            r == self.other(),
            r != self,
    {
        match self {
            Side::Bid => Side::Ask,
            Side::Ask => Side::Bid,
        }
    }
}

impl TryFrom<u8> for Side {
    type Error = SideError;

    fn try_from(v: u8) -> (r: Result<Self, SideError>) {
        match v {
            1 => Ok(Side::Bid),
            2 => Ok(Side::Ask),
            other => Err(SideError::Unknown(other)),
        }
    }
}

impl TryFromSpecImpl<u8> for Side {
    open spec fn obeys_try_from_spec() -> bool {
        true
    }

    open spec fn try_from_spec(v: u8) -> Result<Self, SideError> {
        Side::from_code(v)
    }
}

/// Decode error for [`Side`].
#[derive(Debug, Clone, Copy, PartialEq, Eq, Structural)]
#[non_exhaustive]
pub enum SideError {
    /// The code is not assigned.
    Unknown(u8),
}

} // verus!
