//! Order type.

use vstd::prelude::*;
use vstd::std_specs::convert::TryFromSpecImpl;
use vstd::string::StringExecFns;

verus! {

/// Order type. The wire codes are stable: they are appended to, never
/// reassigned.
#[derive(Debug, Clone, Copy, PartialEq, Eq, PartialOrd, Ord, Hash, Structural)]
pub enum OrderType {
    /// Limit order: rests if not fully matched.
    Limit,
    /// Market order: fills and cancels the rest; never rests.
    Market,
}

impl OrderType {
    /// The wire code of each variant.
    pub open spec fn code(self) -> u8 {
        match self {
            OrderType::Limit => 1,
            OrderType::Market => 2,
        }
    }

    /// The variant with wire code `v`, if the code is assigned.
    pub open spec fn from_code(v: u8) -> Result<OrderType, OrderTypeError> {
        match v {
            1 => Ok(OrderType::Limit),
            2 => Ok(OrderType::Market),
            _ => Err(OrderTypeError::Unknown(v)),
        }
    }

    /// Decoding undoes encoding, and only assigned codes decode.
    pub proof fn codes_round_trip(self, v: u8)
        ensures
            OrderType::from_code(self.code()) == Ok::<OrderType, OrderTypeError>(self),
            OrderType::from_code(v) == Ok::<OrderType, OrderTypeError>(self) <==> v == self.code(),
    {
    }

    /// Wire code.
    pub fn as_u8(self) -> (r: u8)
        ensures
            r == self.code(),
    {
        match self {
            OrderType::Limit => 1,
            OrderType::Market => 2,
        }
    }

    /// Name used in logs, as a mathematical function.
    pub open spec fn label(self) -> Seq<char> {
        match self {
            OrderType::Limit => "Limit"@,
            OrderType::Market => "Market"@,
        }
    }

    /// Name used in logs.
    pub fn name(self) -> (r: &'static str)
        ensures
            r@ == self.label(),
    {
        match self {
            OrderType::Limit => "Limit",
            OrderType::Market => "Market",
        }
    }

    /// Text for logs.
    pub fn to_string(&self) -> (r: String)
        ensures
            r@ == self.label(),
    {
        String::from_str(self.name())
    }
}

impl TryFrom<u8> for OrderType {
    type Error = OrderTypeError;

    fn try_from(v: u8) -> (r: Result<Self, OrderTypeError>) {
        match v {
            1 => Ok(OrderType::Limit),
            2 => Ok(OrderType::Market),
            other => Err(OrderTypeError::Unknown(other)),
        }
    }
}

impl TryFromSpecImpl<u8> for OrderType {
    open spec fn obeys_try_from_spec() -> bool {
        true
    }

    open spec fn try_from_spec(v: u8) -> Result<Self, OrderTypeError> {
        OrderType::from_code(v)
    }
}

/// Decode error for [`OrderType`].
#[derive(Debug, Clone, Copy, PartialEq, Eq, Structural)]
#[non_exhaustive]
pub enum OrderTypeError {
    /// The code is not assigned.
    Unknown(u8),
}

} // verus!
