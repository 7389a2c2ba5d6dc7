//! Time in force.

use vstd::prelude::*;
use vstd::std_specs::convert::TryFromSpecImpl;
use vstd::string::StringExecFns;

verus! {

/// Time-in-force policy. The wire codes are stable: they are appended to, never
/// reassigned.
#[derive(Debug, Clone, Copy, PartialEq, Eq, PartialOrd, Ord, Hash, Structural)]
pub enum Tif {
    /// Good-til-cancel: rests until matched or cancelled.
    Gtc,
    /// Immediate-or-cancel: never rests.
    Ioc,
    /// Post-only: refused if it would cross, otherwise as `Gtc`.
    PostOnly,
}

impl Tif {
    /// The wire code of each variant.
    pub open spec fn code(self) -> u8 {
        match self {
            Tif::Gtc => 1,
            Tif::Ioc => 2,
            Tif::PostOnly => 3,
        }
    }

    /// The variant with wire code `v`, if the code is assigned.
    pub open spec fn from_code(v: u8) -> Result<Tif, TifError> {
        match v {
            1 => Ok(Tif::Gtc),
            2 => Ok(Tif::Ioc),
            3 => Ok(Tif::PostOnly),
            _ => Err(TifError::Unknown(v)),
        }
    }

    /// Decoding undoes encoding, and only assigned codes decode.
    pub proof fn codes_round_trip(self, v: u8)
        ensures
            Tif::from_code(self.code()) == Ok::<Tif, TifError>(self),
            Tif::from_code(v) == Ok::<Tif, TifError>(self) <==> v == self.code(),
    {
    }

    /// Wire code.
    pub fn as_u8(self) -> (r: u8)
        ensures
            r == self.code(),
    {
        match self {
            Tif::Gtc => 1,
            Tif::Ioc => 2,
            Tif::PostOnly => 3,
        }
    }

    /// Name used in logs, as a mathematical function.
    pub open spec fn label(self) -> Seq<char> {
        match self {
            Tif::Gtc => "GTC"@,
            Tif::Ioc => "IOC"@,
            Tif::PostOnly => "POST_ONLY"@,
        }
    }

    /// Name used in logs.
    pub fn name(self) -> (r: &'static str)
        ensures
            r@ == self.label(),
    {
        match self {
            Tif::Gtc => "GTC",
            Tif::Ioc => "IOC",
            Tif::PostOnly => "POST_ONLY",
        }
    }

    /// Text for logs.
    pub fn to_string(&self) -> (r: String)
        ensures
            r@ == self.label(),
    {
        String::from_str(self.name())
    }
}

impl TryFrom<u8> for Tif {
    type Error = TifError;

    fn try_from(v: u8) -> (r: Result<Self, TifError>) {
        match v {
            1 => Ok(Tif::Gtc),
            2 => Ok(Tif::Ioc),
            3 => Ok(Tif::PostOnly),
            other => Err(TifError::Unknown(other)),
        }
    }
}

impl TryFromSpecImpl<u8> for Tif {
    open spec fn obeys_try_from_spec() -> bool {
        true
    }

    open spec fn try_from_spec(v: u8) -> Result<Self, TifError> {
        Tif::from_code(v)
    }
}

/// Decode error for [`Tif`].
#[derive(Debug, Clone, Copy, PartialEq, Eq, Structural)]
#[non_exhaustive]
pub enum TifError {
    /// The code is not assigned.
    Unknown(u8),
}

} // verus!
