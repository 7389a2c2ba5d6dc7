//! Fixed-point price as a tick count.

use vstd::prelude::*;
use vstd::std_specs::convert::TryFromSpecImpl;
use vstd::string::StringExecFns;

use crate::domain::consts::TICK_SIZE;
use crate::domain::text::{signed_decimal, push_signed_decimal};

verus! {

/// Fixed-point price expressed as a raw tick count.
///
/// Strictly positive and a multiple of [`TICK_SIZE`]. The field is
/// private, so every value came through [`Price::new`].
#[derive(Debug, Clone, Copy, PartialEq, Eq, PartialOrd, Ord, Hash, Structural)]
pub struct Price {
    ticks: i64,
}

impl View for Price {
    type V = i64;

    closed spec fn view(&self) -> i64 {
        self.ticks
    }
}

impl Price {
    #[verifier::type_invariant]
    closed spec fn inv(self) -> bool {
        Price::legal(self.ticks)
    }

    /// Strictly positive and a multiple of [`TICK_SIZE`].
    pub open spec fn legal(ticks: i64) -> bool {
        ticks > 0 && ticks % TICK_SIZE == 0
    }

    /// The value that carries `ticks`.
    pub closed spec fn of(ticks: i64) -> Price {
        Price { ticks }
    }

    /// A value carries what it was made of.
    pub broadcast proof fn of_carries(ticks: i64)
        ensures
            (#[trigger] Price::of(ticks))@ == ticks,
    {
    }

    /// What a value carries determines it.
    pub broadcast proof fn carried_determines(self)
        ensures
            Price::of(#[trigger] self@) == self,
    {
    }

    /// What [`Price::new`] returns: the value itself if it is legal.
    pub open spec fn checked(ticks: i64) -> Result<Price, PriceError> {
        if ticks <= 0 {
            Err(PriceError::NonPositive)
        } else if ticks % TICK_SIZE != 0 {
            Err(PriceError::TickViolation)
        } else {
            Ok(Price::of(ticks))
        }
    }

    /// Smallest legal value: one [`TICK_SIZE`].
    pub fn min_value() -> (r: Price)
        ensures
            r == Price::of(TICK_SIZE),
            Price::legal(r@),
            forall|t: i64| #[trigger] Price::legal(t) ==> r@ <= t,
    {
        Price { ticks: TICK_SIZE }
    }

    /// Largest legal value: the greatest multiple of [`TICK_SIZE`].
    pub fn max_value() -> (r: Price)
        ensures
            r == Price::of((i64::MAX - i64::MAX % TICK_SIZE) as i64),
            Price::legal(r@),
            forall|t: i64| #[trigger] Price::legal(t) ==> t <= r@,
    {
        Price { ticks: i64::MAX - (i64::MAX % TICK_SIZE) }
    }

    /// Wraps a raw count, refusing what is not legal.
    pub fn new(ticks: i64) -> (r: Result<Self, PriceError>)
        ensures
            r == Price::checked(ticks),
    {
        if ticks <= 0 {
            return Err(PriceError::NonPositive);
        }
        if ticks % TICK_SIZE != 0 {
            return Err(PriceError::TickViolation);
        }
        Ok(Price { ticks })
    }

    /// Raw count, for the wire edge.
    pub fn as_ticks(self) -> (r: i64)
        ensures
            r == self@,
            Price::legal(r),
    {
        proof {
            use_type_invariant(&self);
        }
        self.ticks
    }

    /// Text for logs.
    pub fn to_string(&self) -> (r: String)
        ensures
            r@ == signed_decimal(self@ as int) + "t"@,
    {
        let mut out = String::new();
        push_signed_decimal(&mut out, self.ticks);
        out.append("t");
        proof {
            assert(out@ =~= signed_decimal(self@ as int) + "t"@);
        }
        out
    }
}

impl TryFrom<i64> for Price {
    type Error = PriceError;

    fn try_from(v: i64) -> (r: Result<Self, PriceError>) {
        Price::new(v)
    }
}

impl TryFromSpecImpl<i64> for Price {
    open spec fn obeys_try_from_spec() -> bool {
        true
    }

    open spec fn try_from_spec(v: i64) -> Result<Self, PriceError> {
        Price::checked(v)
    }
}

/// Validation error for [`Price::new`].
#[derive(Debug, Clone, Copy, PartialEq, Eq, Structural)]
#[non_exhaustive]
pub enum PriceError {
    /// `ticks <= 0`.
    NonPositive,
    /// `ticks` is not a multiple of [`TICK_SIZE`].
    TickViolation,
}

} // verus!
