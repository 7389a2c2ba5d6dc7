//! Order quantity as a lot count.

use vstd::prelude::*;
use vstd::std_specs::convert::TryFromSpecImpl;
use vstd::string::StringExecFns;

use crate::domain::consts::LOT_SIZE;
use crate::domain::text::{decimal, push_decimal};

verus! {

/// Order quantity expressed as a raw lot count.
///
/// Strictly positive and a multiple of [`LOT_SIZE`]. The field is
/// private, so every value came through [`Qty::new`].
#[derive(Debug, Clone, Copy, PartialEq, Eq, PartialOrd, Ord, Hash, Structural)]
pub struct Qty {
    lots: u64,
}

impl View for Qty {
    type V = u64;

    closed spec fn view(&self) -> u64 {
        self.lots
    }
}

impl Qty {
    #[verifier::type_invariant]
    closed spec fn inv(self) -> bool {
        Qty::legal(self.lots)
    }

    /// Strictly positive and a multiple of [`LOT_SIZE`].
    pub open spec fn legal(lots: u64) -> bool {
        lots > 0 && lots % LOT_SIZE == 0
    }

    /// The value that carries `lots`.
    pub closed spec fn of(lots: u64) -> Qty {
        Qty { lots }
    }

    /// A value carries what it was made of.
    pub broadcast proof fn of_carries(lots: u64)
        ensures
            (#[trigger] Qty::of(lots))@ == lots,
    {
    }

    /// What a value carries determines it.
    pub broadcast proof fn carried_determines(self)
        ensures
            Qty::of(#[trigger] self@) == self,
    {
    }

    /// What [`Qty::new`] returns: the value itself if it is legal.
    pub open spec fn checked(lots: u64) -> Result<Qty, QtyError> {
        if lots == 0 {
            Err(QtyError::Zero)
        } else if lots % LOT_SIZE != 0 {
            Err(QtyError::LotViolation)
        } else {
            Ok(Qty::of(lots))
        }
    }

    /// Smallest legal value: one [`LOT_SIZE`].
    pub fn min_value() -> (r: Qty)
        ensures
            r == Qty::of(LOT_SIZE),
            Qty::legal(r@),
            forall|n: u64| #[trigger] Qty::legal(n) ==> r@ <= n,
    {
        Qty { lots: LOT_SIZE }
    }

    /// Largest legal value: the greatest multiple of [`LOT_SIZE`].
    pub fn max_value() -> (r: Qty)
        ensures
            r == Qty::of((u64::MAX - u64::MAX % LOT_SIZE) as u64),
            Qty::legal(r@),
            forall|n: u64| #[trigger] Qty::legal(n) ==> n <= r@,
    {
        Qty { lots: u64::MAX - (u64::MAX % LOT_SIZE) }
    }

    /// Wraps a raw count, refusing what is not legal.
    pub fn new(lots: u64) -> (r: Result<Self, QtyError>)
        ensures
            r == Qty::checked(lots),
    {
        if lots == 0 {
            return Err(QtyError::Zero);
        }
        if lots % LOT_SIZE != 0 {
            return Err(QtyError::LotViolation);
        }
        Ok(Qty { lots })
    }

    /// Raw count, for the wire edge.
    pub fn as_lots(self) -> (r: u64)
        ensures
            r == self@,
            Qty::legal(r),
    {
        proof {
            use_type_invariant(&self);
        }
        self.lots
    }

    /// Text for logs.
    pub fn to_string(&self) -> (r: String)
        ensures
            r@ == decimal(self@ as nat) + "q"@,
    {
        let mut out = String::new();
        push_decimal(&mut out, self.lots);
        out.append("q");
        proof {
            assert(out@ =~= decimal(self@ as nat) + "q"@);
        }
        out
    }
}

impl TryFrom<u64> for Qty {
    type Error = QtyError;

    fn try_from(v: u64) -> (r: Result<Self, QtyError>) {
        Qty::new(v)
    }
}

impl TryFromSpecImpl<u64> for Qty {
    open spec fn obeys_try_from_spec() -> bool {
        true
    }

    open spec fn try_from_spec(v: u64) -> Result<Self, QtyError> {
        Qty::checked(v)
    }
}

/// Validation error for [`Qty::new`].
#[derive(Debug, Clone, Copy, PartialEq, Eq, Structural)]
#[non_exhaustive]
pub enum QtyError {
    /// `lots == 0`.
    Zero,
    /// `lots` is not a multiple of [`LOT_SIZE`].
    LotViolation,
}

} // verus!
