//! Trade identifier.

use vstd::prelude::*;
use vstd::string::StringExecFns;

use crate::domain::text::{decimal, push_decimal};

verus! {

/// Engine-assigned identifier of a trade.
///
/// It grows by exactly one per trade; arithmetic is checked.
#[derive(Debug, Clone, Copy, PartialEq, Eq, PartialOrd, Ord, Hash, Structural)]
pub struct TradeId {
    id: u64,
}

impl View for TradeId {
    type V = u64;

    closed spec fn view(&self) -> u64 {
        self.id
    }
}

impl TradeId {
    /// The value that carries `id`.
    pub closed spec fn of(id: u64) -> TradeId {
        TradeId { id }
    }

    /// A value carries what it was made of.
    pub broadcast proof fn of_carries(id: u64)
        ensures
            (#[trigger] TradeId::of(id))@ == id,
    {
    }

    /// What a value carries determines it.
    pub broadcast proof fn carried_determines(self)
        ensures
            TradeId::of(#[trigger] self@) == self,
    {
    }

    /// Wraps a raw `u64`.
    pub fn new(id: u64) -> (r: Self)
        ensures
            r == TradeId::of(id),
    {
        TradeId { id }
    }

    /// The value that a run starts from.
    pub fn initial() -> (r: Self)
        ensures
            r == TradeId::of(0),
    {
        TradeId { id: 0 }
    }

    /// Advances by exactly one; refuses to wrap around.
    pub fn next(self) -> (r: Result<Self, TradeIdError>)
        ensures
            r == (if self@ < u64::MAX {
                Ok(TradeId::of((self@ + 1) as u64))
            } else {
                Err(TradeIdError::Overflow)
            }),
    {
        match self.id.checked_add(1) {
            Some(v) => Ok(TradeId { id: v }),
            None => Err(TradeIdError::Overflow),
        }
    }

    /// Raw counter value, for the wire edge.
    pub fn as_raw(self) -> (r: u64)
        ensures
            r == self@,
    {
        self.id
    }

    /// Text for logs.
    pub fn to_string(&self) -> (r: String)
        ensures
            r@ == "trd:"@ + decimal(self@ as nat),
    {
        let mut out = String::new();
        out.append("trd:");
        push_decimal(&mut out, self.id);
        proof {
            assert(out@ =~= "trd:"@ + decimal(self@ as nat));
        }
        out
    }
}

/// Error of [`TradeId::next`].
#[derive(Debug, Clone, Copy, PartialEq, Eq, Structural)]
#[non_exhaustive]
pub enum TradeIdError {
    /// The counter stands at `u64::MAX`.
    Overflow,
}

} // verus!
