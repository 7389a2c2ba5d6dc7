//! Order identifier.

use vstd::prelude::*;
use vstd::std_specs::convert::TryFromSpecImpl;
use vstd::string::StringExecFns;

use crate::domain::text::{decimal, push_decimal};

verus! {

/// Client-assigned order identifier.
///
/// Never zero: zero is the sentinel for "no order". The field is
/// private, so every value came through [`OrderId::new`].
#[derive(Debug, Clone, Copy, PartialEq, Eq, PartialOrd, Ord, Hash, Structural)]
pub struct OrderId {
    id: u64,
}

impl View for OrderId {
    type V = u64;

    closed spec fn view(&self) -> u64 {
        self.id
    }
}

impl OrderId {
    #[verifier::type_invariant]
    closed spec fn inv(self) -> bool {
        self.id > 0
    }

    /// The value that carries `id`.
    pub closed spec fn of(id: u64) -> OrderId {
        OrderId { id }
    }

    /// A value carries what it was made of.
    pub broadcast proof fn of_carries(id: u64)
        ensures
            (#[trigger] OrderId::of(id))@ == id,
    {
    }

    /// What a value carries determines it.
    pub broadcast proof fn carried_determines(self)
        ensures
            OrderId::of(#[trigger] self@) == self,
    {
    }

    /// Wraps a raw `u64`; zero is refused.
    pub fn new(id: u64) -> (r: Result<Self, OrderIdError>)
        ensures
            r == OrderId::checked(id),
    {
        if id == 0 {
            return Err(OrderIdError::Zero);
        }
        Ok(OrderId { id })
    }

    /// What [`OrderId::new`] returns: the value itself unless it is zero.
    pub open spec fn checked(id: u64) -> Result<OrderId, OrderIdError> {
        if id == 0 {
            Err(OrderIdError::Zero)
        } else {
            Ok(OrderId::of(id))
        }
    }

    /// Raw identifier, for the wire edge.
    pub fn as_raw(self) -> (r: u64)
        ensures
            r == self@,
            r > 0,
    {
        proof {
            use_type_invariant(&self);
        }
        self.id
    }

    /// Text for logs.
    pub fn to_string(&self) -> (r: String)
        ensures
            r@ == "ord:"@ + decimal(self@ as nat),
    {
        let mut out = String::new();
        out.append("ord:");
        push_decimal(&mut out, self.id);
        proof {
            assert(out@ =~= "ord:"@ + decimal(self@ as nat));
        }
        out
    }
}

impl TryFrom<u64> for OrderId {
    type Error = OrderIdError;

    fn try_from(v: u64) -> (r: Result<Self, OrderIdError>) {
        OrderId::new(v)
    }
}

impl TryFromSpecImpl<u64> for OrderId {
    open spec fn obeys_try_from_spec() -> bool {
        true
    }

    open spec fn try_from_spec(v: u64) -> Result<Self, OrderIdError> {
        OrderId::checked(v)
    }
}

/// Validation error for [`OrderId::new`].
#[derive(Debug, Clone, Copy, PartialEq, Eq, Structural)]
#[non_exhaustive]
pub enum OrderIdError {
    /// `id == 0`, the reserved sentinel.
    Zero,
}

} // verus!
