//! What tells one order from another.

use vstd::prelude::*;

use crate::domain::{AccountId, OrderId};

verus! {

/// An order is known by its account and the id that the account gave it.
/// Two accounts may use the same id.
#[derive(Debug, Clone, Copy, PartialEq, Eq, Structural)]
pub struct OrderKey {
    /// Owner.
    pub account_id: AccountId,
    /// Client-assigned id.
    pub order_id: OrderId,
}

} // verus!
