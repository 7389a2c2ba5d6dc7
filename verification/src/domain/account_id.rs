//! Account identifier.

use vstd::prelude::*;
use vstd::std_specs::convert::TryFromSpecImpl;
use vstd::string::StringExecFns;

use crate::domain::text::{decimal, push_decimal};

verus! {

/// Per-session account identifier.
///
/// Never zero: zero is the sentinel for "no account". The field is
/// private, so every value came through [`AccountId::new`].
#[derive(Debug, Clone, Copy, PartialEq, Eq, PartialOrd, Ord, Hash, Structural)]
pub struct AccountId {
    id: u32,
}

impl View for AccountId {
    type V = u32;

    closed spec fn view(&self) -> u32 {
        self.id
    }
}

impl AccountId {
    #[verifier::type_invariant]
    closed spec fn inv(self) -> bool {
        self.id > 0
    }

    /// The value that carries `id`.
    pub closed spec fn of(id: u32) -> AccountId {
        AccountId { id }
    }

    /// A value carries what it was made of.
    pub broadcast proof fn of_carries(id: u32)
        ensures
            (#[trigger] AccountId::of(id))@ == id,
    {
    }

    /// What a value carries determines it.
    pub broadcast proof fn carried_determines(self)
        ensures
            AccountId::of(#[trigger] self@) == self,
    {
    }

    /// Wraps a raw `u32`; zero is refused.
    pub fn new(id: u32) -> (r: Result<Self, AccountIdError>)
        ensures
            r == AccountId::checked(id),
    {
        if id == 0 {
            return Err(AccountIdError::Zero);
        }
        Ok(AccountId { id })
    }

    /// What [`AccountId::new`] returns: the value itself unless it is zero.
    pub open spec fn checked(id: u32) -> Result<AccountId, AccountIdError> {
        if id == 0 {
            Err(AccountIdError::Zero)
        } else {
            Ok(AccountId::of(id))
        }
    }

    /// Raw identifier, for the wire edge.
    pub fn as_raw(self) -> (r: u32)
        ensures
            r == self@,
            r > 0,
    {
        proof {
            use_type_invariant(&self);
        }
        self.id
    }

    /// Text for logs.
    pub fn to_string(&self) -> (r: String)
        ensures
            r@ == "acct:"@ + decimal(self@ as nat),
    {
        let mut out = String::new();
        out.append("acct:");
        push_decimal(&mut out, self.id as u64);
        proof {
            assert(out@ =~= "acct:"@ + decimal(self@ as nat));
        }
        out
    }
}

impl TryFrom<u32> for AccountId {
    type Error = AccountIdError;

    fn try_from(v: u32) -> (r: Result<Self, AccountIdError>) {
        AccountId::new(v)
    }
}

impl TryFromSpecImpl<u32> for AccountId {
    open spec fn obeys_try_from_spec() -> bool {
        true
    }

    open spec fn try_from_spec(v: u32) -> Result<Self, AccountIdError> {
        AccountId::checked(v)
    }
}

/// Validation error for [`AccountId::new`].
#[derive(Debug, Clone, Copy, PartialEq, Eq, Structural)]
#[non_exhaustive]
pub enum AccountIdError {
    /// `id == 0`, the reserved sentinel.
    Zero,
}

} // verus!
