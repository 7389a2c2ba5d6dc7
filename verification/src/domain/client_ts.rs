//! Client-supplied timestamp.

use vstd::prelude::*;
use vstd::std_specs::convert::FromSpecImpl;
use vstd::string::StringExecFns;

use crate::domain::text::{signed_decimal, push_signed_decimal};

verus! {

/// Client-supplied timestamp in nanoseconds. Advisory: the engine
/// carries it and never orders by it.
#[derive(Debug, Clone, Copy, PartialEq, Eq, PartialOrd, Ord, Hash, Structural)]
pub struct ClientTs {
    nanos: i64,
}

impl View for ClientTs {
    type V = i64;

    closed spec fn view(&self) -> i64 {
        self.nanos
    }
}

impl ClientTs {
    /// The value that carries `nanos`.
    pub closed spec fn of(nanos: i64) -> ClientTs {
        ClientTs { nanos }
    }

    /// A value carries what it was made of.
    pub broadcast proof fn of_carries(nanos: i64)
        ensures
            (#[trigger] ClientTs::of(nanos))@ == nanos,
    {
    }

    /// What a value carries determines it.
    pub broadcast proof fn carried_determines(self)
        ensures
            ClientTs::of(#[trigger] self@) == self,
    {
    }

    /// Wraps a raw `i64`.
    pub fn new(nanos: i64) -> (r: Self)
        ensures
            r == ClientTs::of(nanos),
    {
        ClientTs { nanos }
    }

    /// The stamp that stands for "unset".
    pub fn zero() -> (r: Self)
        ensures
            r == ClientTs::of(0),
    {
        ClientTs { nanos: 0 }
    }

    /// Raw nanosecond count.
    pub fn as_nanos(self) -> (r: i64)
        ensures
            r == self@,
    {
        self.nanos
    }

    /// Text for logs.
    pub fn to_string(&self) -> (r: String)
        ensures
            r@ == "cts:"@ + signed_decimal(self@ as int),
    {
        let mut out = String::new();
        out.append("cts:");
        push_signed_decimal(&mut out, self.nanos);
        proof {
            assert(out@ =~= "cts:"@ + signed_decimal(self@ as int));
        }
        out
    }
}

impl From<i64> for ClientTs {
    fn from(v: i64) -> (r: Self) {
        ClientTs::new(v)
    }
}

impl FromSpecImpl<i64> for ClientTs {
    open spec fn obeys_from_spec() -> bool {
        true
    }

    open spec fn from_spec(v: i64) -> Self {
        ClientTs::of(v)
    }
}

} // verus!
