//! Engine-stamped timestamp.

use vstd::prelude::*;
use vstd::std_specs::convert::FromSpecImpl;
use vstd::string::StringExecFns;

use crate::domain::text::{signed_decimal, push_signed_decimal};

verus! {

/// Engine-stamped receive / emit timestamp in nanoseconds since the
/// UNIX epoch. The value comes from an injected clock.
#[derive(Debug, Clone, Copy, PartialEq, Eq, PartialOrd, Ord, Hash, Structural)]
pub struct RecvTs {
    nanos: i64,
}

impl View for RecvTs {
    type V = i64;

    closed spec fn view(&self) -> i64 {
        self.nanos
    }
}

impl RecvTs {
    /// The value that carries `nanos`.
    pub closed spec fn of(nanos: i64) -> RecvTs {
        RecvTs { nanos }
    }

    /// A value carries what it was made of.
    pub broadcast proof fn of_carries(nanos: i64)
        ensures
            (#[trigger] RecvTs::of(nanos))@ == nanos,
    {
    }

    /// What a value carries determines it.
    pub broadcast proof fn carried_determines(self)
        ensures
            RecvTs::of(#[trigger] self@) == self,
    {
    }

    /// Wraps a raw `i64`.
    pub fn new(nanos: i64) -> (r: Self)
        ensures
            r == RecvTs::of(nanos),
    {
        RecvTs { nanos }
    }

    /// The stamp that stands for "unset".
    pub fn zero() -> (r: Self)
        ensures
            r == RecvTs::of(0),
    {
        RecvTs { nanos: 0 }
    }

    /// Raw nanosecond count.
    pub fn as_nanos(self) -> (r: i64)
        ensures
            r == self@,
    {
        self.nanos
    }

    /// Text for logs.
    pub fn to_string(&self) -> (r: String)
        ensures
            r@ == "rts:"@ + signed_decimal(self@ as int),
    {
        let mut out = String::new();
        out.append("rts:");
        push_signed_decimal(&mut out, self.nanos);
        proof {
            assert(out@ =~= "rts:"@ + signed_decimal(self@ as int));
        }
        out
    }
}

impl From<i64> for RecvTs {
    fn from(v: i64) -> (r: Self) {
        RecvTs::new(v)
    }
}

impl FromSpecImpl<i64> for RecvTs {
    open spec fn obeys_from_spec() -> bool {
        true
    }

    open spec fn from_spec(v: i64) -> Self {
        RecvTs::of(v)
    }
}

} // verus!
