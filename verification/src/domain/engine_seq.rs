//! Engine sequence number.

use vstd::prelude::*;
use vstd::string::StringExecFns;

use crate::domain::text::{decimal, push_decimal};

verus! {

/// Engine-assigned sequence number of an outbound message.
///
/// It grows by exactly one per message; arithmetic is checked.
#[derive(Debug, Clone, Copy, PartialEq, Eq, PartialOrd, Ord, Hash, Structural)]
pub struct EngineSeq {
    seq: u64,
}

impl View for EngineSeq {
    type V = u64;

    closed spec fn view(&self) -> u64 {
        self.seq
    }
}

impl EngineSeq {
    /// The value that carries `seq`.
    pub closed spec fn of(seq: u64) -> EngineSeq {
        EngineSeq { seq }
    }

    /// A value carries what it was made of.
    pub broadcast proof fn of_carries(seq: u64)
        ensures
            (#[trigger] EngineSeq::of(seq))@ == seq,
    {
    }

    /// What a value carries determines it.
    pub broadcast proof fn carried_determines(self)
        ensures
            EngineSeq::of(#[trigger] self@) == self,
    {
    }

    /// Wraps a raw `u64`.
    pub fn new(seq: u64) -> (r: Self)
        ensures
            r == EngineSeq::of(seq),
    {
        EngineSeq { seq }
    }

    /// The value that a run starts from.
    pub fn initial() -> (r: Self)
        ensures
            r == EngineSeq::of(0),
    {
        EngineSeq { seq: 0 }
    }

    /// Advances by exactly one; refuses to wrap around.
    pub fn next(self) -> (r: Result<Self, EngineSeqError>)
        ensures
            r == (if self@ < u64::MAX {
                Ok(EngineSeq::of((self@ + 1) as u64))
            } else {
                Err(EngineSeqError::Overflow)
            }),
    {
        match self.seq.checked_add(1) {
            Some(v) => Ok(EngineSeq { seq: v }),
            None => Err(EngineSeqError::Overflow),
        }
    }

    /// Raw counter value, for the wire edge.
    pub fn as_raw(self) -> (r: u64)
        ensures
            r == self@,
    {
        self.seq
    }

    /// Text for logs.
    pub fn to_string(&self) -> (r: String)
        ensures
            r@ == "seq:"@ + decimal(self@ as nat),
    {
        let mut out = String::new();
        out.append("seq:");
        push_decimal(&mut out, self.seq);
        proof {
            assert(out@ =~= "seq:"@ + decimal(self@ as nat));
        }
        out
    }
}

/// Error of [`EngineSeq::next`].
#[derive(Debug, Clone, Copy, PartialEq, Eq, Structural)]
#[non_exhaustive]
pub enum EngineSeqError {
    /// The counter stands at `u64::MAX`.
    Overflow,
}

} // verus!
