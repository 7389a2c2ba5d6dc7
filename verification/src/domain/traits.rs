//! Dependencies that the engine is given: a clock and an id source.

use vstd::prelude::*;

use crate::domain::{EngineSeq, RecvTs, TradeId};

verus! {

/// Source of receive and emit timestamps.
///
/// Matching and risk never read the time themselves; a replay gives the
/// engine a clock that yields recorded values.
pub trait Clock {
    /// Whether `t` is a reading that the clock, as it stands, may give.
    spec fn reads(&self, t: RecvTs) -> bool;

    /// Reads the clock.
    fn now(&self) -> (t: RecvTs)
        ensures
            self.reads(t),
    ;
}

/// Source of trade identifiers and outbound sequence numbers.
///
/// The two streams are independent, and each grows by exactly one per
/// allocation.
pub trait IdGenerator {
    /// The next trade id to be handed out.
    spec fn next_trade(&self) -> u64;

    /// The next sequence number to be handed out.
    spec fn next_seq(&self) -> u64;

    /// Allocates the next trade id.
    fn next_trade_id(&mut self) -> (id: TradeId)
        requires
            old(self).next_trade() < u64::MAX,
        ensures
            id == TradeId::of(old(self).next_trade()),
            final(self).next_trade() == old(self).next_trade() + 1,
            final(self).next_seq() == old(self).next_seq(),
    ;

    /// Allocates the next engine sequence number.
    fn next_engine_seq(&mut self) -> (seq: EngineSeq)
        requires
            old(self).next_seq() < u64::MAX,
        ensures
            seq == EngineSeq::of(old(self).next_seq()),
            final(self).next_seq() == old(self).next_seq() + 1,
            final(self).next_trade() == old(self).next_trade(),
    ;
}

} // verus!
