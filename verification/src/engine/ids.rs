//! Counters for trade ids and engine sequence numbers.

use vstd::prelude::*;

use crate::domain::{EngineSeq, IdGenerator, TradeId};

verus! {

/// Two independent counters, each growing by one per allocation.
#[derive(Debug, Clone, Copy)]
pub struct CounterIdGenerator {
    next_trade: u64,
    next_seq: u64,
}

impl CounterIdGenerator {
    /// Both counters at `1`.
    pub fn new() -> (r: CounterIdGenerator)
        ensures
            r.next_trade() == 1,
            r.next_seq() == 1,
    {
        CounterIdGenerator { next_trade: 1, next_seq: 1 }
    }

    /// Counters that go on from a recorded pair.
    pub fn resume(next_trade_id: u64, next_engine_seq: u64) -> (r: CounterIdGenerator)
        ensures
            r.next_trade() == next_trade_id,
            r.next_seq() == next_engine_seq,
    {
        CounterIdGenerator { next_trade: next_trade_id, next_seq: next_engine_seq }
    }
}

impl Default for CounterIdGenerator {
    fn default() -> (r: CounterIdGenerator)
        ensures
            r.next_trade() == 1,
            r.next_seq() == 1,
    {
        CounterIdGenerator::new()
    }
}

impl IdGenerator for CounterIdGenerator {
    closed spec fn next_trade(&self) -> u64 {
        self.next_trade
    }

    closed spec fn next_seq(&self) -> u64 {
        self.next_seq
    }

    fn next_trade_id(&mut self) -> (id: TradeId) {
        let v: u64 = self.next_trade;
        self.next_trade = v.checked_add(1).unwrap();
        TradeId::new(v)
    }

    fn next_engine_seq(&mut self) -> (seq: EngineSeq) {
        let v: u64 = self.next_seq;
        self.next_seq = v.checked_add(1).unwrap();
        EngineSeq::new(v)
    }
}

} // verus!
