//! Where the engine publishes.

use vstd::prelude::*;

use crate::wire::outbound::{Outbound, OutboundView};

verus! {

/// The engine's only way to publish. It cannot fail from the engine's
/// point of view: a sink copes with backpressure by itself.
pub trait OutboundSink {
    /// Everything published so far.
    spec fn emitted(&self) -> Seq<OutboundView>;

    /// Publishes one message.
    fn emit(&mut self, msg: Outbound)
        ensures
            final(self).emitted() == old(self).emitted().push(msg@),
    ;
}

/// The messages in a list.
pub open spec fn views(msgs: Seq<Outbound>) -> Seq<OutboundView> {
    Seq::new(msgs.len(), |i: int| msgs[i]@)
}

/// Sink that keeps what was published, for replay and tests.
#[derive(Debug)]
pub struct VecSink {
    /// What was published, in order.
    pub events: Vec<Outbound>,
}

impl VecSink {
    /// An empty sink.
    pub fn new() -> (r: VecSink)
        ensures
            r.emitted() == Seq::<OutboundView>::empty(),
    {
        let r = VecSink { events: Vec::new() };
        proof {
            assert(r.emitted() =~= Seq::<OutboundView>::empty());
        }
        r
    }

    /// Hands out what was published and starts afresh.
    pub fn take(&mut self) -> (r: Vec<Outbound>)
        ensures
            r@ == old(self).events@,
            final(self).emitted() == Seq::<OutboundView>::empty(),
    {
        let mut taken: Vec<Outbound> = Vec::new();
        taken.append(&mut self.events);
        proof {
            assert(taken@ =~= old(self).events@);
            assert(self.emitted() =~= Seq::<OutboundView>::empty());
        }
        taken
    }

    /// Number of messages kept.
    pub fn len(&self) -> (r: usize)
        ensures
            r == self.emitted().len(),
    {
        self.events.len()
    }

    /// Whether nothing is kept.
    pub fn is_empty(&self) -> (r: bool)
        ensures
            r == (self.emitted().len() == 0),
    {
        self.events.len() == 0
    }
}

impl Default for VecSink {
    fn default() -> (r: VecSink)
        ensures
            r.emitted() == Seq::<OutboundView>::empty(),
    {
        VecSink::new()
    }
}

impl OutboundSink for VecSink {
    open spec fn emitted(&self) -> Seq<OutboundView> {
        views(self.events@)
    }

    fn emit(&mut self, msg: Outbound) {
        let ghost before = self.emitted();
        let ghost view = msg@;
        self.events.push(msg);
        proof {
            assert(self.emitted() =~= before.push(view));
        }
    }
}

} // verus!
