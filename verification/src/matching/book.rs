//! The order book itself.

use vstd::prelude::*;

use crate::domain::{group_newtypes, AccountId, IdGenerator, OrderKey, Price, Qty, Side, Tif};
use crate::matching::lemmas::{
    enqueue_apart, enqueue_keeps, filter_apart, filter_keeps, find_first, remove_keeps,
    requantify_keeps, walk_apart, walk_keeps,
};
use crate::matching::levels::collect_levels;
use crate::matching::model::{
    better, crosses, fill_of, find, keeps_priority, levels, not_owned, owned, post_only_crosses,
    queue_wf, rank, sweep, swept, walk, BookModel,
};
use crate::matching::types::{
    AggressiveOrder, BookError, Fill, Level, MatchResult, ReplaceOutcome, RestingOrder,
};

verus! {

broadcast use group_newtypes;

/// Price-time priority book of one symbol.
///
/// Each side is kept in priority order, so the head of a queue is the next
/// order to trade.
#[derive(Debug)]
pub struct Book {
    bids: Vec<RestingOrder>,
    asks: Vec<RestingOrder>,
}

impl View for Book {
    type V = BookModel;

    closed spec fn view(&self) -> BookModel {
        BookModel { bids: self.bids@, asks: self.asks@ }
    }
}

/// Whether `p` is strictly better than `q` on `side`.
fn is_better(side: Side, p: Price, q: Price) -> (r: bool)
    ensures
        r == better(side, p, q),
{
    match side {
        Side::Bid => p.as_ticks() > q.as_ticks(),
        Side::Ask => p.as_ticks() < q.as_ticks(),
    }
}

/// Whether a taker on `side` with this limit trades with `maker`.
fn is_crossing(side: Side, limit: Option<Price>, maker: Price) -> (r: bool)
    ensures
        r == crosses(side, limit, maker),
{
    match limit {
        None => true,
        Some(p) => match side {
            Side::Bid => p.as_ticks() >= maker.as_ticks(),
            Side::Ask => p.as_ticks() <= maker.as_ticks(),
        },
    }
}

/// Index of the first order with this key, or the length.
fn find_index(s: &Vec<RestingOrder>, key: OrderKey) -> (r: usize)
    ensures
        r == find(s@, key),
        r <= s@.len(),
{
    let mut i: usize = 0;
    proof {
        assert(s@.skip(0) =~= s@);
    }
    while i < s.len() && s[i].key() != key
        invariant
            i <= s@.len(),
            find(s@, key) == i + find(s@.skip(i as int), key),
        decreases s@.len() - i,
    {
        proof {
            assert(s@.skip(i as int).drop_first() =~= s@.skip(i + 1));
        }
        i = i + 1;
    }
    i
}

/// Number of orders that an order at `price` queues behind.
fn rank_index(side: Side, s: &Vec<RestingOrder>, price: Price) -> (r: usize)
    ensures
        r == rank(side, s@, price),
        r <= s@.len(),
{
    let mut i: usize = 0;
    proof {
        assert(s@.skip(0) =~= s@);
    }
    while i < s.len() && !is_better(side, price, s[i].price)
        invariant
            i <= s@.len(),
            rank(side, s@, price) == i + rank(side, s@.skip(i as int), price),
        decreases s@.len() - i,
    {
        proof {
            assert(s@.skip(i as int).drop_first() =~= s@.skip(i + 1));
        }
        i = i + 1;
    }
    i
}

/// Walks `taker` down `makers`; see [`walk`].
fn walk_queue<I: IdGenerator>(
    makers: &mut Vec<RestingOrder>,
    taker: AggressiveOrder,
    ids: &mut I,
    fills: &mut Vec<Fill>,
) -> (r: (u64, Option<RestingOrder>))
    requires
        queue_wf(taker.side.other(), old(makers)@),
        old(ids).next_trade() + walk(
            old(makers)@,
            taker,
            taker.qty@,
            old(ids).next_trade(),
        ).fills.len() <= u64::MAX,
    ensures
        ({
            let w = walk(old(makers)@, taker, taker.qty@, old(ids).next_trade());
            &&& r.0 == w.left
            &&& r.1 == w.self_trade
            &&& final(makers)@ == w.makers
            &&& final(fills)@ == old(fills)@ + w.fills
            &&& final(ids).next_trade() == old(ids).next_trade() + w.fills.len()
            &&& final(ids).next_seq() == old(ids).next_seq()
        }),
{
    let ghost orig = makers@;
    let ghost before = fills@;
    let ghost t0 = ids.next_trade();
    let ghost w = walk(orig, taker, taker.qty@, t0);
    let mut left: u64 = taker.qty.as_lots();
    let mut i: usize = 0;
    proof {
        assert(orig.skip(0) =~= orig);
        assert(fills@ =~= before + Seq::<Fill>::empty());
        assert(w.fills =~= Seq::<Fill>::empty() + w.fills);
    }
    while i < makers.len() && left > 0 && is_crossing(taker.side, taker.price, makers[i].price)
        invariant
            orig == old(makers)@,
            before == old(fills)@,
            t0 == old(ids).next_trade(),
            makers@ == orig,
            i <= orig.len(),
            queue_wf(taker.side.other(), orig),
            w == walk(orig, taker, taker.qty@, t0),
            t0 + w.fills.len() <= u64::MAX,
            ids.next_trade() == t0 + i,
            ids.next_seq() == old(ids).next_seq(),
            fills@.len() == before.len() + i,
            ({
                let rest = walk(orig.skip(i as int), taker, left, (t0 + i) as u64);
                &&& before + w.fills == fills@ + rest.fills
                &&& w.self_trade == rest.self_trade
                &&& w.left == rest.left
                &&& w.makers == rest.makers
            }),
        decreases orig.len() - i,
    {
        let maker = makers[i];
        let ghost tail = orig.skip(i as int);
        proof {
            assert(tail[0] == maker);
            assert(tail.drop_first() =~= orig.skip(i + 1));
        }
        if maker.account_id == taker.account_id {
            let rest = makers.split_off(i + 1);
            *makers = rest;
            proof {
                assert(makers@ =~= tail.drop_first());
                assert(fills@ =~= before + w.fills);
            }
            return (left, Some(maker));
        }
        let maker_lots: u64 = maker.qty.as_lots();
        let traded: u64 = if maker_lots > left {
            left
        } else {
            maker_lots
        };
        let maker_leaves = if traded < maker_lots {
            Some(Qty::new(maker_lots - traded).unwrap())
        } else {
            None
        };
        let ghost t = ids.next_trade();
        proof {
            let rest = walk(tail, taker, left, (t0 + i) as u64);
            assert(rest.fills.len() >= 1);
            assert((before + w.fills).len() == (fills@ + rest.fills).len());
        }
        let fill = Fill {
            trade_id: ids.next_trade_id(),
            maker_order_id: maker.order_id,
            maker_account_id: maker.account_id,
            price: maker.price,
            qty: Qty::new(traded).unwrap(),
            maker_leaves,
        };
        proof {
            assert(fill == fill_of(maker, traded, t));
        }
        let ghost fills_before = fills@;
        fills.push(fill);
        if let Some(leaves) = maker_leaves {
            proof {
                let rest = walk(tail, taker, left, (t0 + i) as u64);
                assert(rest.fills =~= seq![fill]);
                assert(fills_before + rest.fills =~= fills@);
            }
            let mut kept = makers.split_off(i);
            kept.set(0, RestingOrder { qty: leaves, ..maker });
            *makers = kept;
            proof {
                assert(makers@ =~= w.makers);
            }
            return (0, None);
        }
        proof {
            let rest = walk(tail, taker, left, (t0 + i) as u64);
            let next = walk(
                orig.skip(i + 1),
                taker,
                (left - maker_lots) as u64,
                (t0 + i + 1) as u64,
            );
            assert(rest.fills =~= seq![fill] + next.fills);
            assert(fills_before + rest.fills =~= fills@ + next.fills);
        }
        left = left - traded;
        i = i + 1;
    }
    let rest = makers.split_off(i);
    *makers = rest;
    proof {
        assert(makers@ =~= w.makers);
        assert(fills@ =~= before + w.fills);
    }
    (left, None)
}

/// Splits a queue into the orders of an account, appended to `out`, and
/// the others, which are returned.
fn split_account(
    s: &Vec<RestingOrder>,
    account: AccountId,
    out: &mut Vec<RestingOrder>,
) -> (kept: Vec<RestingOrder>)
    ensures
        kept@ == s@.filter(not_owned(account)),
        final(out)@ == old(out)@ + s@.filter(owned(account)),
{
    let mut kept: Vec<RestingOrder> = Vec::new();
    let mut i: usize = 0;
    proof {
        reveal(Seq::filter);
        assert(s@.take(0).filter(not_owned(account)) =~= Seq::<RestingOrder>::empty());
        assert(s@.take(0).filter(owned(account)) =~= Seq::<RestingOrder>::empty());
        assert(out@ =~= old(out)@ + s@.take(0).filter(owned(account)));
    }
    while i < s.len()
        invariant
            i <= s@.len(),
            kept@ == s@.take(i as int).filter(not_owned(account)),
            out@ == old(out)@ + s@.take(i as int).filter(owned(account)),
        decreases s@.len() - i,
    {
        let o = s[i];
        proof {
            reveal(Seq::filter);
            assert(s@.take(i + 1).drop_last() =~= s@.take(i as int));
            assert(s@.take(i + 1).last() == o);
        }
        if o.account_id == account {
            out.push(o);
        } else {
            kept.push(o);
        }
        proof {
            assert(out@ =~= old(out)@ + s@.take(i + 1).filter(owned(account)));
        }
        i = i + 1;
    }
    proof {
        assert(s@.take(s@.len() as int) =~= s@);
    }
    kept
}

impl Book {
    /// An empty book.
    pub fn new() -> (b: Book)
        ensures
            b@ == (BookModel { bids: Seq::empty(), asks: Seq::empty() }),
            b@.wf(),
            b@.uncrossed(),
    {
        Book { bids: Vec::new(), asks: Vec::new() }
    }

    /// Best price of a side.
    pub fn best(&self, side: Side) -> (r: Option<Price>)
        ensures
            r == self@.best(side),
    {
        let queue = match side {
            Side::Bid => &self.bids,
            Side::Ask => &self.asks,
        };
        if queue.len() > 0 {
            Some(queue[0].price)
        } else {
            None
        }
    }

    /// Highest bid.
    pub fn best_bid(&self) -> (r: Option<Price>)
        ensures
            r == self@.best(Side::Bid),
    {
        self.best(Side::Bid)
    }

    /// Lowest ask.
    pub fn best_ask(&self) -> (r: Option<Price>)
        ensures
            r == self@.best(Side::Ask),
    {
        self.best(Side::Ask)
    }

    /// The resting order with this key.
    pub fn get(&self, key: OrderKey) -> (r: Option<RestingOrder>)
        ensures
            r == self@.lookup(key),
    {
        let i: usize = find_index(&self.bids, key);
        if i < self.bids.len() {
            return Some(self.bids[i]);
        }
        let i: usize = find_index(&self.asks, key);
        if i < self.asks.len() {
            return Some(self.asks[i]);
        }
        None
    }

    /// Whether a taker on `side` with this limit would trade at once.
    pub fn would_cross(&self, side: Side, limit: Option<Price>) -> (r: bool)
        ensures
            r == self@.would_cross(side, limit),
    {
        match self.best(side.opposite()) {
            Some(best) => is_crossing(side, limit, best),
            None => false,
        }
    }

    /// Walks a taker down the opposite side: price first, then time.
    ///
    /// A post-only taker that would cross changes nothing. Reaching an
    /// order of the taker's own account drops that order and halts the
    /// walk. Fills are appended to `fills`.
    pub fn match_aggressive<I: IdGenerator>(
        &mut self,
        taker: AggressiveOrder,
        ids: &mut I,
        fills: &mut Vec<Fill>,
    ) -> (r: MatchResult)
        requires
            old(self)@.wf(),
            old(ids).next_trade() + sweep(
                old(self)@,
                taker,
                old(ids).next_trade(),
            ).fills.len() <= u64::MAX,
        ensures
            final(self)@.wf(),
            final(ids).next_seq() == old(ids).next_seq(),
            r.taker_post_only_rejected == post_only_crosses(old(self)@, taker),
            r.taker_post_only_rejected ==> {
                &&& r.self_trade is None
                &&& r.taker_remaining == Some(taker.qty)
                &&& final(self)@ == old(self)@
                &&& final(fills)@ == old(fills)@
                &&& final(ids).next_trade() == old(ids).next_trade()
            },
            !r.taker_post_only_rejected ==> {
                let w = sweep(old(self)@, taker, old(ids).next_trade());
                &&& r.self_trade == w.self_trade
                &&& r.taker_remaining == (if w.left > 0 {
                    Some(Qty::of(w.left))
                } else {
                    None
                })
                &&& final(self)@ == swept(old(self)@, taker, old(ids).next_trade())
                &&& final(fills)@ == old(fills)@ + w.fills
                &&& final(ids).next_trade() == old(ids).next_trade() + w.fills.len()
            },
    {
        if taker.tif == Tif::PostOnly && self.would_cross(taker.side, taker.price) {
            return MatchResult {
                taker_post_only_rejected: true,
                self_trade: None,
                taker_remaining: Some(taker.qty),
            };
        }
        proof {
            let t = ids.next_trade();
            let makers = self@.queue(taker.side.other());
            walk_keeps(makers, taker, taker.qty@, t);
            walk_apart(makers, taker, taker.qty@, t, self@.queue(taker.side));
        }
        let (left, self_trade) = match taker.side {
            Side::Bid => walk_queue(&mut self.asks, taker, ids, fills),
            Side::Ask => walk_queue(&mut self.bids, taker, ids, fills),
        };
        let taker_remaining = if left > 0 {
            Some(Qty::new(left).unwrap())
        } else {
            None
        };
        MatchResult { taker_post_only_rejected: false, self_trade, taker_remaining }
    }

    /// Rests an order at the tail of its price level.
    pub fn add_resting(&mut self, order: RestingOrder) -> (r: Result<(), BookError>)
        requires
            old(self)@.wf(),
        ensures
            final(self)@.wf(),
            r == (if old(self)@.lookup(order.key()) is None {
                Ok::<(), BookError>(())
            } else {
                Err::<(), BookError>(BookError::DuplicateOrderId)
            }),
            final(self)@ == (if r is Ok {
                old(self)@.with(order)
            } else {
                old(self)@
            }),
    {
        let duplicate = self.get(order.key());
        if duplicate.is_some() {
            return Err(BookError::DuplicateOrderId);
        }
        // Reading the raw values shows that they are legal.
        let _lots: u64 = order.qty.as_lots();
        let _ticks: i64 = order.price.as_ticks();
        proof {
            find_first(self.bids@, order.key());
            find_first(self.asks@, order.key());
            enqueue_keeps(self@.queue(order.side), order);
            enqueue_apart(
                self@.queue(order.side),
                order,
                self@.queue(order.side.other()),
            );
        }
        match order.side {
            Side::Bid => {
                let i: usize = rank_index(Side::Bid, &self.bids, order.price);
                self.bids.insert(i, order);
            },
            Side::Ask => {
                let i: usize = rank_index(Side::Ask, &self.asks, order.price);
                self.asks.insert(i, order);
            },
        }
        Ok(())
    }

    /// Takes an order off the book.
    pub fn cancel(&mut self, key: OrderKey) -> (r: Result<RestingOrder, BookError>)
        requires
            old(self)@.wf(),
        ensures
            final(self)@.wf(),
            r == (match old(self)@.lookup(key) {
                Some(o) => Ok::<RestingOrder, BookError>(o),
                None => Err::<RestingOrder, BookError>(BookError::UnknownOrderId),
            }),
            final(self)@ == old(self)@.without(key),
    {
        let i: usize = find_index(&self.bids, key);
        if i < self.bids.len() {
            proof {
                remove_keeps(Side::Bid, self.bids@, i as int);
            }
            return Ok(self.bids.remove(i));
        }
        let i: usize = find_index(&self.asks, key);
        if i < self.asks.len() {
            proof {
                remove_keeps(Side::Ask, self.asks@, i as int);
            }
            return Ok(self.asks.remove(i));
        }
        Err(BookError::UnknownOrderId)
    }

    /// Amends an order. Strictly less quantity at the same price is taken
    /// off in place, which keeps the queue position. For anything else the
    /// order leaves the book and its place is lost.
    pub fn replace(&mut self, key: OrderKey, price: Price, qty: Qty) -> (r: Result<
        ReplaceOutcome,
        BookError,
    >)
        requires
            old(self)@.wf(),
        ensures
            final(self)@.wf(),
            r == (match old(self)@.lookup(key) {
                Some(o) => Ok::<ReplaceOutcome, BookError>(
                    ReplaceOutcome { kept_priority: keeps_priority(o, price, qty), previous: o },
                ),
                None => Err::<ReplaceOutcome, BookError>(BookError::UnknownOrderId),
            }),
            final(self)@ == (match old(self)@.lookup(key) {
                Some(o) => if keeps_priority(o, price, qty) {
                    old(self)@.reduced(key, qty)
                } else {
                    old(self)@.without(key)
                },
                None => old(self)@,
            }),
    {
        let lots: u64 = qty.as_lots();
        let i: usize = find_index(&self.bids, key);
        if i < self.bids.len() {
            let previous = self.bids[i];
            let kept_priority = price == previous.price && lots < previous.qty.as_lots();
            proof {
                remove_keeps(Side::Bid, self.bids@, i as int);
                requantify_keeps(Side::Bid, self.bids@, i as int, qty);
            }
            if kept_priority {
                self.bids.set(i, RestingOrder { qty, ..previous });
            } else {
                self.bids.remove(i);
            }
            return Ok(ReplaceOutcome { kept_priority, previous });
        }
        let i: usize = find_index(&self.asks, key);
        if i < self.asks.len() {
            let previous = self.asks[i];
            let kept_priority = price == previous.price && lots < previous.qty.as_lots();
            proof {
                remove_keeps(Side::Ask, self.asks@, i as int);
                requantify_keeps(Side::Ask, self.asks@, i as int, qty);
            }
            if kept_priority {
                self.asks.set(i, RestingOrder { qty, ..previous });
            } else {
                self.asks.remove(i);
            }
            return Ok(ReplaceOutcome { kept_priority, previous });
        }
        Err(BookError::UnknownOrderId)
    }

    /// Takes every order of an account off the book, appending them to
    /// `out`: bids in priority order, then asks.
    pub fn mass_cancel(&mut self, account: AccountId, out: &mut Vec<RestingOrder>)
        requires
            old(self)@.wf(),
        ensures
            final(self)@.wf(),
            final(self)@ == old(self)@.without_account(account),
            final(out)@ == old(out)@ + old(self)@.owned_by(account),
    {
        proof {
            filter_keeps(Side::Bid, self.bids@, not_owned(account));
            filter_keeps(Side::Ask, self.asks@, not_owned(account));
            filter_apart(self.bids@, self.asks@, not_owned(account));
        }
        let bids = split_account(&self.bids, account, out);
        let asks = split_account(&self.asks, account, out);
        proof {
            assert(out@ =~= old(out)@ + self@.owned_by(account));
        }
        self.bids = bids;
        self.asks = asks;
    }

    /// Bid levels, highest price first.
    pub fn bid_levels(&self) -> (r: Vec<Level>)
        requires
            self@.wf(),
        ensures
            r@ == levels(self@.bids),
    {
        collect_levels(Ghost(Side::Bid), &self.bids)
    }

    /// Ask levels, lowest price first.
    pub fn ask_levels(&self) -> (r: Vec<Level>)
        requires
            self@.wf(),
        ensures
            r@ == levels(self@.asks),
    {
        collect_levels(Ghost(Side::Ask), &self.asks)
    }
}

} // verus!
