//! What the book is and what each operation does to it.
//!
//! A side of the book is the sequence of its orders in priority order:
//! best price first, and first come first within a price.

use vstd::prelude::*;

use crate::domain::{AccountId, OrderKey, Price, Qty, Side, Tif, TradeId};
use crate::matching::types::{AggressiveOrder, Fill, Level, RestingOrder};

verus! {

/// Both sides of the book, each in priority order.
#[verifier::ext_equal]
pub struct BookModel {
    /// Bids, highest price first.
    pub bids: Seq<RestingOrder>,
    /// Asks, lowest price first.
    pub asks: Seq<RestingOrder>,
}

/// `p` is strictly better than `q` for an order resting on `side`.
pub open spec fn better(side: Side, p: Price, q: Price) -> bool {
    match side {
        Side::Bid => p@ > q@,
        Side::Ask => p@ < q@,
    }
}

/// A taker on `side` with this limit trades with a maker at `maker`.
pub open spec fn crosses(side: Side, limit: Option<Price>, maker: Price) -> bool {
    match limit {
        None => true,
        Some(p) => match side {
            Side::Bid => p@ >= maker@,
            Side::Ask => p@ <= maker@,
        },
    }
}

/// An order that may stand in the queue of `side`.
pub open spec fn order_wf(side: Side, o: RestingOrder) -> bool {
    o.side == side && o.price@ > 0 && o.qty@ > 0
}

/// A queue in priority order, no order occurring twice.
pub open spec fn queue_wf(side: Side, s: Seq<RestingOrder>) -> bool {
    &&& forall|i: int| 0 <= i < s.len() ==> order_wf(side, #[trigger] s[i])
    &&& forall|i: int, j: int|
        0 <= i < j < s.len() ==> !better(side, (#[trigger] s[j]).price, (#[trigger] s[i]).price)
    &&& forall|i: int, j: int|
        0 <= i < j < s.len() ==> (#[trigger] s[i]).key() != (#[trigger] s[j]).key()
}

/// No order stands in both queues.
pub open spec fn apart(s: Seq<RestingOrder>, t: Seq<RestingOrder>) -> bool {
    forall|i: int, j: int|
        0 <= i < s.len() && 0 <= j < t.len() ==> (#[trigger] s[i]).key() != (#[trigger] t[j]).key()
}

impl BookModel {
    /// The queue of one side.
    pub open spec fn queue(self, side: Side) -> Seq<RestingOrder> {
        match side {
            Side::Bid => self.bids,
            Side::Ask => self.asks,
        }
    }

    /// The book with the queue of one side put in place.
    pub open spec fn with_queue(self, side: Side, s: Seq<RestingOrder>) -> BookModel {
        match side {
            Side::Bid => BookModel { bids: s, asks: self.asks },
            Side::Ask => BookModel { bids: self.bids, asks: s },
        }
    }

    /// Both queues are in priority order and no order occurs twice.
    pub open spec fn wf(self) -> bool {
        &&& queue_wf(Side::Bid, self.bids)
        &&& queue_wf(Side::Ask, self.asks)
        &&& apart(self.bids, self.asks)
    }

    /// Neither locked nor crossed: every bid is below every ask.
    pub open spec fn uncrossed(self) -> bool {
        forall|i: int, j: int|
            0 <= i < self.bids.len() && 0 <= j < self.asks.len() ==> (
            #[trigger] self.bids[i]).price@ < (#[trigger] self.asks[j]).price@
    }

    /// The resting order with this key.
    pub open spec fn lookup(self, key: OrderKey) -> Option<RestingOrder> {
        if find(self.bids, key) < self.bids.len() {
            Some(self.bids[find(self.bids, key)])
        } else if find(self.asks, key) < self.asks.len() {
            Some(self.asks[find(self.asks, key)])
        } else {
            None
        }
    }

    /// The book without the order of this key.
    pub open spec fn without(self, key: OrderKey) -> BookModel {
        if find(self.bids, key) < self.bids.len() {
            BookModel { bids: self.bids.remove(find(self.bids, key)), asks: self.asks }
        } else if find(self.asks, key) < self.asks.len() {
            BookModel { bids: self.bids, asks: self.asks.remove(find(self.asks, key)) }
        } else {
            self
        }
    }

    /// The book with `o` at the tail of its price level.
    pub open spec fn with(self, o: RestingOrder) -> BookModel {
        self.with_queue(o.side, enqueued(self.queue(o.side), o))
    }

    /// The book with the order of this key cut down to `qty`, in place.
    pub open spec fn reduced(self, key: OrderKey, qty: Qty) -> BookModel {
        if find(self.bids, key) < self.bids.len() {
            let i = find(self.bids, key);
            BookModel {
                bids: self.bids.update(i, RestingOrder { qty, ..self.bids[i] }),
                asks: self.asks,
            }
        } else {
            let i = find(self.asks, key);
            BookModel {
                bids: self.bids,
                asks: self.asks.update(i, RestingOrder { qty, ..self.asks[i] }),
            }
        }
    }

    /// Every order of the account: bids in priority order, then asks.
    pub open spec fn owned_by(self, account: AccountId) -> Seq<RestingOrder> {
        self.bids.filter(owned(account)) + self.asks.filter(owned(account))
    }

    /// The book without any order of the account.
    pub open spec fn without_account(self, account: AccountId) -> BookModel {
        BookModel {
            bids: self.bids.filter(not_owned(account)),
            asks: self.asks.filter(not_owned(account)),
        }
    }

    /// Best price of a side.
    pub open spec fn best(self, side: Side) -> Option<Price> {
        if self.queue(side).len() > 0 {
            Some(self.queue(side)[0].price)
        } else {
            None
        }
    }

    /// A taker on `side` with this limit would trade at once.
    pub open spec fn would_cross(self, side: Side, limit: Option<Price>) -> bool {
        self.queue(side.other()).len() > 0 && crosses(
            side,
            limit,
            self.queue(side.other())[0].price,
        )
    }
}

/// The orders of `account`.
pub open spec fn owned(account: AccountId) -> spec_fn(RestingOrder) -> bool {
    |o: RestingOrder| o.account_id == account
}

/// The orders of everyone but `account`.
pub open spec fn not_owned(account: AccountId) -> spec_fn(RestingOrder) -> bool {
    |o: RestingOrder| o.account_id != account
}

/// Index of the first order with this key, or the length if there is none.
pub open spec fn find(s: Seq<RestingOrder>, key: OrderKey) -> int
    decreases s.len(),
{
    if s.len() == 0 || s[0].key() == key {
        0
    } else {
        1 + find(s.drop_first(), key)
    }
}

/// Number of leading orders that an order at `price` queues behind.
pub open spec fn rank(side: Side, s: Seq<RestingOrder>, price: Price) -> int
    decreases s.len(),
{
    if s.len() == 0 || better(side, price, s[0].price) {
        0
    } else {
        1 + rank(side, s.drop_first(), price)
    }
}

/// The queue with `o` behind every order that is at least as good.
pub open spec fn enqueued(s: Seq<RestingOrder>, o: RestingOrder) -> Seq<RestingOrder> {
    s.insert(rank(o.side, s, o.price), o)
}

/// Sum of `weight` over a queue.
pub open spec fn total(s: Seq<RestingOrder>, weight: spec_fn(RestingOrder) -> nat) -> nat
    decreases s.len(),
{
    if s.len() == 0 {
        0
    } else {
        weight(s[0]) + total(s.drop_first(), weight)
    }
}

/// Counts the orders of `account`.
pub open spec fn count_weight(account: AccountId) -> spec_fn(RestingOrder) -> nat {
    |o: RestingOrder|
        if o.account_id == account {
            1nat
        } else {
            0
        }
}

/// Price times quantity.
pub open spec fn notional(price: Price, qty: Qty) -> nat {
    (price@ * qty@) as nat
}

/// Adds up the notional of the orders of `account`.
pub open spec fn notional_weight(account: AccountId) -> spec_fn(RestingOrder) -> nat {
    |o: RestingOrder|
        if o.account_id == account {
            notional(o.price, o.qty)
        } else {
            0
        }
}

/// Adds up the quantity of the orders at `price`.
pub open spec fn depth_weight(price: Price) -> spec_fn(RestingOrder) -> nat {
    |o: RestingOrder|
        if o.price == price {
            o.qty@ as nat
        } else {
            0
        }
}

/// The number as a `u64`, capped at the largest one.
pub open spec fn capped(n: nat) -> u64 {
    if n > u64::MAX {
        u64::MAX
    } else {
        n as u64
    }
}

impl BookModel {
    /// Number of resting orders of the account.
    pub open spec fn open_orders(self, account: AccountId) -> nat {
        total(self.bids, count_weight(account)) + total(self.asks, count_weight(account))
    }

    /// Aggregate resting notional of the account.
    pub open spec fn exposure(self, account: AccountId) -> nat {
        total(self.bids, notional_weight(account)) + total(self.asks, notional_weight(account))
    }

    /// Quantity resting on `side` at `price`.
    pub open spec fn depth(self, side: Side, price: Price) -> nat {
        total(self.queue(side), depth_weight(price))
    }
}

/// A fill of `qty` against `maker`.
pub open spec fn fill_of(maker: RestingOrder, qty: u64, trade: u64) -> Fill {
    Fill {
        trade_id: TradeId::of(trade),
        maker_order_id: maker.order_id,
        maker_account_id: maker.account_id,
        price: maker.price,
        qty: Qty::of(qty),
        maker_leaves: if qty < maker.qty@ {
            Some(Qty::of((maker.qty@ - qty) as u64))
        } else {
            None
        },
    }
}

/// What a taker's walk down the opposite queue comes to.
#[verifier::ext_equal]
pub struct Walk {
    /// The fills, in the order in which they happen.
    pub fills: Seq<Fill>,
    /// The taker's own order that halted the walk.
    pub self_trade: Option<RestingOrder>,
    /// Unfilled quantity of the taker.
    pub left: u64,
    /// The opposite queue afterwards.
    pub makers: Seq<RestingOrder>,
}

/// The walk of `left` lots of `taker` down `makers`, trades being numbered
/// from `trade`.
///
/// The head of the queue is taken as long as it crosses: an order of the
/// taker's own account is dropped and halts the walk; any other order is
/// filled, fully or as far as the taker's quantity goes.
pub open spec fn walk(
    makers: Seq<RestingOrder>,
    taker: AggressiveOrder,
    left: u64,
    trade: u64,
) -> Walk
    decreases makers.len(),
{
    if makers.len() == 0 || left == 0 || !crosses(taker.side, taker.price, makers[0].price) {
        Walk { fills: Seq::empty(), self_trade: None, left, makers }
    } else if makers[0].account_id == taker.account_id {
        Walk {
            fills: Seq::empty(),
            self_trade: Some(makers[0]),
            left,
            makers: makers.drop_first(),
        }
    } else if makers[0].qty@ > left {
        Walk {
            fills: seq![fill_of(makers[0], left, trade)],
            self_trade: None,
            left: 0,
            makers: makers.update(
                0,
                RestingOrder { qty: Qty::of((makers[0].qty@ - left) as u64), ..makers[0] },
            ),
        }
    } else {
        let rest = walk(
            makers.drop_first(),
            taker,
            (left - makers[0].qty@) as u64,
            (trade + 1) as u64,
        );
        Walk {
            fills: seq![fill_of(makers[0], makers[0].qty@, trade)] + rest.fills,
            ..rest
        }
    }
}

/// The walk of a whole taker down the side of the book opposite to it.
pub open spec fn sweep(book: BookModel, taker: AggressiveOrder, trade: u64) -> Walk {
    walk(book.queue(taker.side.other()), taker, taker.qty@, trade)
}

/// The book after a walk.
pub open spec fn swept(book: BookModel, taker: AggressiveOrder, trade: u64) -> BookModel {
    book.with_queue(taker.side.other(), sweep(book, taker, trade).makers)
}

/// A post-only taker that would trade at once.
pub open spec fn post_only_crosses(book: BookModel, taker: AggressiveOrder) -> bool {
    taker.tif == Tif::PostOnly && book.would_cross(taker.side, taker.price)
}

/// An amendment that keeps the queue position: same price, strictly less
/// quantity.
pub open spec fn keeps_priority(o: RestingOrder, price: Price, qty: Qty) -> bool {
    price == o.price && qty@ < o.qty@
}

/// The distinct prices of a queue, in the order in which they first occur.
pub open spec fn prices(s: Seq<RestingOrder>) -> Seq<Price>
    decreases s.len(),
{
    if s.len() == 0 {
        Seq::empty()
    } else {
        let front = prices(s.drop_last());
        if front.len() > 0 && front.last() == s.last().price {
            front
        } else {
            front.push(s.last().price)
        }
    }
}

/// Everything that rests in a queue at `price`.
pub open spec fn level_at(s: Seq<RestingOrder>, price: Price) -> Level {
    Level { price, qty: Qty::of(capped(total(s, depth_weight(price)))) }
}

/// The price levels of a queue, best first.
pub open spec fn levels(s: Seq<RestingOrder>) -> Seq<Level> {
    Seq::new(prices(s).len(), |i: int| level_at(s, prices(s)[i]))
}

} // verus!
