//! The model of the engine, put in the words that the laws use.

use vstd::prelude::*;

use crate::domain::{group_newtypes, AccountId, OrderKey, Price, Side};
use crate::engine::l2::{ascending, changes, deltas};
use crate::engine::lemmas::lookup_found;
use crate::engine::model::{command, is_book_command, outcome, Market};
use crate::laws::plain::{
    joins, notional_of_account, open_notional, open_orders, orders, orders_of, out_of_band, qty_at,
    rests, rests_at,
};
use crate::matching::lemmas::{find_first, rank_splits, total_push};
use crate::matching::model::{
    better, count_weight, depth_weight, enqueued, find, notional_weight, queue_wf, rank, total,
    BookModel,
};
use crate::matching::types::{Level, RestingOrder};
use crate::risk::in_band;
use crate::wire::inbound::Inbound;

verus! {

broadcast use group_newtypes;

/// Sums over a queue.
proof fn sums_agree(s: Seq<RestingOrder>, account: AccountId)
    requires
        forall|i: int| 0 <= i < s.len() ==> (#[trigger] s[i]).price@ > 0,
    ensures
        total(s, count_weight(account)) == orders_of(s, account),
        total(s, notional_weight(account)) == notional_of_account(s, account),
    decreases s.len(),
{
    if s.len() > 0 {
        let front = s.drop_last();
        let o = s.last();
        assert forall|i: int| 0 <= i < front.len() implies (#[trigger] front[i]).price@ > 0 by {
            assert(front[i] == s[i]);
        }
        assert(s[s.len() - 1].price@ > 0);
        assert(o.price@ * o.qty@ >= 0) by (nonlinear_arith)
            requires
                o.price@ > 0,
                o.qty@ >= 0,
        ;
        sums_agree(front, account);
        assert(front.push(o) =~= s);
        total_push(front, o, count_weight(account));
        total_push(front, o, notional_weight(account));
    }
}

/// What an account rests.
pub proof fn exposure_agrees(book: BookModel, account: AccountId)
    requires
        book.wf(),
    ensures
        book.open_orders(account) == open_orders(book, account),
        book.exposure(account) == open_notional(book, account),
{
    sums_agree(book.bids, account);
    sums_agree(book.asks, account);
}

/// What rests at a price.
pub proof fn depth_agrees(s: Seq<RestingOrder>, price: Price)
    ensures
        total(s, depth_weight(price)) == qty_at(s, price),
    decreases s.len(),
{
    if s.len() > 0 {
        let front = s.drop_last();
        depth_agrees(front, price);
        assert(front.push(s.last()) =~= s);
        total_push(front, s.last(), depth_weight(price));
    }
}

/// The price band.
pub proof fn band_agrees(last_trade: Option<Price>, price: Price)
    ensures
        in_band(last_trade, price) == !out_of_band(last_trade, price),
{
}

/// Whether an account rests an id.
pub proof fn lookup_agrees(book: BookModel, key: OrderKey)
    requires
        book.wf(),
    ensures
        book.lookup(key) is Some == rests(book, key.account_id, key.order_id),
{
    find_first(book.bids, key);
    find_first(book.asks, key);
    let b = find(book.bids, key);
    let a = find(book.asks, key);
    if b < book.bids.len() {
        assert(book.bids[b].account_id == key.account_id);
    }
    if a < book.asks.len() {
        assert(book.asks[a].account_id == key.account_id);
    }
    if rests(book, key.account_id, key.order_id) {
        if exists|i: int|
            0 <= i < book.bids.len() && (#[trigger] book.bids[i]).account_id == key.account_id
                && book.bids[i].order_id == key.order_id {
            let i = choose|i: int|
                0 <= i < book.bids.len() && (#[trigger] book.bids[i]).account_id == key.account_id
                    && book.bids[i].order_id == key.order_id;
            assert(book.bids[i].key() == key);
        } else {
            let i = choose|i: int|
                0 <= i < book.asks.len() && (#[trigger] book.asks[i]).account_id == key.account_id
                    && book.asks[i].order_id == key.order_id;
            assert(book.asks[i].key() == key);
        }
    }
}

/// The order that an account rests under an id.
pub proof fn found_agrees(book: BookModel, side: Side, i: int, key: OrderKey)
    requires
        book.wf(),
        rests_at(book, side, i, key.account_id, key.order_id),
    ensures
        rests(book, key.account_id, key.order_id),
        book.lookup(key) == Some(orders(book, side)[i]),
        find(orders(book, side), key) == i,
        side == Side::Ask ==> find(book.bids, key) == book.bids.len(),
{
    let s = orders(book, side);
    lookup_found(book, key);
    find_first(book.bids, key);
    find_first(book.asks, key);
    assert(s[i].key() == key);
    let k = find(s, key);
    if k < i {
        assert(s[k].key() != s[i].key());
    }
    if side == Side::Ask && find(book.bids, key) < book.bids.len() {
        assert(book.bids[find(book.bids, key)].key() != s[i].key());
    }
}

/// Joining a queue.
pub proof fn enqueued_joins(s: Seq<RestingOrder>, o: RestingOrder)
    requires
        queue_wf(o.side, s),
    ensures
        joins(enqueued(s, o), s, o),
{
    let k = rank(o.side, s, o.price);
    rank_splits(o.side, s, o.price);
    assert forall|i: int| 0 <= i < k implies match o.side {
        Side::Bid => (#[trigger] s[i]).price@ >= o.price@,
        Side::Ask => s[i].price@ <= o.price@,
    } by {
        assert(!better(o.side, o.price, s[i].price));
    }
    assert forall|i: int| k <= i < s.len() implies match o.side {
        Side::Bid => (#[trigger] s[i]).price@ < o.price@,
        Side::Ask => s[i].price@ > o.price@,
    } by {
        if i > k {
            assert(!better(o.side, s[i].price, s[k].price));
        }
    }
    assert(enqueued(s, o) == s.insert(k, o));
}

/// Level changes are level changes.
proof fn changes_are_deltas(side: Side, pre: Seq<Level>, post: Seq<Level>)
    ensures
        forall|i: int|
            0 <= i < changes(side, pre, post).len() ==> (#[trigger] changes(side, pre, post)[i])
                is Delta,
    decreases pre.len() + post.len(),
{
    if pre.len() == 0 && post.len() == 0 {
    } else if post.len() == 0 || (pre.len() > 0 && pre[0].price@ < post[0].price@) {
        changes_are_deltas(side, pre.drop_first(), post);
    } else if pre.len() == 0 || post[0].price@ < pre[0].price@ {
        changes_are_deltas(side, pre, post.drop_first());
    } else {
        changes_are_deltas(side, pre.drop_first(), post.drop_first());
    }
}

/// The events of a command that may change the book: those of its handler,
/// then level changes, then the top of the book.
pub proof fn handler_comes_first(m: Market, msg: Inbound, trade: u64)
    requires
        is_book_command(msg),
    ensures
        ({
            let c = command(m, msg, trade);
            let o = outcome(m, msg, trade);
            &&& o.market == c.market
            &&& o.trades == c.trades
            &&& o.events == c.events + o.events.skip(c.events.len() as int)
            &&& o.events.len() > c.events.len()
            &&& forall|i: int| 0 <= i < c.events.len() ==> #[trigger] o.events[i] == c.events[i]
            &&& forall|i: int|
                c.events.len() <= i < o.events.len() - 1 ==> (#[trigger] o.events[i]) is Delta
            &&& o.events.last() is Top
        }),
{
    let c = command(m, msg, trade);
    let o = outcome(m, msg, trade);
    let d = deltas(m.book, c.market.book);
    let n = c.events.len() as int;
    changes_are_deltas(
        Side::Bid,
        ascending(m.book, Side::Bid),
        ascending(c.market.book, Side::Bid),
    );
    changes_are_deltas(
        Side::Ask,
        ascending(m.book, Side::Ask),
        ascending(c.market.book, Side::Ask),
    );
    assert forall|i: int| n <= i < o.events.len() - 1 implies (#[trigger] o.events[i]) is Delta by {
        assert(o.events[i] == d[i - n]);
    }
    assert(o.events =~= c.events + o.events.skip(n));
}

} // verus!
