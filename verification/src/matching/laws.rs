//! What holds of every walk and of every change of the book.

use vstd::prelude::*;

use crate::domain::{group_newtypes, AccountId, OrderKey, Price, Qty, Side, TradeId};
use crate::matching::lemmas::{
    drop_first_keeps, filled, filter_from, find_first, rank_splits, walk_conserves, walk_keeps,
};
use crate::matching::levels::prices_best_first;
use crate::matching::model::{
    better, capped, crosses, depth_weight, enqueued, find, levels, not_owned, order_wf, prices,
    queue_wf, rank, sweep, swept, total, walk, BookModel,
};
use crate::matching::types::{AggressiveOrder, RestingOrder};

verus! {

broadcast use group_newtypes;

/// Price-time priority: the fills of a walk are against the first orders of
/// the queue, one each, in queue order and at their own prices. All but the
/// last are filled completely. No fill is against the taker's own account,
/// none is outside the taker's limit, and the trades are numbered without a
/// gap.
pub proof fn fills_follow_queue(
    makers: Seq<RestingOrder>,
    taker: AggressiveOrder,
    left: u64,
    trade: u64,
)
    requires
        queue_wf(taker.side.other(), makers),
        trade + walk(makers, taker, left, trade).fills.len() <= u64::MAX,
    ensures
        ({
            let w = walk(makers, taker, left, trade);
            &&& w.fills.len() <= makers.len()
            &&& forall|i: int|
                0 <= i < w.fills.len() ==> {
                    &&& (#[trigger] w.fills[i]).maker_order_id == makers[i].order_id
                    &&& w.fills[i].maker_account_id == makers[i].account_id
                    &&& w.fills[i].maker_account_id != taker.account_id
                    &&& w.fills[i].price == makers[i].price
                    &&& crosses(taker.side, taker.price, w.fills[i].price)
                    &&& w.fills[i].trade_id == TradeId::of((trade + i) as u64)
                    &&& 0 < w.fills[i].qty@ <= makers[i].qty@
                    &&& (w.fills[i].maker_leaves is None <==> w.fills[i].qty == makers[i].qty)
                    &&& (i + 1 < w.fills.len() ==> w.fills[i].maker_leaves is None)
                }
            &&& w.self_trade is Some ==> w.fills.len() < makers.len() && w.self_trade
                == Some(makers[w.fills.len() as int]) && makers[w.fills.len() as int].account_id
                == taker.account_id
        }),
    decreases makers.len(),
{
    let w = walk(makers, taker, left, trade);
    if makers.len() == 0 || left == 0 || !crosses(taker.side, taker.price, makers[0].price) {
    } else if makers[0].account_id == taker.account_id {
    } else if makers[0].qty@ > left {
        assert(order_wf(taker.side.other(), makers[0]));
    } else {
        assert(order_wf(taker.side.other(), makers[0]));
        drop_first_keeps(taker.side.other(), makers);
        let next = (left - makers[0].qty@) as u64;
        let rest = walk(makers.drop_first(), taker, next, (trade + 1) as u64);
        assert(w.fills.len() == rest.fills.len() + 1);
        fills_follow_queue(makers.drop_first(), taker, next, (trade + 1) as u64);
        assert forall|i: int| 0 <= i < w.fills.len() implies {
            &&& (#[trigger] w.fills[i]).maker_order_id == makers[i].order_id
            &&& w.fills[i].maker_account_id == makers[i].account_id
            &&& w.fills[i].maker_account_id != taker.account_id
            &&& w.fills[i].price == makers[i].price
            &&& crosses(taker.side, taker.price, w.fills[i].price)
            &&& w.fills[i].trade_id == TradeId::of((trade + i) as u64)
            &&& 0 < w.fills[i].qty@ <= makers[i].qty@
            &&& (w.fills[i].maker_leaves is None <==> w.fills[i].qty == makers[i].qty)
            &&& (i + 1 < w.fills.len() ==> w.fills[i].maker_leaves is None)
        } by {
            if i > 0 {
                assert(w.fills[i] == rest.fills[i - 1]);
                assert(makers[i] == makers.drop_first()[i - 1]);
            }
        }
    }
}

/// Conservation: what a taker fills and what it leaves add up to its
/// quantity. It leaves something open only if nothing on the opposite side
/// crosses it any more or its own order halted the walk.
pub proof fn sweep_conserves(book: BookModel, taker: AggressiveOrder, trade: u64)
    requires
        book.wf(),
    ensures
        ({
            let w = sweep(book, taker, trade);
            &&& filled(w.fills) + w.left == taker.qty@
            &&& w.left > 0 && w.self_trade is None ==> !swept(book, taker, trade).would_cross(
                taker.side,
                taker.price,
            )
        }),
{
    let makers = book.queue(taker.side.other());
    walk_conserves(makers, taker, taker.qty@, trade);
    walk_keeps(makers, taker, taker.qty@, trade);
}

/// A taker that does not cross touches nothing.
pub proof fn no_cross_no_change(book: BookModel, taker: AggressiveOrder, trade: u64)
    requires
        !book.would_cross(taker.side, taker.price),
    ensures
        swept(book, taker, trade) == book,
        sweep(book, taker, trade).fills.len() == 0,
        sweep(book, taker, trade).self_trade is None,
        sweep(book, taker, trade).left == taker.qty@,
{
}

/// Time priority: a new order stands behind every order that is at least as
/// good, and in front of every order that is worse. The others keep their
/// order.
pub proof fn newcomer_queues_behind(s: Seq<RestingOrder>, o: RestingOrder)
    ensures
        ({
            let k = rank(o.side, s, o.price);
            &&& 0 <= k <= s.len()
            &&& enqueued(s, o)[k] == o
            &&& enqueued(s, o).remove(k) == s
            &&& forall|j: int| 0 <= j < k ==> !better(o.side, o.price, (#[trigger] s[j]).price)
            &&& k < s.len() ==> better(o.side, o.price, s[k].price)
        }),
{
    rank_splits(o.side, s, o.price);
    let k = rank(o.side, s, o.price);
    assert(enqueued(s, o).remove(k) =~= s);
}

/// Cancelling undoes adding: an order that was added is found, and taking it
/// off again gives back the book as it was.
pub proof fn cancel_undoes_add(book: BookModel, o: RestingOrder)
    requires
        book.wf(),
        book.lookup(o.key()) is None,
    ensures
        book.with(o).lookup(o.key()) == Some(o),
        book.with(o).without(o.key()) == book,
{
    find_first(book.bids, o.key());
    find_first(book.asks, o.key());
    let s = book.queue(o.side);
    let e = enqueued(s, o);
    let k = rank(o.side, s, o.price);
    newcomer_queues_behind(s, o);
    find_first(e, o.key());
    assert forall|j: int| 0 <= j < e.len() && j != k implies (#[trigger] e[j]).key()
        != o.key() by {
        assert(e[j] == s[if j < k { j } else { j - 1 }]);
    }
    assert(e[k] == o);
    assert(find(e, o.key()) == k);
}

/// Cancelling an order leaves every other order alone, be it of another
/// account with the same id or of the same account with another id.
pub proof fn cancel_leaves_others(book: BookModel, key: OrderKey, other: OrderKey)
    requires
        book.wf(),
        other != key,
    ensures
        book.without(key).lookup(other) == book.lookup(other),
{
    find_first(book.bids, key);
    find_first(book.asks, key);
    remove_finds(book.bids, find(book.bids, key), other);
    remove_finds(book.asks, find(book.asks, key), other);
}

/// What is found in a queue once another order has been taken out of it.
proof fn remove_finds(s: Seq<RestingOrder>, i: int, key: OrderKey)
    requires
        0 <= i <= s.len(),
        i < s.len() ==> s[i].key() != key,
    ensures
        i < s.len() ==> {
            let t = s.remove(i);
            &&& find(s, key) < s.len() <==> find(t, key) < t.len()
            &&& find(s, key) < s.len() ==> t[find(t, key)] == s[find(s, key)]
        },
    decreases s.len(),
{
    if i < s.len() {
        let t = s.remove(i);
        if i == 0 {
            assert(t =~= s.drop_first());
            find_first(t, key);
        } else if s[0].key() != key {
            remove_finds(s.drop_first(), i - 1, key);
            assert(t.drop_first() =~= s.drop_first().remove(i - 1));
            find_first(t.drop_first(), key);
            find_first(s.drop_first(), key);
        }
    }
}

/// Reducing an order in place keeps every order where it is.
pub proof fn reduction_keeps_place(book: BookModel, key: OrderKey, qty: Qty)
    requires
        book.wf(),
        book.lookup(key) is Some,
    ensures
        ({
            let r = book.reduced(key, qty);
            &&& forall|side: Side| (#[trigger] r.queue(side)).len() == book.queue(side).len()
            &&& forall|side: Side, i: int|
                0 <= i < book.queue(side).len() ==> (#[trigger] r.queue(side)[i]) == (
                if book.queue(side)[i].key() == key {
                    RestingOrder { qty, ..book.queue(side)[i] }
                } else {
                    book.queue(side)[i]
                })
        }),
{
    let r = book.reduced(key, qty);
    find_first(book.bids, key);
    find_first(book.asks, key);
    assert forall|side: Side, i: int| 0 <= i < book.queue(side).len() implies (#[trigger] r.queue(
        side,
    )[i]) == (if book.queue(side)[i].key() == key {
        RestingOrder { qty, ..book.queue(side)[i] }
    } else {
        book.queue(side)[i]
    }) by {
        if book.queue(side)[i].key() == key {
            find_first(book.queue(side), key);
            let k = find(book.queue(side), key);
            assert(book.queue(side)[k].key() == key);
        }
    }
}

/// The levels of a queue come best price first, no price twice, and each
/// holds what rests at its price. There is a level wherever anything rests.
pub proof fn levels_best_first(side: Side, s: Seq<RestingOrder>)
    requires
        queue_wf(side, s),
    ensures
        forall|i: int, j: int|
            0 <= i < j < levels(s).len() ==> better(
                side,
                (#[trigger] levels(s)[i]).price,
                (#[trigger] levels(s)[j]).price,
            ),
        forall|i: int|
            0 <= i < levels(s).len() ==> {
                &&& total(s, depth_weight((#[trigger] levels(s)[i]).price)) > 0
                &&& levels(s)[i].qty@ == capped(total(s, depth_weight(levels(s)[i].price)))
            },
        forall|p: Price|
            #![trigger depth_weight(p)]
            total(s, depth_weight(p)) > 0 ==> exists|i: int|
                0 <= i < levels(s).len() && (#[trigger] levels(s)[i]).price == p,
{
    prices_best_first(side, s);
    assert forall|i: int| 0 <= i < levels(s).len() implies total(
        s,
        depth_weight((#[trigger] levels(s)[i]).price),
    ) > 0 by {
        assert(prices(s)[i] == levels(s)[i].price);
        assert(prices(s).contains(levels(s)[i].price));
    }
    assert forall|p: Price|
        #![trigger depth_weight(p)]
        total(s, depth_weight(p)) > 0 implies exists|i: int|
        0 <= i < levels(s).len() && (#[trigger] levels(s)[i]).price == p by {
        assert(prices(s).contains(p));
        let i = choose|i: int| 0 <= i < prices(s).len() && prices(s)[i] == p;
        assert(levels(s)[i].price == p);
    }
}

/// A mass cancel leaves no order of the account, and every other order.
pub proof fn mass_cancel_clears(book: BookModel, account: AccountId)
    ensures
        ({
            let r = book.without_account(account);
            &&& forall|side: Side, i: int|
                0 <= i < r.queue(side).len() ==> (#[trigger] r.queue(side)[i]).account_id != account
            &&& forall|side: Side, i: int|
                0 <= i < book.queue(side).len() && (#[trigger] book.queue(side)[i]).account_id
                    != account ==> r.queue(side).contains(book.queue(side)[i])
        }),
{
    broadcast use vstd::seq_lib::group_filter_ensures;

    let r = book.without_account(account);
    filter_from(book.bids, not_owned(account));
    filter_from(book.asks, not_owned(account));
    assert forall|side: Side, i: int| 0 <= i < r.queue(side).len() implies (#[trigger] r.queue(
        side,
    )[i]).account_id != account by {
        match side {
            Side::Bid => {
                assert(not_owned(account)(r.bids[i]));
            },
            Side::Ask => {
                assert(not_owned(account)(r.asks[i]));
            },
        }
    }
}

} // verus!
