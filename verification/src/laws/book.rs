//! What the operations of the book do.

use vstd::prelude::*;

use crate::domain::{group_newtypes, AccountId, OrderKey, Price, Qty, Side};
use crate::engine::lemmas::lookup_found;
use crate::laws::agree::{enqueued_joins, found_agrees, lookup_agrees};
use crate::laws::plain::{
    facing, joins, may_trade, meets_itself, orders, qty_of_first, queue_left, remainder, rests,
    rests_at, traded, trades_with_first,
};
use crate::laws::trading::{walk_is, walk_is_told};
use crate::matching::model::{
    better, keeps_priority, not_owned, owned, post_only_crosses, sweep, swept, walk, BookModel,
};
use crate::matching::types::{AggressiveOrder, RestingOrder};

verus! {

broadcast use group_newtypes;

/// The best price of a side is that of an order that rests there, and no
/// order there has a better one: for bids a higher, for asks a lower one. An
/// empty side has none.
pub proof fn best_price_is_best(book: BookModel, side: Side)
    requires
        book.wf(),
    ensures
        book.best(side) is None <==> orders(book, side).len() == 0,
        book.best(side) matches Some(p) ==> {
            &&& exists|i: int|
                0 <= i < orders(book, side).len() && (#[trigger] orders(book, side)[i]).price == p
            &&& forall|i: int|
                0 <= i < orders(book, side).len() ==> match side {
                    Side::Bid => (#[trigger] orders(book, side)[i]).price@ <= p@,
                    Side::Ask => orders(book, side)[i].price@ >= p@,
                }
        },
{
    let s = orders(book, side);
    assert(s == book.queue(side));
    if s.len() > 0 {
        assert forall|i: int| 0 <= i < s.len() implies match side {
            Side::Bid => (#[trigger] s[i]).price@ <= s[0].price@,
            Side::Ask => s[i].price@ >= s[0].price@,
        } by {
            if i > 0 {
                assert(!better(side, s[i].price, s[0].price));
            }
        }
    }
}

/// An order would trade at once exactly if some order on the other side is
/// at a price that it may trade at.
pub proof fn crossing_is_meeting_a_price(book: BookModel, side: Side, limit: Option<Price>)
    requires
        book.wf(),
    ensures
        book.would_cross(side, limit) <==> exists|i: int|
            0 <= i < facing(book, side).len() && may_trade(
                side,
                limit,
                (#[trigger] facing(book, side)[i]).price,
            ),
{
    let f = facing(book, side);
    assert(f == book.queue(side.other()));
    if exists|i: int| 0 <= i < f.len() && may_trade(side, limit, (#[trigger] f[i]).price) {
        let i = choose|i: int| 0 <= i < f.len() && may_trade(side, limit, (#[trigger] f[i]).price);
        if i > 0 {
            assert(!better(side.other(), f[i].price, f[0].price));
        }
    } else if f.len() > 0 {
        assert(!may_trade(side, limit, f[0].price));
    }
}

/// A post-only order is refused exactly if it would trade at once.
pub proof fn post_only_is_judged_by_crossing(book: BookModel, taker: AggressiveOrder)
    requires
        book.wf(),
    ensures
        post_only_crosses(book, taker) <==> taker.tif is PostOnly && exists|i: int|
            0 <= i < facing(book, taker.side).len() && may_trade(
                taker.side,
                taker.price,
                (#[trigger] facing(book, taker.side)[i]).price,
            ),
{
    crossing_is_meeting_a_price(book, taker.side, taker.price);
}

/// An order is found under its account and id if it rests, and only then.
pub proof fn lookup_finds_the_order(book: BookModel, key: OrderKey, side: Side, i: int)
    requires
        book.wf(),
    ensures
        book.lookup(key) is Some <==> rests(book, key.account_id, key.order_id),
        rests_at(book, side, i, key.account_id, key.order_id) ==> book.lookup(key) == Some(
            orders(book, side)[i],
        ),
{
    lookup_agrees(book, key);
    if rests_at(book, side, i, key.account_id, key.order_id) {
        found_agrees(book, side, i, key);
    }
}

/// Taking an order off removes it and nothing else; cutting it down changes
/// its quantity and nothing else.
pub proof fn only_the_named_order_changes(
    book: BookModel,
    key: OrderKey,
    qty: Qty,
    side: Side,
    i: int,
)
    requires
        book.wf(),
        rests_at(book, side, i, key.account_id, key.order_id),
    ensures
        ({
            let s = orders(book, side);
            &&& orders(book.without(key), side) == s.remove(i)
            &&& facing(book.without(key), side) == facing(book, side)
            &&& orders(book.reduced(key, qty), side) == s.update(i, RestingOrder { qty, ..s[i] })
            &&& facing(book.reduced(key, qty), side) == facing(book, side)
        }),
{
    found_agrees(book, side, i, key);
    lookup_found(book, key);
}

/// An order that rests joins its side behind every order at least as good
/// and before every worse one; the other side is as it was.
pub proof fn newcomer_joins_its_side(book: BookModel, o: RestingOrder)
    requires
        book.wf(),
    ensures
        joins(orders(book.with(o), o.side), orders(book, o.side), o),
        facing(book.with(o), o.side) == facing(book, o.side),
{
    assert(orders(book, o.side) == book.queue(o.side));
    enqueued_joins(orders(book, o.side), o);
}

/// Clearing an account takes off its orders and no other, on both sides.
/// Those taken off are the account's bids in queue order and then its asks
/// in queue order.
pub proof fn clearing_takes_off_the_account(book: BookModel, account: AccountId)
    ensures
        ({
            let mine = |x: RestingOrder| x.account_id@ == account@;
            let others = |x: RestingOrder| x.account_id@ != account@;
            &&& book.without_account(account).bids == book.bids.filter(others)
            &&& book.without_account(account).asks == book.asks.filter(others)
            &&& book.owned_by(account) == book.bids.filter(mine) + book.asks.filter(mine)
        }),
{
    let mine = |x: RestingOrder| x.account_id@ == account@;
    let others = |x: RestingOrder| x.account_id@ != account@;
    assert(mine =~= owned(account));
    assert(others =~= not_owned(account));
}

/// An amendment keeps its place in the queue exactly if it keeps the price
/// and lowers the quantity.
pub proof fn only_a_reduction_keeps_its_place(o: RestingOrder, price: Price, qty: Qty)
    ensures
        keeps_priority(o, price, qty) <==> price@ == o.price@ && qty@ < o.qty@,
{
}

/// Matching fills the first orders of the other side, as far as the limit
/// and the quantity reach and up to an order of the same account. Each fill
/// is at the resting order's price and as large as both allow, takes the next
/// trade number, and says what is left of the resting order. An order of the
/// same account is taken off. The quantity that is left is what was not
/// filled. The side of the taker is as it was.
pub proof fn matching_fills_the_first_orders(
    book: BookModel,
    taker: AggressiveOrder,
    trade: u64,
    n: int,
    i: int,
)
    requires
        book.wf(),
        trades_with_first(
            facing(book, taker.side),
            n,
            taker.account_id,
            taker.side,
            taker.price,
            taker.qty@ as int,
        ),
        trade + n <= u64::MAX,
    ensures
        ({
            let s = facing(book, taker.side);
            let q = taker.qty@ as int;
            let own = meets_itself(s, n, taker.account_id, taker.side, taker.price, q);
            let w = sweep(book, taker, trade);
            &&& w.fills.len() == n
            &&& 0 <= i < n ==> {
                let f = w.fills[i];
                let t = traded(s, i, q);
                &&& f.trade_id@ == trade + i
                &&& f.maker_order_id == s[i].order_id
                &&& f.maker_account_id == s[i].account_id
                &&& f.price == s[i].price
                &&& f.qty@ == t
                &&& f.maker_leaves == remainder(s[i].qty@ - t)
            }
            &&& w.self_trade == (if own {
                Some(s[n])
            } else {
                None::<RestingOrder>
            })
            &&& w.left == (if qty_of_first(s, n) >= q {
                0
            } else {
                q - qty_of_first(s, n)
            })
            &&& orders(swept(book, taker, trade), taker.side) == orders(book, taker.side)
            &&& facing(swept(book, taker, trade), taker.side) == (if own {
                s.skip(n + 1)
            } else {
                queue_left(s, n, q)
            })
        }),
{
    let s = facing(book, taker.side);
    assert(s == book.queue(taker.side.other()));
    walk_is(s, taker, taker.qty@, trade, n);
    walk_is_told(walk(s, taker, taker.qty@, trade), s, taker, taker.qty@, trade, n, i);
}

} // verus!
