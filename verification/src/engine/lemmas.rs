//! Facts about the market that the proofs of the pipeline rest on.

use vstd::prelude::*;

use crate::domain::{group_newtypes, AccountId, OrderKey, Qty, Side};
use crate::matching::lemmas::{
    enqueue_apart, enqueue_keeps, filter_apart, filter_from, filter_keeps, find_first, finished,
    remove_keeps, requantify_keeps, total_filter, total_insert, total_remove, total_update, used_up,
    walk_accounts, walk_apart, walk_keeps, weight_of,
};
use crate::matching::model::{
    count_weight, crosses, enqueued, find, not_owned, notional, notional_weight, order_wf, owned,
    rank, sweep, swept, total, BookModel,
};
use crate::matching::types::{AggressiveOrder, Fill, RestingOrder};
use crate::risk::{Exposure, RiskModel};

verus! {

broadcast use group_newtypes;

/// The risk state says of every account what the book shows.
pub open spec fn mirrors(risk: RiskModel, book: BookModel) -> bool {
    forall|a: AccountId|
        (#[trigger] risk.exposure(a)).open == book.open_orders(a) && risk.exposure(a).notional
            == book.exposure(a)
}

/// The risk state still carries what the fills and the dropped order have
/// taken off the book.
pub open spec fn carries(
    risk: RiskModel,
    book: BookModel,
    fills: Seq<Fill>,
    dropped: Option<RestingOrder>,
) -> bool {
    forall|a: AccountId|
        (#[trigger] risk.exposure(a)).open == book.open_orders(a) + finished(fills, a)
            + weight_of(dropped, count_weight(a)) && risk.exposure(a).notional == book.exposure(a)
            + used_up(fills, a) + weight_of(dropped, notional_weight(a))
}

/// The risk state still carries a run of orders that have left the book.
pub open spec fn carries_orders(
    risk: RiskModel,
    book: BookModel,
    orders: Seq<RestingOrder>,
) -> bool {
    forall|a: AccountId|
        (#[trigger] risk.exposure(a)).open == book.open_orders(a) + total(orders, count_weight(a))
            && risk.exposure(a).notional == book.exposure(a) + total(orders, notional_weight(a))
}

/// An order that is looked up stands in the queue of its side.
pub proof fn lookup_found(book: BookModel, key: OrderKey)
    requires
        book.wf(),
    ensures
        match book.lookup(key) {
            Some(o) => {
                &&& o.key() == key
                &&& order_wf(o.side, o)
                &&& 0 <= find(book.queue(o.side), key) < book.queue(o.side).len()
                &&& book.queue(o.side)[find(book.queue(o.side), key)] == o
            },
            None => {
                &&& find(book.bids, key) == book.bids.len()
                &&& find(book.asks, key) == book.asks.len()
            },
        },
{
    find_first(book.bids, key);
    find_first(book.asks, key);
}

/// Taking an order off the book.
pub proof fn without_keeps(book: BookModel, key: OrderKey)
    requires
        book.wf(),
        book.lookup(key) is Some,
    ensures
        ({
            let o = book.lookup(key)->0;
            let r = book.without(key);
            &&& r.wf()
            &&& book.uncrossed() ==> r.uncrossed()
            &&& r.lookup(key) is None
            &&& r.queue(o.side.other()) == book.queue(o.side.other())
            &&& forall|a: AccountId|
                #![trigger r.open_orders(a)]
                #![trigger r.exposure(a)]
                book.open_orders(a) == r.open_orders(a) + count_weight(a)(o) && book.exposure(a)
                    == r.exposure(a) + notional_weight(a)(o)
        }),
{
    lookup_found(book, key);
    let o = book.lookup(key)->0;
    let r = book.without(key);
    let s = book.queue(o.side);
    let i = find(s, key);
    find_first(book.bids, key);
    find_first(book.asks, key);
    if find(book.bids, key) < book.bids.len() {
        assert(order_wf(Side::Bid, book.bids[find(book.bids, key)]));
    } else {
        assert(order_wf(Side::Ask, book.asks[find(book.asks, key)]));
    }
    remove_keeps(o.side, s, i);
    find_first(s.remove(i), key);
    find_first(book.queue(o.side.other()), key);
    assert forall|a: AccountId|
        #![trigger r.open_orders(a)]
        #![trigger r.exposure(a)]
        book.open_orders(a) == r.open_orders(a) + count_weight(a)(o) && book.exposure(a)
            == r.exposure(a) + notional_weight(a)(o) by {
        total_remove(s, i, count_weight(a));
        total_remove(s, i, notional_weight(a));
    }
    assert forall|j: int| 0 <= j < s.remove(i).len() implies #[trigger] s.remove(i)[j] == (if j
        < i {
        s[j]
    } else {
        s[j + 1]
    }) by {}
    if find(s.remove(i), key) < s.remove(i).len() {
        let k = find(s.remove(i), key);
        assert(s[if k < i { k } else { k + 1 }].key() == key);
        assert(false);
    }
}

/// Cutting an order down in place.
pub proof fn reduced_keeps(book: BookModel, key: OrderKey, qty: Qty)
    requires
        book.wf(),
        book.lookup(key) is Some,
        0 < qty@ < book.lookup(key)->0.qty@,
    ensures
        ({
            let o = book.lookup(key)->0;
            let r = book.reduced(key, qty);
            &&& r.wf()
            &&& book.uncrossed() ==> r.uncrossed()
            &&& notional(o.price, qty) <= notional(o.price, o.qty)
            &&& forall|a: AccountId|
                #![trigger r.open_orders(a)]
                #![trigger r.exposure(a)]
                book.open_orders(a) == r.open_orders(a) && book.exposure(a) == r.exposure(a) + (if a
                    == o.account_id {
                    notional(o.price, o.qty) - notional(o.price, qty)
                } else {
                    0
                })
        }),
{
    lookup_found(book, key);
    let o = book.lookup(key)->0;
    let r = book.reduced(key, qty);
    let s = book.queue(o.side);
    let i = find(s, key);
    let cut = RestingOrder { qty, ..o };
    find_first(book.bids, key);
    find_first(book.asks, key);
    if find(book.bids, key) < book.bids.len() {
        assert(order_wf(Side::Bid, book.bids[find(book.bids, key)]));
    } else {
        assert(order_wf(Side::Ask, book.asks[find(book.asks, key)]));
    }
    requantify_keeps(o.side, s, i, qty);
    let p = o.price@ as int;
    let q0 = o.qty@ as int;
    let q1 = qty@ as int;
    assert(0 <= p * q1 <= p * q0) by (nonlinear_arith)
        requires
            p > 0,
            0 < q1 < q0,
    ;
    assert forall|a: AccountId|
        #![trigger r.open_orders(a)]
        #![trigger r.exposure(a)]
        book.open_orders(a) == r.open_orders(a) && book.exposure(a) == r.exposure(a) + (if a
            == o.account_id {
            notional(o.price, o.qty) - notional(o.price, qty)
        } else {
            0
        }) by {
        total_update(s, i, cut, count_weight(a));
        total_update(s, i, cut, notional_weight(a));
    }
    assert forall|j: int| 0 <= j < s.len() implies (#[trigger] s.update(i, cut)[j]).price
        == s[j].price by {}
}

/// Resting an order.
pub proof fn with_keeps(book: BookModel, o: RestingOrder)
    requires
        book.wf(),
        order_wf(o.side, o),
        book.lookup(o.key()) is None,
    ensures
        ({
            let r = book.with(o);
            &&& r.wf()
            &&& book.uncrossed() && (forall|j: int|
                0 <= j < book.queue(o.side.other()).len() ==> !crosses(
                    o.side,
                    Some(o.price),
                    (#[trigger] book.queue(o.side.other())[j]).price,
                )) ==> r.uncrossed()
            &&& forall|a: AccountId|
                #![trigger r.open_orders(a)]
                #![trigger r.exposure(a)]
                r.open_orders(a) == book.open_orders(a) + count_weight(a)(o) && r.exposure(a)
                    == book.exposure(a) + notional_weight(a)(o)
        }),
{
    lookup_found(book, o.key());
    let r = book.with(o);
    let s = book.queue(o.side);
    let t = book.queue(o.side.other());
    let k = rank(o.side, s, o.price);
    enqueue_keeps(s, o);
    enqueue_apart(s, o, t);
    assert forall|a: AccountId|
        #![trigger r.open_orders(a)]
        #![trigger r.exposure(a)]
        r.open_orders(a) == book.open_orders(a) + count_weight(a)(o) && r.exposure(a)
            == book.exposure(a) + notional_weight(a)(o) by {
        total_insert(s, k, o, count_weight(a));
        total_insert(s, k, o, notional_weight(a));
    }
    let e = enqueued(s, o);
    assert forall|j: int| 0 <= j < e.len() implies #[trigger] e[j] == (if j < k {
        s[j]
    } else if j == k {
        o
    } else {
        s[j - 1]
    }) by {}
}

/// Walking a taker down the opposite side.
pub proof fn sweep_keeps(book: BookModel, taker: AggressiveOrder, trade: u64)
    requires
        book.wf(),
    ensures
        ({
            let w = sweep(book, taker, trade);
            let r = swept(book, taker, trade);
            &&& r.wf()
            &&& book.uncrossed() ==> r.uncrossed()
            &&& r.queue(taker.side) == book.queue(taker.side)
            &&& forall|a: AccountId|
                #![trigger r.open_orders(a)]
                #![trigger r.exposure(a)]
                book.open_orders(a) == r.open_orders(a) + finished(w.fills, a) + weight_of(
                    w.self_trade,
                    count_weight(a),
                ) && book.exposure(a) == r.exposure(a) + used_up(w.fills, a) + weight_of(
                    w.self_trade,
                    notional_weight(a),
                )
            &&& forall|key: OrderKey|
                book.lookup(key) is None ==> (#[trigger] r.lookup(key)) is None
        }),
{
    let makers = book.queue(taker.side.other());
    let w = sweep(book, taker, trade);
    let r = swept(book, taker, trade);
    walk_keeps(makers, taker, taker.qty@, trade);
    walk_apart(makers, taker, taker.qty@, trade, book.queue(taker.side));
    let d = makers.len() - w.makers.len();
    assert forall|j: int| 0 <= j < w.makers.len() implies (#[trigger] w.makers[j]).price == makers[j
        + d].price && w.makers[j].key() == makers[j + d].key() by {}
    assert forall|a: AccountId|
        #![trigger r.open_orders(a)]
        #![trigger r.exposure(a)]
        book.open_orders(a) == r.open_orders(a) + finished(w.fills, a) + weight_of(
            w.self_trade,
            count_weight(a),
        ) && book.exposure(a) == r.exposure(a) + used_up(w.fills, a) + weight_of(
            w.self_trade,
            notional_weight(a),
        ) by {
        walk_accounts(makers, taker, taker.qty@, trade, a);
    }
    assert forall|key: OrderKey| book.lookup(key) is None implies (#[trigger] r.lookup(key)) is None by {
        lookup_found(book, key);
        find_first(w.makers, key);
        find_first(makers, key);
        if find(w.makers, key) < w.makers.len() {
            assert(makers[find(w.makers, key) + d].key() == key);
        }
    }
}

/// The sum over two queues put together.
pub proof fn total_concat(
    s: Seq<RestingOrder>,
    t: Seq<RestingOrder>,
    weight: spec_fn(RestingOrder) -> nat,
)
    ensures
        total(s + t, weight) == total(s, weight) + total(t, weight),
    decreases s.len(),
{
    if s.len() == 0 {
        assert(s + t =~= t);
    } else {
        total_concat(s.drop_first(), t, weight);
        assert((s + t).drop_first() =~= s.drop_first() + t);
    }
}

/// Taking an account's orders off the book.
pub proof fn without_account_keeps(book: BookModel, account: AccountId)
    requires
        book.wf(),
    ensures
        ({
            let r = book.without_account(account);
            &&& r.wf()
            &&& book.uncrossed() ==> r.uncrossed()
            &&& forall|a: AccountId|
                #![trigger r.open_orders(a)]
                #![trigger r.exposure(a)]
                book.open_orders(a) == r.open_orders(a) + total(
                    book.owned_by(account),
                    count_weight(a),
                ) && book.exposure(a) == r.exposure(a) + total(
                    book.owned_by(account),
                    notional_weight(a),
                )
        }),
{
    let r = book.without_account(account);
    filter_keeps(Side::Bid, book.bids, not_owned(account));
    filter_keeps(Side::Ask, book.asks, not_owned(account));
    filter_apart(book.bids, book.asks, not_owned(account));
    filter_from(book.bids, not_owned(account));
    filter_from(book.asks, not_owned(account));
    assert forall|a: AccountId|
        #![trigger r.open_orders(a)]
        #![trigger r.exposure(a)]
        book.open_orders(a) == r.open_orders(a) + total(book.owned_by(account), count_weight(a))
            && book.exposure(a) == r.exposure(a) + total(
            book.owned_by(account),
            notional_weight(a),
        ) by {
        total_filter(book.bids, owned(account), not_owned(account), count_weight(a));
        total_filter(book.asks, owned(account), not_owned(account), count_weight(a));
        total_filter(book.bids, owned(account), not_owned(account), notional_weight(a));
        total_filter(book.asks, owned(account), not_owned(account), notional_weight(a));
        total_concat(
            book.bids.filter(owned(account)),
            book.asks.filter(owned(account)),
            count_weight(a),
        );
        total_concat(
            book.bids.filter(owned(account)),
            book.asks.filter(owned(account)),
            notional_weight(a),
        );
    }
    if book.uncrossed() {
        assert forall|i: int, j: int|
            0 <= i < r.bids.len() && 0 <= j < r.asks.len() implies (#[trigger] r.bids[i]).price@ < (
        #[trigger] r.asks[j]).price@ by {
            let k = choose|k: int| 0 <= k < book.bids.len() && book.bids[k] == r.bids[i];
            let l = choose|l: int| 0 <= l < book.asks.len() && book.asks[l] == r.asks[j];
            assert(book.bids[k].price@ < book.asks[l].price@);
        }
    }
}

/// An account's exposure once an order of `released` notional is gone.
pub open spec fn after_removal(e: Exposure, released: nat) -> Exposure {
    Exposure { open: (e.open - 1) as u32, notional: (e.notional - released) as u128 }
}

/// Booking one fill: what the risk state carries shrinks by that fill.
pub proof fn book_fill(
    risk: RiskModel,
    next: RiskModel,
    book: BookModel,
    fills: Seq<Fill>,
    dropped: Option<RestingOrder>,
)
    requires
        carries(risk, book, fills, dropped),
        fills.len() > 0,
        ({
            let f = fills[0];
            let e = risk.exposure(f.maker_account_id);
            next.accounts == risk.accounts.insert(
                f.maker_account_id@,
                Exposure {
                    open: if f.maker_leaves is None {
                        (e.open - 1) as u32
                    } else {
                        e.open
                    },
                    notional: (e.notional - notional(f.price, f.qty)) as u128,
                },
            )
        }),
    ensures
        carries(next, book, fills.drop_first(), dropped),
{
    let rest = fills.drop_first();
    assert forall|a: AccountId|
        (#[trigger] next.exposure(a)).open == book.open_orders(a) + finished(rest, a) + weight_of(
            dropped,
            count_weight(a),
        ) && next.exposure(a).notional == book.exposure(a) + used_up(rest, a) + weight_of(
            dropped,
            notional_weight(a),
        ) by {
        let e = risk.exposure(a);
        let f = risk.exposure(fills[0].maker_account_id);
        assert(e.open == book.open_orders(a) + finished(fills, a) + weight_of(
            dropped,
            count_weight(a),
        ));
        if a@ == fills[0].maker_account_id@ {
            assert(a == fills[0].maker_account_id);
        }
    }
}

/// Once every fill is booked, only the dropped order is still carried.
pub proof fn book_dropped(
    risk: RiskModel,
    next: RiskModel,
    book: BookModel,
    dropped: Option<RestingOrder>,
)
    requires
        carries(risk, book, Seq::empty(), dropped),
        match dropped {
            None => next.accounts == risk.accounts,
            Some(o) => next.accounts == risk.accounts.insert(
                o.account_id@,
                after_removal(risk.exposure(o.account_id), notional(o.price, o.qty)),
            ),
        },
    ensures
        mirrors(next, book),
{
    assert forall|a: AccountId|
        (#[trigger] next.exposure(a)).open == book.open_orders(a) && next.exposure(a).notional
            == book.exposure(a) by {
        let e = risk.exposure(a);
        if let Some(o) = dropped {
            if a@ == o.account_id@ {
                assert(a == o.account_id);
            }
        }
    }
}

/// Booking one order of a run that has left the book.
pub proof fn book_order(
    risk: RiskModel,
    next: RiskModel,
    book: BookModel,
    orders: Seq<RestingOrder>,
)
    requires
        carries_orders(risk, book, orders),
        orders.len() > 0,
        next.accounts == risk.accounts.insert(
            orders[0].account_id@,
            after_removal(
                risk.exposure(orders[0].account_id),
                notional(orders[0].price, orders[0].qty),
            ),
        ),
    ensures
        carries_orders(next, book, orders.drop_first()),
{
    let rest = orders.drop_first();
    assert forall|a: AccountId|
        (#[trigger] next.exposure(a)).open == book.open_orders(a) + total(rest, count_weight(a))
            && next.exposure(a).notional == book.exposure(a) + total(rest, notional_weight(a)) by {
        let e = risk.exposure(a);
        let f = risk.exposure(orders[0].account_id);
        if a@ == orders[0].account_id@ {
            assert(a == orders[0].account_id);
        }
    }
}

} // verus!
