//! Facts about queues that the proofs of the book and the engine rest on.

use vstd::prelude::*;

use crate::domain::{group_newtypes, AccountId, OrderKey, Price, Qty, Side};
use crate::matching::model::{
    apart, better, count_weight, crosses, enqueued, find, notional, notional_weight, order_wf,
    queue_wf, rank, total, walk,
};
use crate::matching::types::{AggressiveOrder, Fill, RestingOrder};

verus! {

broadcast use group_newtypes;

/// `find` stops at the first order with the key.
pub proof fn find_first(s: Seq<RestingOrder>, key: OrderKey)
    ensures
        0 <= find(s, key) <= s.len(),
        find(s, key) < s.len() ==> s[find(s, key)].key() == key,
        forall|j: int| 0 <= j < find(s, key) ==> (#[trigger] s[j]).key() != key,
    decreases s.len(),
{
    if s.len() > 0 && s[0].key() != key {
        find_first(s.drop_first(), key);
        assert forall|j: int| 0 <= j < find(s, key) implies (#[trigger] s[j]).key() != key by {
            if j > 0 {
                assert(s[j] == s.drop_first()[j - 1]);
            }
        }
    }
}

/// `rank` is where the better-or-equal prefix ends.
pub proof fn rank_splits(side: Side, s: Seq<RestingOrder>, price: Price)
    ensures
        0 <= rank(side, s, price) <= s.len(),
        forall|j: int| 0 <= j < rank(side, s, price) ==> !better(side, price, (#[trigger] s[j]).price),
        rank(side, s, price) < s.len() ==> better(side, price, s[rank(side, s, price)].price),
    decreases s.len(),
{
    if s.len() > 0 && !better(side, price, s[0].price) {
        rank_splits(side, s.drop_first(), price);
        assert forall|j: int| 0 <= j < rank(side, s, price) implies !better(
            side,
            price,
            (#[trigger] s[j]).price,
        ) by {
            if j > 0 {
                assert(s[j] == s.drop_first()[j - 1]);
            }
        }
    }
}

/// Taking an order out keeps a queue in order.
pub proof fn remove_keeps(side: Side, s: Seq<RestingOrder>, i: int)
    requires
        queue_wf(side, s),
        0 <= i < s.len(),
    ensures
        queue_wf(side, s.remove(i)),
        forall|t: Seq<RestingOrder>| apart(s, t) ==> apart(s.remove(i), t),
        forall|t: Seq<RestingOrder>| apart(t, s) ==> apart(t, s.remove(i)),
{
    let r = s.remove(i);
    assert forall|j: int| 0 <= j < r.len() implies #[trigger] r[j] == (if j < i {
        s[j]
    } else {
        s[j + 1]
    }) by {}
}

/// Putting a new order in its place keeps a queue in order.
pub proof fn enqueue_keeps(s: Seq<RestingOrder>, o: RestingOrder)
    requires
        queue_wf(o.side, s),
        order_wf(o.side, o),
        find(s, o.key()) == s.len(),
    ensures
        queue_wf(o.side, enqueued(s, o)),
        0 <= rank(o.side, s, o.price) <= s.len(),
{
    let k = rank(o.side, s, o.price);
    let r = enqueued(s, o);
    rank_splits(o.side, s, o.price);
    find_first(s, o.key());
    assert forall|j: int| 0 <= j < r.len() implies #[trigger] r[j] == (if j < k {
        s[j]
    } else if j == k {
        o
    } else {
        s[j - 1]
    }) by {}
}

/// Keys of an enlarged queue stay apart from those of another queue.
pub proof fn enqueue_apart(s: Seq<RestingOrder>, o: RestingOrder, t: Seq<RestingOrder>)
    requires
        apart(s, t),
        find(t, o.key()) == t.len(),
    ensures
        apart(enqueued(s, o), t),
        apart(t, enqueued(s, o)),
{
    let k = rank(o.side, s, o.price);
    let r = enqueued(s, o);
    rank_splits(o.side, s, o.price);
    find_first(t, o.key());
    assert forall|j: int| 0 <= j < r.len() implies #[trigger] r[j] == (if j < k {
        s[j]
    } else if j == k {
        o
    } else {
        s[j - 1]
    }) by {}
}

/// Changing only the quantity of an order keeps a queue in order.
pub proof fn requantify_keeps(side: Side, s: Seq<RestingOrder>, i: int, qty: Qty)
    requires
        queue_wf(side, s),
        0 <= i < s.len(),
        qty@ > 0,
    ensures
        queue_wf(side, s.update(i, RestingOrder { qty, ..s[i] })),
        forall|t: Seq<RestingOrder>|
            apart(s, t) ==> apart(s.update(i, RestingOrder { qty, ..s[i] }), t),
        forall|t: Seq<RestingOrder>|
            apart(t, s) ==> apart(t, s.update(i, RestingOrder { qty, ..s[i] })),
{
    let r = s.update(i, RestingOrder { qty, ..s[i] });
    assert forall|j: int| 0 <= j < r.len() implies (#[trigger] r[j]).key() == s[j].key()
        && r[j].price == s[j].price && order_wf(side, r[j]) by {}
}

/// Taking an order out takes its weight out of the sum.
pub proof fn total_remove(
    s: Seq<RestingOrder>,
    i: int,
    weight: spec_fn(RestingOrder) -> nat,
)
    requires
        0 <= i < s.len(),
    ensures
        total(s, weight) == total(s.remove(i), weight) + weight(s[i]),
    decreases s.len(),
{
    if i == 0 {
        assert(s.remove(0) =~= s.drop_first());
    } else {
        total_remove(s.drop_first(), i - 1, weight);
        assert(s.remove(i).drop_first() =~= s.drop_first().remove(i - 1));
    }
}

/// Putting an order in puts its weight into the sum.
pub proof fn total_insert(
    s: Seq<RestingOrder>,
    i: int,
    o: RestingOrder,
    weight: spec_fn(RestingOrder) -> nat,
)
    requires
        0 <= i <= s.len(),
    ensures
        total(s.insert(i, o), weight) == total(s, weight) + weight(o),
{
    total_remove(s.insert(i, o), i, weight);
    assert(s.insert(i, o).remove(i) =~= s);
}

/// Exchanging an order exchanges its weight in the sum.
pub proof fn total_update(
    s: Seq<RestingOrder>,
    i: int,
    o: RestingOrder,
    weight: spec_fn(RestingOrder) -> nat,
)
    requires
        0 <= i < s.len(),
    ensures
        total(s.update(i, o), weight) + weight(s[i]) == total(s, weight) + weight(o),
{
    total_remove(s, i, weight);
    total_remove(s.update(i, o), i, weight);
    assert(s.update(i, o).remove(i) =~= s.remove(i));
}

/// The sum over a queue with one more order at its end.
pub proof fn total_push(
    s: Seq<RestingOrder>,
    o: RestingOrder,
    weight: spec_fn(RestingOrder) -> nat,
)
    ensures
        total(s.push(o), weight) == total(s, weight) + weight(o),
{
    assert(s.push(o) =~= s.insert(s.len() as int, o));
    total_insert(s, s.len() as int, o, weight);
}

/// Number of makers of `account` that the fills finish off.
pub open spec fn finished(fills: Seq<Fill>, account: AccountId) -> nat
    decreases fills.len(),
{
    if fills.len() == 0 {
        0
    } else {
        (if fills[0].maker_account_id == account && fills[0].maker_leaves is None {
            1nat
        } else {
            0
        }) + finished(fills.drop_first(), account)
    }
}

/// Resting notional of `account` that the fills use up.
pub open spec fn used_up(fills: Seq<Fill>, account: AccountId) -> nat
    decreases fills.len(),
{
    if fills.len() == 0 {
        0
    } else {
        (if fills[0].maker_account_id == account {
            notional(fills[0].price, fills[0].qty)
        } else {
            0
        }) + used_up(fills.drop_first(), account)
    }
}

/// Quantity that the fills add up to.
pub open spec fn filled(fills: Seq<Fill>) -> nat
    decreases fills.len(),
{
    if fills.len() == 0 {
        0
    } else {
        fills[0].qty@ as nat + filled(fills.drop_first())
    }
}

/// Weight of an order that may or may not be there.
pub open spec fn weight_of(o: Option<RestingOrder>, weight: spec_fn(RestingOrder) -> nat) -> nat {
    match o {
        Some(o) => weight(o),
        None => 0,
    }
}

/// What a walk fills and what it leaves is what it started with.
pub proof fn walk_conserves(makers: Seq<RestingOrder>, taker: AggressiveOrder, left: u64, trade: u64)
    requires
        queue_wf(taker.side.other(), makers),
    ensures
        ({
            let w = walk(makers, taker, left, trade);
            &&& filled(w.fills) + w.left == left
            &&& forall|i: int| 0 <= i < w.fills.len() ==> (#[trigger] w.fills[i]).qty@ > 0
            &&& w.self_trade is Some ==> w.left > 0
        }),
    decreases makers.len(),
{
    let w = walk(makers, taker, left, trade);
    if makers.len() == 0 || left == 0 || !crosses(taker.side, taker.price, makers[0].price) {
    } else if makers[0].account_id == taker.account_id {
    } else if makers[0].qty@ > left {
        assert(w.fills.drop_first() =~= Seq::<Fill>::empty());
        assert(filled(w.fills.drop_first()) == 0);
    } else {
        drop_first_keeps(taker.side.other(), makers);
        let rest = walk(
            makers.drop_first(),
            taker,
            (left - makers[0].qty@) as u64,
            (trade + 1) as u64,
        );
        walk_conserves(
            makers.drop_first(),
            taker,
            (left - makers[0].qty@) as u64,
            (trade + 1) as u64,
        );
        assert(w.fills.drop_first() =~= rest.fills);
        assert forall|i: int| 0 <= i < w.fills.len() implies (#[trigger] w.fills[i]).qty@ > 0 by {
            if i > 0 {
                assert(w.fills[i] == rest.fills[i - 1]);
            }
        }
    }
}

/// Dropping the head keeps a queue in order.
pub proof fn drop_first_keeps(side: Side, s: Seq<RestingOrder>)
    requires
        queue_wf(side, s),
        s.len() > 0,
    ensures
        queue_wf(side, s.drop_first()),
{
    remove_keeps(side, s, 0);
    assert(s.remove(0) =~= s.drop_first());
}

/// A walk leaves a queue in order, made of orders that stood in it before,
/// and stops where the taker does not cross.
pub proof fn walk_keeps(makers: Seq<RestingOrder>, taker: AggressiveOrder, left: u64, trade: u64)
    requires
        queue_wf(taker.side.other(), makers),
    ensures
        ({
            let w = walk(makers, taker, left, trade);
            &&& queue_wf(taker.side.other(), w.makers)
            &&& w.makers.len() <= makers.len()
            &&& forall|j: int|
                0 <= j < w.makers.len() ==> same_order(
                    #[trigger] w.makers[j],
                    makers[j + makers.len() - w.makers.len()],
                )
            &&& w.left > 0 && w.self_trade is None ==> forall|j: int|
                0 <= j < w.makers.len() ==> !crosses(
                    taker.side,
                    taker.price,
                    (#[trigger] w.makers[j]).price,
                )
            &&& w.fills.len() <= makers.len()
        }),
    decreases makers.len(),
{
    let w = walk(makers, taker, left, trade);
    let side = taker.side.other();
    if makers.len() == 0 || left == 0 || !crosses(taker.side, taker.price, makers[0].price) {
    } else if makers[0].account_id == taker.account_id {
        drop_first_keeps(side, makers);
    } else if makers[0].qty@ > left {
        requantify_keeps(side, makers, 0, Qty::of((makers[0].qty@ - left) as u64));
    } else {
        drop_first_keeps(side, makers);
        walk_keeps(
            makers.drop_first(),
            taker,
            (left - makers[0].qty@) as u64,
            (trade + 1) as u64,
        );
    }
}

/// The same order but for its quantity, which is no larger.
pub open spec fn same_order(now: RestingOrder, before: RestingOrder) -> bool {
    now == (RestingOrder { qty: now.qty, ..before }) && now.qty@ <= before.qty@
}

/// Keys of a walked queue stay apart from those of another queue.
pub proof fn walk_apart(
    makers: Seq<RestingOrder>,
    taker: AggressiveOrder,
    left: u64,
    trade: u64,
    other: Seq<RestingOrder>,
)
    requires
        queue_wf(taker.side.other(), makers),
    ensures
        apart(makers, other) ==> apart(walk(makers, taker, left, trade).makers, other),
        apart(other, makers) ==> apart(other, walk(makers, taker, left, trade).makers),
{
    walk_keeps(makers, taker, left, trade);
    let w = walk(makers, taker, left, trade);
    let d = makers.len() - w.makers.len();
    assert forall|j: int| 0 <= j < w.makers.len() implies (#[trigger] w.makers[j]).key()
        == makers[j + d].key() by {}
}

/// A walk takes out of each account's exposure what its fills use up and
/// what it drops.
pub proof fn walk_accounts(
    makers: Seq<RestingOrder>,
    taker: AggressiveOrder,
    left: u64,
    trade: u64,
    account: AccountId,
)
    requires
        queue_wf(taker.side.other(), makers),
    ensures
        ({
            let w = walk(makers, taker, left, trade);
            &&& total(makers, count_weight(account)) == total(w.makers, count_weight(account))
                + finished(w.fills, account) + weight_of(w.self_trade, count_weight(account))
            &&& total(makers, notional_weight(account)) == total(
                w.makers,
                notional_weight(account),
            ) + used_up(w.fills, account) + weight_of(w.self_trade, notional_weight(account))
        }),
    decreases makers.len(),
{
    let w = walk(makers, taker, left, trade);
    let side = taker.side.other();
    if makers.len() == 0 || left == 0 || !crosses(taker.side, taker.price, makers[0].price) {
    } else if makers[0].account_id == taker.account_id {
    } else if makers[0].qty@ > left {
        let o = RestingOrder { qty: Qty::of((makers[0].qty@ - left) as u64), ..makers[0] };
        total_update(makers, 0, o, count_weight(account));
        total_update(makers, 0, o, notional_weight(account));
        assert(w.fills.drop_first() =~= Seq::<Fill>::empty());
        assert(used_up(w.fills.drop_first(), account) == 0);
        assert(finished(w.fills.drop_first(), account) == 0);
        let p = makers[0].price@ as int;
        let q = makers[0].qty@ as int;
        let l = left as int;
        assert(p * q == p * (q - l) + p * l && p * q >= 0 && p * (q - l) >= 0 && p * l >= 0)
            by (nonlinear_arith)
            requires
                p > 0,
                q > l,
                l > 0,
        ;
    } else {
        drop_first_keeps(side, makers);
        let rest = walk(
            makers.drop_first(),
            taker,
            (left - makers[0].qty@) as u64,
            (trade + 1) as u64,
        );
        walk_accounts(
            makers.drop_first(),
            taker,
            (left - makers[0].qty@) as u64,
            (trade + 1) as u64,
            account,
        );
        assert(w.fills.drop_first() =~= rest.fills);
    }
}

/// A filtered queue holds only orders of the queue.
pub proof fn filter_from(s: Seq<RestingOrder>, pred: spec_fn(RestingOrder) -> bool)
    ensures
        forall|j: int|
            0 <= j < s.filter(pred).len() ==> pred(#[trigger] s.filter(pred)[j]) && s.contains(
                s.filter(pred)[j],
            ),
        s.filter(pred).len() <= s.len(),
    decreases s.len(),
{
    reveal(Seq::filter);
    if s.len() > 0 {
        let front = s.drop_last();
        filter_from(front, pred);
        assert forall|j: int| 0 <= j < s.filter(pred).len() implies pred(
            #[trigger] s.filter(pred)[j],
        ) && s.contains(s.filter(pred)[j]) by {
            if j < front.filter(pred).len() {
                let o = front.filter(pred)[j];
                let k = choose|k: int| 0 <= k < front.len() && front[k] == o;
                assert(s[k] == o);
            } else {
                assert(s[s.len() - 1] == s.last());
            }
        }
    }
}

/// Filtering keeps a queue in order.
pub proof fn filter_keeps(side: Side, s: Seq<RestingOrder>, pred: spec_fn(RestingOrder) -> bool)
    requires
        queue_wf(side, s),
    ensures
        queue_wf(side, s.filter(pred)),
    decreases s.len(),
{
    reveal(Seq::filter);
    if s.len() > 0 {
        let front = s.drop_last();
        remove_keeps(side, s, s.len() - 1);
        assert(s.remove(s.len() - 1) =~= front);
        filter_keeps(side, front, pred);
        filter_from(front, pred);
        if pred(s.last()) {
            let f = front.filter(pred);
            let r = s.filter(pred);
            assert(r == f.push(s.last()));
            assert forall|j: int| 0 <= j < f.len() implies !better(
                side,
                s.last().price,
                (#[trigger] f[j]).price,
            ) && f[j].key() != s.last().key() by {
                let k = choose|k: int| 0 <= k < front.len() && front[k] == f[j];
                assert(s[k] == f[j]);
            }
            assert forall|j: int| 0 <= j < r.len() implies #[trigger] r[j] == (if j < f.len() {
                f[j]
            } else {
                s.last()
            }) by {}
        }
    }
}

/// Keys of filtered queues stay apart.
pub proof fn filter_apart(
    s: Seq<RestingOrder>,
    t: Seq<RestingOrder>,
    pred: spec_fn(RestingOrder) -> bool,
)
    requires
        apart(s, t),
    ensures
        apart(s.filter(pred), t.filter(pred)),
{
    filter_from(s, pred);
    filter_from(t, pred);
    assert forall|i: int, j: int|
        0 <= i < s.filter(pred).len() && 0 <= j < t.filter(pred).len() implies (
    #[trigger] s.filter(pred)[i]).key() != (#[trigger] t.filter(pred)[j]).key() by {
        let k = choose|k: int| 0 <= k < s.len() && s[k] == s.filter(pred)[i];
        let l = choose|l: int| 0 <= l < t.len() && t[l] == t.filter(pred)[j];
        assert(s[k].key() != t[l].key());
    }
}

/// Two complementary filters split a sum.
pub proof fn total_filter(
    s: Seq<RestingOrder>,
    pred: spec_fn(RestingOrder) -> bool,
    rest: spec_fn(RestingOrder) -> bool,
    weight: spec_fn(RestingOrder) -> nat,
)
    requires
        forall|o: RestingOrder| #[trigger] pred(o) == !rest(o),
    ensures
        total(s, weight) == total(s.filter(pred), weight) + total(s.filter(rest), weight),
    decreases s.len(),
{
    reveal(Seq::filter);
    if s.len() > 0 {
        let front = s.drop_last();
        total_filter(front, pred, rest, weight);
        assert(front.push(s.last()) =~= s);
        total_push(front, s.last(), weight);
        if pred(s.last()) {
            total_push(front.filter(pred), s.last(), weight);
        } else {
            total_push(front.filter(rest), s.last(), weight);
        }
    }
}

} // verus!
