//! What becomes of an order that may trade.

use vstd::prelude::*;

use crate::domain::{group_newtypes, AccountId, CancelReason, Price, Qty, Side, TradeId};
use crate::engine::event::Event;
use crate::engine::model::{execute, fill_events, residue, self_trade_events, Market};
use crate::laws::plain::{
    cancel_report, facing, fill_report, may_trade, meets_itself, orders, qty_of_first,
    qty_of_first_is, queue_left, remainder, tells_trades, traded, trades_with_first,
};
use crate::matching::lemmas::drop_first_keeps;
use crate::matching::model::{crosses, fill_of, order_wf, queue_wf, sweep, walk, Walk};
use crate::matching::types::{AggressiveOrder, Fill, RestingOrder};

verus! {

broadcast use group_newtypes;

/// Leaving out the first order.
proof fn qty_of_rest(s: Seq<RestingOrder>, n: int)
    requires
        0 < n <= s.len(),
    ensures
        qty_of_first(s, n) == s[0].qty@ + qty_of_first(s.drop_first(), n - 1),
    decreases n,
{
    qty_of_first_is(s, n);
    qty_of_first_is(s.drop_first(), n - 1);
    if n > 1 {
        qty_of_rest(s, n - 1);
    }
}

/// What a walk is that trades with the first `n` orders.
#[verifier::opaque]
pub open spec fn walk_shape(
    w: Walk,
    makers: Seq<RestingOrder>,
    taker: AggressiveOrder,
    left: u64,
    trade: u64,
    n: int,
) -> bool {
    let own = meets_itself(makers, n, taker.account_id, taker.side, taker.price, left as int);
    &&& 0 <= n <= makers.len()
    &&& w.fills.len() == n
    &&& forall|i: int|
        0 <= i < n ==> (#[trigger] w.fills[i]) == fill_of(
            makers[i],
            traded(makers, i, left as int) as u64,
            (trade + i) as u64,
        )
    &&& forall|i: int|
        0 <= i < n ==> 0 < #[trigger] traded(makers, i, left as int) <= makers[i].qty@
            && qty_of_first(makers, i) < left
    &&& w.self_trade == (if own {
        Some(makers[n])
    } else {
        None::<RestingOrder>
    })
    &&& w.left == (if qty_of_first(makers, n) >= left {
        0
    } else {
        left - qty_of_first(makers, n)
    })
    &&& w.makers == (if own {
        makers.skip(n + 1)
    } else {
        queue_left(makers, n, left as int)
    })
}

/// What a walk is, in terms of how many orders it reaches.
#[verifier::spinoff_prover]
#[verifier::rlimit(30)]
pub proof fn walk_is(
    makers: Seq<RestingOrder>,
    taker: AggressiveOrder,
    left: u64,
    trade: u64,
    n: int,
)
    requires
        queue_wf(taker.side.other(), makers),
        trades_with_first(makers, n, taker.account_id, taker.side, taker.price, left as int),
        trade + n <= u64::MAX,
    ensures
        walk_shape(walk(makers, taker, left, trade), makers, taker, left, trade, n),
    decreases makers.len(),
{
    reveal(walk_shape);
    let w = walk(makers, taker, left, trade);
    let side = taker.side.other();
    qty_of_first_is(makers, 1);
    if makers.len() > 0 {
        assert(order_wf(side, makers[0]));
    }
    if makers.len() == 0 || left == 0 || !crosses(taker.side, taker.price, makers[0].price) {
        if n > 0 {
            assert(may_trade(taker.side, taker.price, makers[0].price));
        }
        assert(makers.skip(0) =~= makers);
    } else if makers[0].account_id == taker.account_id {
        if n > 0 {
            assert(makers[0].account_id != taker.account_id);
        }
        assert(makers.skip(1) =~= makers.drop_first());
    } else if makers[0].qty@ > left {
        if n > 1 {
            assert(may_trade(taker.side, taker.price, makers[1].price));
        }
        assert(n == 1);
        assert(makers.skip(0) =~= makers);
    } else {
        let rest = makers.drop_first();
        let next = (left - makers[0].qty@) as u64;
        drop_first_keeps(side, makers);
        assert(n > 0);
        qty_of_rest(makers, n);
        assert forall|i: int| 0 <= i < n - 1 implies {
            &&& may_trade(taker.side, taker.price, (#[trigger] rest[i]).price)
            &&& rest[i].account_id != taker.account_id
            &&& qty_of_first(rest, i) < next
        } by {
            assert(rest[i] == makers[i + 1]);
            qty_of_rest(makers, i + 1);
        }
        walk_is(rest, taker, next, (trade + 1) as u64, n - 1);
        let v = walk(rest, taker, next, (trade + 1) as u64);
        assert forall|i: int| 0 <= i < n implies 0 < #[trigger] traded(makers, i, left as int)
            <= makers[i].qty@ && w.fills[i] == fill_of(
            makers[i],
            traded(makers, i, left as int) as u64,
            (trade + i) as u64,
        ) by {
            if i > 0 {
                qty_of_rest(makers, i);
                assert(rest[i - 1] == makers[i]);
                assert(traded(rest, i - 1, next as int) == traded(makers, i, left as int));
                assert(w.fills[i] == v.fills[i - 1]);
            }
        }
        assert(makers.skip(n) =~= rest.skip(n - 1));
        if n < makers.len() {
            assert(makers.skip(n + 1) =~= rest.skip(n));
            assert(rest[n - 1] == makers[n]);
        }
        if n > 1 {
            assert(makers.skip(n - 1) =~= rest.skip(n - 2));
            assert(rest[n - 2] == makers[n - 1]);
        }
    }
}

/// The events of fills, one after the other.
proof fn fill_events_are(
    fills: Seq<Fill>,
    taker: AggressiveOrder,
    left: u64,
    s: Seq<RestingOrder>,
    done: int,
    trade: u64,
)
    requires
        0 <= done,
        done + fills.len() <= s.len(),
        trade + done + fills.len() <= u64::MAX,
        left <= taker.qty@,
        left == taker.qty@ - qty_of_first(s, done) || (left == 0 && fills.len() == 0),
        forall|i: int|
            0 <= i < fills.len() ==> (#[trigger] fills[i]) == fill_of(
                s[done + i],
                traded(s, done + i, taker.qty@ as int) as u64,
                (trade + done + i) as u64,
            ) && 0 < traded(s, done + i, taker.qty@ as int) <= s[done + i].qty@,
        forall|i: int|
            done <= i < done + fills.len() ==> qty_of_first(s, i) < taker.qty@ && (
            #[trigger] s[i]).qty@ > 0,
    ensures
        fill_events(fills, taker, left).len() == 3 * fills.len(),
        forall|i: int|
            #![trigger s[done + i]]
            0 <= i < fills.len() ==> {
                let events = fill_events(fills, taker, left);
                let q = taker.qty@ as int;
                let t = traded(s, done + i, q);
                &&& events[3 * i] == (Event::Trade {
                    trade_id: TradeId::of((trade + done + i) as u64),
                    price: s[done + i].price,
                    qty: Qty::of(t as u64),
                    aggressor_side: taker.side,
                })
                &&& events[3 * i + 1] == fill_report(
                    s[done + i].order_id,
                    s[done + i].account_id,
                    s[done + i].price,
                    t,
                    s[done + i].qty@ - t,
                )
                &&& events[3 * i + 2] == fill_report(
                    taker.order_id,
                    taker.account_id,
                    s[done + i].price,
                    t,
                    q - qty_of_first(s, done + i) - t,
                )
            },
    decreases fills.len(),
{
    if fills.len() > 0 {
        let q = taker.qty@ as int;
        let t = traded(s, done, q);
        let after = (left - fills[0].qty@) as u64;
        let rest = fills.drop_first();
        let events = fill_events(fills, taker, left);
        let later = fill_events(rest, taker, after);
        assert(fills[0] == fill_of(s[done + 0], t as u64, (trade + done) as u64));
        qty_of_first_is(s, done + 1);
        assert forall|i: int| 0 <= i < rest.len() implies (#[trigger] rest[i]) == fill_of(
            s[done + 1 + i],
            traded(s, done + 1 + i, q) as u64,
            (trade + (done + 1) + i) as u64,
        ) && 0 < traded(s, done + 1 + i, q) <= s[done + 1 + i].qty@ by {
            assert(rest[i] == fills[i + 1]);
            assert(done + (i + 1) == done + 1 + i);
        }
        if rest.len() > 0 {
            assert(qty_of_first(s, done + 1) < q) by {
                assert(s[done + 1].qty@ > 0);
            }
        }
        fill_events_are(rest, taker, after, s, done + 1, trade);
        assert(events.len() == 3 + later.len());
        assert forall|i: int|
            #![trigger s[done + i]]
            0 <= i < fills.len() implies {
            let u = traded(s, done + i, q);
            &&& events[3 * i] == (Event::Trade {
                trade_id: TradeId::of((trade + done + i) as u64),
                price: s[done + i].price,
                qty: Qty::of(u as u64),
                aggressor_side: taker.side,
            })
            &&& events[3 * i + 1] == fill_report(
                s[done + i].order_id,
                s[done + i].account_id,
                s[done + i].price,
                u,
                s[done + i].qty@ - u,
            )
            &&& events[3 * i + 2] == fill_report(
                taker.order_id,
                taker.account_id,
                s[done + i].price,
                u,
                q - qty_of_first(s, done + i) - u,
            )
        } by {
            if i > 0 {
                assert(s[done + 1 + (i - 1)] == s[done + i]);
                assert(events[3 * i] == later[3 * (i - 1)]);
                assert(events[3 * i + 1] == later[3 * (i - 1) + 1]);
                assert(events[3 * i + 2] == later[3 * (i - 1) + 2]);
            }
        }
    }
}

/// Telling of trades in the midst of other events is telling of trades.
pub proof fn tells_amid(
    pre: Seq<Event>,
    f: Seq<Event>,
    post: Seq<Event>,
    s: Seq<RestingOrder>,
    n: int,
    taker: AggressiveOrder,
    trade: u64,
)
    requires
        0 <= n <= s.len(),
        tells_trades(
            f,
            0,
            s,
            n,
            taker.order_id,
            taker.account_id,
            taker.side,
            taker.qty@ as int,
            trade,
        ),
    ensures
        tells_trades(
            pre + f + post,
            pre.len() as int,
            s,
            n,
            taker.order_id,
            taker.account_id,
            taker.side,
            taker.qty@ as int,
            trade,
        ),
{
    reveal(tells_trades);
    let all = pre + f + post;
    let at = pre.len() as int;
    assert forall|i: int|
        #![trigger s[i]]
        0 <= i < n implies {
        &&& all[at + 3 * i] == f[0 + 3 * i]
        &&& all[at + 3 * i + 1] == f[0 + 3 * i + 1]
        &&& all[at + 3 * i + 2] == f[0 + 3 * i + 2]
    } by {}
}

/// What the fills of a walk tell, in terms of how many orders it reaches.
#[verifier::spinoff_prover]
#[verifier::rlimit(30)]
proof fn fills_tell(
    w: Walk,
    s: Seq<RestingOrder>,
    taker: AggressiveOrder,
    trade: u64,
    n: int,
)
    requires
        walk_shape(w, s, taker, taker.qty@, trade, n),
        trade + n <= u64::MAX,
    ensures
        ({
            let f = fill_events(w.fills, taker, taker.qty@);
            &&& f.len() == 3 * n
            &&& tells_trades(
                f,
                0,
                s,
                n,
                taker.order_id,
                taker.account_id,
                taker.side,
                taker.qty@ as int,
                trade,
            )
            &&& forall|i: int|
                0 <= i < f.len() ==> (#[trigger] f[i]) is Exec || f[i] is Trade
        }),
{
    reveal(walk_shape);
    reveal(tells_trades);
    let q = taker.qty@ as int;
    let f = fill_events(w.fills, taker, taker.qty@);
    qty_of_first_is(s, 0);
    assert forall|i: int| 0 <= i < w.fills.len() implies (#[trigger] w.fills[i]) == fill_of(
        s[0 + i],
        traded(s, 0 + i, q) as u64,
        (trade + 0 + i) as u64,
    ) && 0 < traded(s, 0 + i, q) <= s[0 + i].qty@ by {
        assert(0 < traded(s, i, q) <= s[i].qty@);
    }
    assert forall|i: int| 0 <= i < w.fills.len() implies qty_of_first(s, i) < q && (
    #[trigger] s[i]).qty@ > 0 by {
        assert(0 < traded(s, i, q) <= s[i].qty@);
    }
    fill_events_are(w.fills, taker, taker.qty@, s, 0, trade);
    assert forall|i: int|
        #![trigger s[i]]
        0 <= i < n implies {
        &&& f[0 + 3 * i] == (Event::Trade {
            trade_id: TradeId::of((trade + i) as u64),
            price: s[i].price,
            qty: Qty::of(traded(s, i, q) as u64),
            aggressor_side: taker.side,
        })
        &&& f[0 + 3 * i + 1] == fill_report(
            s[i].order_id,
            s[i].account_id,
            s[i].price,
            traded(s, i, q),
            s[i].qty@ - traded(s, i, q),
        )
        &&& f[0 + 3 * i + 2] == fill_report(
            taker.order_id,
            taker.account_id,
            s[i].price,
            traded(s, i, q),
            q - qty_of_first(s, i) - traded(s, i, q),
        )
    } by {
        assert(s[0 + i] == s[i]);
    }
    assert forall|i: int| 0 <= i < f.len() implies (#[trigger] f[i]) is Exec || f[i] is Trade by {
        let k = i / 3;
        assert(0 <= k < n);
        assert(s[0 + k] == s[k]);
        assert(i == 3 * k || i == 3 * k + 1 || i == 3 * k + 2);
        assert(f[0 + 3 * k] is Trade);
        assert(f[0 + 3 * k + 1] is Exec);
        assert(f[0 + 3 * k + 2] is Exec);
    }
}

/// What a walk that trades with the first `n` orders comes to.
pub proof fn walk_is_told(
    w: Walk,
    s: Seq<RestingOrder>,
    taker: AggressiveOrder,
    left: u64,
    trade: u64,
    n: int,
    i: int,
)
    requires
        walk_shape(w, s, taker, left, trade, n),
        trade + n <= u64::MAX,
    ensures
        ({
            let own = meets_itself(s, n, taker.account_id, taker.side, taker.price, left as int);
            &&& w.fills.len() == n
            &&& 0 <= i < n ==> {
                let f = w.fills[i];
                let t = traded(s, i, left as int);
                &&& f.trade_id@ == trade + i
                &&& f.maker_order_id == s[i].order_id
                &&& f.maker_account_id == s[i].account_id
                &&& f.price == s[i].price
                &&& f.qty@ == t
                &&& f.maker_leaves == remainder(s[i].qty@ - t)
            }
            &&& w.self_trade == (if own {
                Some(s[n])
            } else {
                None::<RestingOrder>
            })
            &&& w.left == (if qty_of_first(s, n) >= left {
                0
            } else {
                left - qty_of_first(s, n)
            })
            &&& w.makers == (if own {
                s.skip(n + 1)
            } else {
                queue_left(s, n, left as int)
            })
        }),
{
    reveal(walk_shape);
    if 0 <= i < n {
        assert(0 < traded(s, i, left as int) <= s[i].qty@);
    }
}

/// What executing a taker comes to, in terms of how many orders it reaches.
#[verifier::spinoff_prover]
#[verifier::rlimit(30)]
pub proof fn execute_is(m: Market, taker: AggressiveOrder, trade: u64, n: int)
    requires
        m.book.wf(),
        trades_with_first(
            facing(m.book, taker.side),
            n,
            taker.account_id,
            taker.side,
            taker.price,
            taker.qty@ as int,
        ),
        trade + n <= u64::MAX,
    ensures
        ({
            let s = facing(m.book, taker.side);
            let q = taker.qty@ as int;
            let own = meets_itself(s, n, taker.account_id, taker.side, taker.price, q);
            let o = execute(m, taker, trade);
            &&& o.trades == n
            &&& o.market.killed == m.killed
            &&& o.market.last_trade == (if n > 0 {
                Some(s[n - 1].price)
            } else {
                m.last_trade
            })
            &&& orders(o.market.book, taker.side) == orders(m.book, taker.side)
            &&& facing(o.market.book, taker.side) == (if own {
                s.skip(n + 1)
            } else {
                queue_left(s, n, q)
            })
            &&& tells_trades(
                o.events,
                0,
                s,
                n,
                taker.order_id,
                taker.account_id,
                taker.side,
                q,
                trade,
            )
            &&& o.events.len() == 3 * n + (if own {
                2int
            } else {
                0
            })
            &&& own ==> o.events[3 * n] == cancel_report(
                s[n].order_id,
                s[n].account_id,
                CancelReason::SelfTradePrevented,
            ) && o.events[3 * n + 1] == cancel_report(
                taker.order_id,
                taker.account_id,
                CancelReason::SelfTradePrevented,
            )
            &&& residue(m, taker, trade) == (if own {
                None
            } else {
                remainder(q - qty_of_first(s, n))
            })
            &&& forall|i: int|
                0 <= i < o.events.len() ==> (#[trigger] o.events[i]) is Exec
                    || o.events[i] is Trade
        }),
{
    let s = facing(m.book, taker.side);
    let w = sweep(m.book, taker, trade);
    let f = fill_events(w.fills, taker, taker.qty@);
    let tail = self_trade_events(w.self_trade, taker);
    walk_is(s, taker, taker.qty@, trade, n);
    walk_is_told(w, s, taker, taker.qty@, trade, n, n - 1);
    fills_tell(w, s, taker, trade, n);
    tells_amid(Seq::empty(), f, tail, s, n, taker, trade);
    assert(Seq::<Event>::empty() + f + tail =~= f + tail);
}

/// Every order that may trade reaches some number of resting orders.
pub proof fn reach_exists(
    s: Seq<RestingOrder>,
    account: AccountId,
    side: Side,
    limit: Option<Price>,
    qty: int,
) -> (n: int)
    requires
        qty > 0,
    ensures
        trades_with_first(s, n, account, side, limit, qty),
{
    qty_of_first_is(s, 0);
    reach_from(s, 0, account, side, limit, qty)
}

/// Looks for the end of the reach from `k` on.
proof fn reach_from(
    s: Seq<RestingOrder>,
    k: int,
    account: AccountId,
    side: Side,
    limit: Option<Price>,
    qty: int,
) -> (n: int)
    requires
        0 <= k <= s.len(),
        forall|i: int|
            0 <= i < k ==> {
                &&& may_trade(side, limit, (#[trigger] s[i]).price)
                &&& s[i].account_id != account
                &&& qty_of_first(s, i) < qty
            },
    ensures
        trades_with_first(s, n, account, side, limit, qty),
    decreases s.len() - k,
{
    if k == s.len() || qty_of_first(s, k) >= qty || !may_trade(side, limit, s[k].price)
        || s[k].account_id == account {
        k
    } else {
        reach_from(s, k + 1, account, side, limit, qty)
    }
}

} // verus!
