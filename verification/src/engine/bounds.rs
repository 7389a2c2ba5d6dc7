//! How many messages commands can give rise to.
//!
//! A command publishes at most a fixed number of messages, plus a fixed
//! number for every resting order that it takes off the book. Since orders
//! come onto the book one per command, a stream of commands publishes at
//! most a fixed number of messages per command.

use vstd::prelude::*;

use crate::domain::{group_newtypes, AccountId, OrderKey, Price, Qty, Side};
use crate::engine::engine::message_count;
use crate::engine::l2::{changes_level, delta_before, deltas, deltas_reconstruct};
use crate::engine::laws::{in_domain, outcome_sound, unchanged_book_no_deltas};
use crate::engine::lemmas::{lookup_found, without_keeps};
use crate::engine::model::{
    amended, cancel_replace, command, execute, fill_events, new_order, outcome, owns, residue,
    resting, taker_of, Market, Outcome,
};
use crate::matching::lemmas::{
    drop_first_keeps, filter_from, find_first, rank_splits, total_insert, total_push, total_remove,
    total_update,
};
use crate::matching::model::{
    crosses, depth_weight, find, keeps_priority, not_owned, notional, order_wf, owned,
    post_only_crosses, queue_wf, rank, sweep, swept, total, walk, BookModel,
};
use crate::matching::types::{AggressiveOrder, Fill, RestingOrder};
use crate::risk::{new_order_verdict, replace_verdict, within_caps};
use crate::wire::inbound::{CancelReplace, Inbound, NewOrder};

verus! {

broadcast use group_newtypes;

/// Number of resting orders.
pub open spec fn order_count(book: BookModel) -> nat {
    book.bids.len() + book.asks.len()
}

/// The two books differ at most at the listed levels.
pub open spec fn differ_within(b: BookModel, c: BookModel, touched: Seq<(Side, Price)>) -> bool {
    forall|side: Side, p: Price|
        !touched.contains((side, p)) ==> #[trigger] b.depth(side, p) == c.depth(side, p)
}

/// One difference after another.
proof fn differ_chain(
    b: BookModel,
    c: BookModel,
    d: BookModel,
    t: Seq<(Side, Price)>,
    u: Seq<(Side, Price)>,
)
    requires
        differ_within(b, c, t),
        differ_within(c, d, u),
    ensures
        differ_within(b, d, t + u),
{
    assert forall|side: Side, p: Price| !(t + u).contains((side, p)) implies #[trigger] b.depth(
        side,
        p,
    ) == d.depth(side, p) by {
        if t.contains((side, p)) {
            let i = choose|i: int| 0 <= i < t.len() && t[i] == (side, p);
            assert((t + u)[i] == (side, p));
        }
        if u.contains((side, p)) {
            let i = choose|i: int| 0 <= i < u.len() && u[i] == (side, p);
            assert((t + u)[t.len() + i] == (side, p));
        }
        assert(c.depth(side, p) == d.depth(side, p));
    }
}

/// There are at most as many level changes as levels that may differ.
proof fn deltas_bounded(b: BookModel, c: BookModel, touched: Seq<(Side, Price)>)
    requires
        b.wf(),
        c.wf(),
        differ_within(b, c, touched),
    ensures
        deltas(b, c).len() <= touched.len(),
{
    let d = deltas(b, c);
    let keys = Seq::new(d.len(), |i: int| (d[i]->Delta_side, d[i]->Delta_price));
    deltas_reconstruct(b, c, Side::Bid, Price::of(1));
    assert forall|i: int, j: int| 0 <= i < keys.len() && 0 <= j < keys.len() && i != j implies keys[i]
        != keys[j] by {
        if i < j {
            assert(delta_before(d[i], d[j]));
        } else {
            assert(delta_before(d[j], d[i]));
        }
    }
    assert(keys.no_duplicates());
    assert forall|k: (Side, Price)| keys.to_set().contains(k) implies touched.to_set().contains(
        k,
    ) by {
        let i = choose|i: int| 0 <= i < keys.len() && keys[i] == k;
        assert(d[i] is Delta);
        assert(changes_level(d[i], k.0, k.1));
        deltas_reconstruct(b, c, k.0, k.1);
        if !touched.contains(k) {
            assert(b.depth(k.0, k.1) == c.depth(k.0, k.1));
        }
    }
    keys.unique_seq_to_set();
    touched.lemma_cardinality_of_set();
    vstd::set_lib::lemma_len_subset(keys.to_set(), touched.to_set());
}

/// The levels that a walk touches.
pub open spec fn walk_touched(
    side: Side,
    fills: Seq<Fill>,
    dropped: Option<RestingOrder>,
) -> Seq<(Side, Price)> {
    Seq::new(fills.len(), |i: int| (side, fills[i].price)) + (match dropped {
        Some(o) => seq![(side, o.price)],
        None => Seq::empty(),
    })
}

/// A walk leaves every level alone at which it neither fills nor drops an
/// order, and it takes an order off the queue for every fill but the last,
/// and for the one that it drops.
proof fn walk_bounded(
    makers: Seq<RestingOrder>,
    taker: AggressiveOrder,
    left: u64,
    trade: u64,
    p: Price,
)
    requires
        queue_wf(taker.side.other(), makers),
    ensures
        ({
            let w = walk(makers, taker, left, trade);
            let d: int = if w.self_trade is Some {
                1
            } else {
                0
            };
            &&& (forall|i: int| 0 <= i < w.fills.len() ==> (#[trigger] w.fills[i]).price != p) && (
            w.self_trade is Some ==> w.self_trade->0.price != p) ==> total(makers, depth_weight(p))
                == total(w.makers, depth_weight(p))
            &&& w.fills.len() + w.makers.len() + d <= makers.len() + 1
            &&& w.self_trade is Some ==> w.fills.len() + w.makers.len() + d == makers.len()
        }),
    decreases makers.len(),
{
    let w = walk(makers, taker, left, trade);
    if makers.len() == 0 || left == 0 || !crosses(taker.side, taker.price, makers[0].price) {
    } else if makers[0].account_id == taker.account_id {
    } else if makers[0].qty@ > left {
        let o = RestingOrder { qty: Qty::of((makers[0].qty@ - left) as u64), ..makers[0] };
        total_update(makers, 0, o, depth_weight(p));
        assert(w.fills[0].price == makers[0].price);
    } else {
        drop_first_keeps(taker.side.other(), makers);
        let next = (left - makers[0].qty@) as u64;
        let rest = walk(makers.drop_first(), taker, next, (trade + 1) as u64);
        walk_bounded(makers.drop_first(), taker, next, (trade + 1) as u64, p);
        assert(w.fills[0].price == makers[0].price);
        if forall|i: int| 0 <= i < w.fills.len() ==> (#[trigger] w.fills[i]).price != p {
            assert forall|i: int| 0 <= i < rest.fills.len() implies (
            #[trigger] rest.fills[i]).price != p by {
                assert(rest.fills[i] == w.fills[i + 1]);
            }
        }
    }
}

/// A walk changes the book only where it touches it.
proof fn sweep_bounded(book: BookModel, taker: AggressiveOrder, trade: u64)
    requires
        book.wf(),
    ensures
        ({
            let w = sweep(book, taker, trade);
            let r = swept(book, taker, trade);
            let d: int = if w.self_trade is Some {
                1
            } else {
                0
            };
            &&& differ_within(
                book,
                r,
                walk_touched(taker.side.other(), w.fills, w.self_trade),
            )
            &&& w.fills.len() + order_count(r) + d <= order_count(book) + 1
            &&& w.self_trade is Some ==> w.fills.len() + order_count(r) + d == order_count(book)
        }),
{
    let side = taker.side.other();
    let makers = book.queue(side);
    let w = sweep(book, taker, trade);
    let r = swept(book, taker, trade);
    let t = walk_touched(side, w.fills, w.self_trade);
    walk_bounded(makers, taker, taker.qty@, trade, Price::of(1));
    assert forall|s: Side, p: Price| !t.contains((s, p)) implies #[trigger] book.depth(s, p)
        == r.depth(s, p) by {
        walk_bounded(makers, taker, taker.qty@, trade, p);
        if s == side {
            assert forall|i: int| 0 <= i < w.fills.len() implies (#[trigger] w.fills[i]).price
                != p by {
                assert(t[i] == (side, w.fills[i].price));
            }
            if let Some(o) = w.self_trade {
                assert(t[w.fills.len() as int] == (side, o.price));
            }
        }
    }
}

/// Resting an order changes the book only at its level.
proof fn with_bounded(book: BookModel, o: RestingOrder)
    ensures
        differ_within(book, book.with(o), seq![(o.side, o.price)]),
        order_count(book.with(o)) == order_count(book) + 1,
{
    let r = book.with(o);
    let s = book.queue(o.side);
    let k = rank(o.side, s, o.price);
    rank_splits(o.side, s, o.price);
    let t = seq![(o.side, o.price)];
    assert(t[0] == (o.side, o.price));
    assert forall|side: Side, p: Price| !t.contains((side, p)) implies #[trigger] book.depth(
        side,
        p,
    ) == r.depth(side, p) by {
        total_insert(s, k, o, depth_weight(p));
    }
}

/// Taking an order off changes the book only at its level.
proof fn without_bounded(book: BookModel, key: OrderKey)
    requires
        book.wf(),
        book.lookup(key) is Some,
    ensures
        ({
            let o = book.lookup(key)->0;
            &&& differ_within(book, book.without(key), seq![(o.side, o.price)])
            &&& order_count(book.without(key)) + 1 == order_count(book)
        }),
{
    lookup_found(book, key);
    find_first(book.bids, key);
    find_first(book.asks, key);
    let o = book.lookup(key)->0;
    let r = book.without(key);
    let s = book.queue(o.side);
    let i = find(s, key);
    let t = seq![(o.side, o.price)];
    assert(t[0] == (o.side, o.price));
    if find(book.bids, key) < book.bids.len() {
        assert(order_wf(Side::Bid, book.bids[find(book.bids, key)]));
    } else {
        assert(order_wf(Side::Ask, book.asks[find(book.asks, key)]));
    }
    assert forall|side: Side, p: Price| !t.contains((side, p)) implies #[trigger] book.depth(
        side,
        p,
    ) == r.depth(side, p) by {
        total_remove(s, i, depth_weight(p));
    }
}

/// Reducing an order changes the book only at its level.
proof fn reduced_bounded(book: BookModel, key: OrderKey, qty: Qty)
    requires
        book.wf(),
        book.lookup(key) is Some,
    ensures
        ({
            let o = book.lookup(key)->0;
            &&& differ_within(book, book.reduced(key, qty), seq![(o.side, o.price)])
            &&& order_count(book.reduced(key, qty)) == order_count(book)
        }),
{
    lookup_found(book, key);
    find_first(book.bids, key);
    find_first(book.asks, key);
    let o = book.lookup(key)->0;
    let r = book.reduced(key, qty);
    let s = book.queue(o.side);
    let i = find(s, key);
    let t = seq![(o.side, o.price)];
    assert(t[0] == (o.side, o.price));
    if find(book.bids, key) < book.bids.len() {
        assert(order_wf(Side::Bid, book.bids[find(book.bids, key)]));
    } else {
        assert(order_wf(Side::Ask, book.asks[find(book.asks, key)]));
    }
    assert forall|side: Side, p: Price| !t.contains((side, p)) implies #[trigger] book.depth(
        side,
        p,
    ) == r.depth(side, p) by {
        total_update(s, i, RestingOrder { qty, ..o }, depth_weight(p));
    }
}

/// Filtering by account leaves a price alone at which the account has no
/// order, and splits the orders.
proof fn filter_bounded(s: Seq<RestingOrder>, account: AccountId, p: Price)
    ensures
        (forall|i: int|
            0 <= i < s.filter(owned(account)).len() ==> (#[trigger] s.filter(
                owned(account),
            )[i]).price != p) ==> total(s, depth_weight(p)) == total(
            s.filter(not_owned(account)),
            depth_weight(p),
        ),
        s.filter(owned(account)).len() + s.filter(not_owned(account)).len() == s.len(),
    decreases s.len(),
{
    reveal(Seq::filter);
    if s.len() > 0 {
        let front = s.drop_last();
        let o = s.last();
        filter_bounded(front, account, p);
        assert(front.push(o) =~= s);
        total_push(front, o, depth_weight(p));
        let f = s.filter(owned(account));
        let g = front.filter(owned(account));
        if owned(account)(o) {
            assert(f[f.len() - 1] == o);
            if forall|i: int| 0 <= i < f.len() ==> (#[trigger] f[i]).price != p {
                assert forall|i: int| 0 <= i < g.len() implies (#[trigger] g[i]).price != p by {
                    assert(g[i] == f[i]);
                }
            }
        } else {
            total_push(
                front.filter(not_owned(account)),
                o,
                depth_weight(p),
            );
        }
    }
}

/// A mass cancel changes the book only at the levels of the account's
/// orders.
proof fn without_account_bounded(book: BookModel, account: AccountId)
    requires
        book.wf(),
    ensures
        ({
            let orders = book.owned_by(account);
            let r = book.without_account(account);
            &&& differ_within(
                book,
                r,
                Seq::new(orders.len(), |i: int| (orders[i].side, orders[i].price)),
            )
            &&& order_count(r) + orders.len() == order_count(book)
        }),
{
    let orders = book.owned_by(account);
    let r = book.without_account(account);
    let t = Seq::new(orders.len(), |i: int| (orders[i].side, orders[i].price));
    let b = book.bids.filter(owned(account));
    let a = book.asks.filter(owned(account));
    filter_bounded(book.bids, account, Price::of(1));
    filter_bounded(book.asks, account, Price::of(1));
    filter_from(book.bids, owned(account));
    filter_from(book.asks, owned(account));
    assert forall|side: Side, p: Price| !t.contains((side, p)) implies #[trigger] book.depth(
        side,
        p,
    ) == r.depth(side, p) by {
        filter_bounded(book.bids, account, p);
        filter_bounded(book.asks, account, p);
        match side {
            Side::Bid => {
                assert forall|i: int| 0 <= i < b.len() implies (#[trigger] b[i]).price != p by {
                    let k = choose|k: int| 0 <= k < book.bids.len() && book.bids[k] == b[i];
                    assert(order_wf(Side::Bid, book.bids[k]));
                    assert(orders[i] == b[i]);
                    assert(t[i] == (Side::Bid, b[i].price));
                }
            },
            Side::Ask => {
                assert forall|i: int| 0 <= i < a.len() implies (#[trigger] a[i]).price != p by {
                    let k = choose|k: int| 0 <= k < book.asks.len() && book.asks[k] == a[i];
                    assert(order_wf(Side::Ask, book.asks[k]));
                    assert(orders[b.len() + i] == a[i]);
                    assert(t[b.len() + i] == (Side::Ask, a[i].price));
                }
            },
        }
    }
}

/// Every fill gives rise to three events.
proof fn fill_events_len(fills: Seq<Fill>, taker: AggressiveOrder, left: u64)
    ensures
        fill_events(fills, taker, left).len() == 3 * fills.len(),
    decreases fills.len(),
{
    if fills.len() > 0 {
        fill_events_len(fills.drop_first(), taker, (left - fills[0].qty@) as u64);
    }
}

/// What a command has published before the book changes are reported, with
/// the levels that it may have touched: at most four events and touched
/// levels for every order that it took off, and eleven more.
spec fn handler_bounded(m: Market, o: Outcome, touched: Seq<(Side, Price)>) -> bool {
    &&& differ_within(m.book, o.market.book, touched)
    &&& o.events.len() + touched.len() + 4 * order_count(o.market.book) <= 4 * order_count(m.book)
        + 11
    &&& 3 * o.trades <= o.events.len()
}

/// The bound for a new order.
proof fn new_order_bounded(m: Market, msg: NewOrder, trade: u64) -> (touched: Seq<(Side, Price)>)
    requires
        m.book.wf(),
    ensures
        handler_bounded(m, new_order(m, msg, trade), touched),
{
    let taker = taker_of(msg);
    let o = new_order(m, msg, trade);
    let w = sweep(m.book, taker, trade);
    let done = execute(m, taker, trade);
    let book = swept(m.book, taker, trade);
    let t = walk_touched(taker.side.other(), w.fills, w.self_trade);
    let verdict = new_order_verdict(
        m.killed,
        m.last_trade,
        m.book.open_orders(msg.account_id),
        m.book.exposure(msg.account_id),
        msg,
        m.book.best(msg.side.other()),
    );
    if verdict is Err || owns(m, msg.key()) || post_only_crosses(m.book, taker) {
        Seq::empty()
    } else {
        sweep_bounded(m.book, taker, trade);
        fill_events_len(w.fills, taker, taker.qty@);
        if o.market.book == book {
            t
        } else {
            let r = resting(taker, taker.price->0, residue(m, taker, trade)->0);
            with_bounded(book, r);
            differ_chain(m.book, book, o.market.book, t, seq![(r.side, r.price)]);
            t + seq![(r.side, r.price)]
        }
    }
}

/// The bound for an amendment.
proof fn cancel_replace_bounded(m: Market, msg: CancelReplace, trade: u64) -> (touched: Seq<
    (Side, Price),
>)
    requires
        m.book.wf(),
    ensures
        handler_bounded(m, cancel_replace(m, msg, trade), touched),
{
    let o = cancel_replace(m, msg, trade);
    if replace_verdict(m.killed, m.last_trade, msg.new_price) is Err || !owns(m, msg.key()) {
        Seq::empty()
    } else {
        let old = m.book.lookup(msg.key())->0;
        let own = seq![(old.side, old.price)];
        if post_only_crosses(m.book, amended(old, msg)) {
            Seq::empty()
        } else if keeps_priority(old, msg.new_price, msg.new_qty) {
            reduced_bounded(m.book, msg.key(), msg.new_qty);
            own
        } else {
            let gone = Market { book: m.book.without(msg.key()), ..m };
            let taker = amended(old, msg);
            without_bounded(m.book, msg.key());
            without_keeps(m.book, msg.key());
            if within_caps(
                gone.book.open_orders(msg.account_id),
                gone.book.exposure(msg.account_id),
                notional(msg.new_price, msg.new_qty),
            ) is Err {
                own
            } else {
                let w = sweep(gone.book, taker, trade);
                let book = swept(gone.book, taker, trade);
                let t = walk_touched(taker.side.other(), w.fills, w.self_trade);
                sweep_bounded(gone.book, taker, trade);
                fill_events_len(w.fills, taker, taker.qty@);
                differ_chain(m.book, gone.book, book, own, t);
                match residue(gone, taker, trade) {
                    None => own + t,
                    Some(qty) => {
                        let r = resting(taker, msg.new_price, qty);
                        with_bounded(book, r);
                        differ_chain(
                            m.book,
                            book,
                            o.market.book,
                            own + t,
                            seq![(r.side, r.price)],
                        );
                        own + t + seq![(r.side, r.price)]
                    },
                }
            }
        }
    }
}

/// A command publishes at most twelve messages, and four more for every
/// resting order by which the book shrinks. At most a third of them are
/// trades.
pub proof fn messages_bounded(m: Market, msg: Inbound, trade: u64)
    requires
        m.sound(),
        in_domain(msg),
    ensures
        ({
            let o = outcome(m, msg, trade);
            &&& message_count(m, msg, trade) + 4 * order_count(o.market.book) <= 4 * order_count(
                m.book,
            ) + 12
            &&& 3 * o.trades <= message_count(m, msg, trade)
        }),
{
    let c = command(m, msg, trade);
    outcome_sound(m, msg, trade);
    match msg {
        Inbound::NewOrder(n) => {
            let t = new_order_bounded(m, n, trade);
            deltas_bounded(m.book, c.market.book, t);
        },
        Inbound::CancelReplace(n) => {
            let t = cancel_replace_bounded(m, n, trade);
            deltas_bounded(m.book, c.market.book, t);
        },
        Inbound::CancelOrder(n) => {
            if !m.killed && owns(m, n.key()) {
                let o = m.book.lookup(n.key())->0;
                without_bounded(m.book, n.key());
                deltas_bounded(m.book, c.market.book, seq![(o.side, o.price)]);
            } else {
                unchanged_book_no_deltas(m.book);
            }
        },
        Inbound::MassCancel(n) => {
            if m.killed {
                unchanged_book_no_deltas(m.book);
            } else {
                let orders = m.book.owned_by(n.account_id);
                without_account_bounded(m.book, n.account_id);
                deltas_bounded(
                    m.book,
                    c.market.book,
                    Seq::new(orders.len(), |i: int| (orders[i].side, orders[i].price)),
                );
            }
        },
        _ => {},
    }
}

} // verus!
