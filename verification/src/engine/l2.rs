//! Per-level changes of the book between two moments.

use vstd::prelude::*;

use crate::domain::{group_newtypes, Price, Qty, Side};
use crate::engine::event::Event;
use crate::matching::laws::levels_best_first;
use crate::matching::model::{better, capped, depth_weight, levels, total, BookModel};
use crate::matching::types::Level;

verus! {

broadcast use group_newtypes;

/// The changes from `pre` to `post`, both in ascending order of price: a
/// level that is only in `pre` is gone, one that is only in `post` or has
/// another quantity there is announced with that quantity.
pub open spec fn changes(side: Side, pre: Seq<Level>, post: Seq<Level>) -> Seq<Event>
    decreases pre.len() + post.len(),
{
    if pre.len() == 0 && post.len() == 0 {
        Seq::empty()
    } else if post.len() == 0 || (pre.len() > 0 && pre[0].price@ < post[0].price@) {
        seq![Event::Delta { side, price: pre[0].price, new_qty: None }] + changes(
            side,
            pre.drop_first(),
            post,
        )
    } else if pre.len() == 0 || post[0].price@ < pre[0].price@ {
        seq![Event::Delta { side, price: post[0].price, new_qty: Some(post[0].qty) }] + changes(
            side,
            pre,
            post.drop_first(),
        )
    } else {
        (if pre[0].qty == post[0].qty {
            Seq::empty()
        } else {
            seq![Event::Delta { side, price: post[0].price, new_qty: Some(post[0].qty) }]
        }) + changes(side, pre.drop_first(), post.drop_first())
    }
}

/// The levels of a side in ascending order of price.
pub open spec fn ascending(book: BookModel, side: Side) -> Seq<Level> {
    match side {
        Side::Bid => levels(book.bids).reverse(),
        Side::Ask => levels(book.asks),
    }
}

/// The level changes from one book to another: bids, then asks, each in
/// ascending order of price.
pub open spec fn deltas(pre: BookModel, post: BookModel) -> Seq<Event> {
    changes(Side::Bid, ascending(pre, Side::Bid), ascending(post, Side::Bid)) + changes(
        Side::Ask,
        ascending(pre, Side::Ask),
        ascending(post, Side::Ask),
    )
}

/// Appends the changes from `pre` to `post` to `out`: a two-pointer merge
/// over the two sorted lists.
pub fn emit_changes(side: Side, pre: &Vec<Level>, post: &Vec<Level>, out: &mut Vec<Event>)
    ensures
        final(out)@ == old(out)@ + changes(side, pre@, post@),
{
    let mut i: usize = 0;
    let mut j: usize = 0;
    let ghost all = old(out)@ + changes(side, pre@, post@);
    proof {
        assert(pre@.skip(0) =~= pre@);
        assert(post@.skip(0) =~= post@);
    }
    while i < pre.len() || j < post.len()
        invariant
            i <= pre@.len(),
            j <= post@.len(),
            all == old(out)@ + changes(side, pre@, post@),
            all == out@ + changes(side, pre@.skip(i as int), post@.skip(j as int)),
        decreases pre@.len() - i + post@.len() - j,
    {
        let ghost p = pre@.skip(i as int);
        let ghost q = post@.skip(j as int);
        let ghost before = out@;
        proof {
            if p.len() > 0 {
                assert(p.drop_first() =~= pre@.skip(i + 1));
                assert(p[0] == pre@[i as int]);
            }
            if q.len() > 0 {
                assert(q.drop_first() =~= post@.skip(j + 1));
                assert(q[0] == post@[j as int]);
            }
        }
        if j >= post.len() || (i < pre.len() && pre[i].price.as_ticks()
            < post[j].price.as_ticks()) {
            let e = Event::Delta { side, price: pre[i].price, new_qty: None };
            out.push(e);
            i = i + 1;
            proof {
                assert(before + changes(side, p, q) =~= out@ + changes(side, p.drop_first(), q));
            }
        } else if i >= pre.len() || post[j].price.as_ticks() < pre[i].price.as_ticks() {
            let e = Event::Delta { side, price: post[j].price, new_qty: Some(post[j].qty) };
            out.push(e);
            j = j + 1;
            proof {
                assert(before + changes(side, p, q) =~= out@ + changes(side, p, q.drop_first()));
            }
        } else {
            if pre[i].qty != post[j].qty {
                let e = Event::Delta { side, price: post[j].price, new_qty: Some(post[j].qty) };
                out.push(e);
            }
            i = i + 1;
            j = j + 1;
            proof {
                assert(before + changes(side, p, q) =~= out@ + changes(
                    side,
                    p.drop_first(),
                    q.drop_first(),
                ));
            }
        }
    }
    proof {
        assert(changes(side, pre@.skip(i as int), post@.skip(j as int)) =~= Seq::<Event>::empty());
        assert(out@ =~= all);
    }
}

/// Prices strictly ascend.
pub open spec fn ascends(s: Seq<Level>) -> bool {
    forall|i: int, j: int|
        0 <= i < j < s.len() ==> (#[trigger] s[i]).price@ < (#[trigger] s[j]).price@
}

/// Quantity of the level at `price`, if there is one.
pub open spec fn qty_in(s: Seq<Level>, price: Price) -> Option<Qty>
    decreases s.len(),
{
    if s.len() == 0 {
        None
    } else if s[0].price == price {
        Some(s[0].qty)
    } else {
        qty_in(s.drop_first(), price)
    }
}

/// The event is a change of the level at `price` of `side`.
pub open spec fn changes_level(e: Event, side: Side, price: Price) -> bool {
    e matches Event::Delta { side: s, price: p, .. } && s == side && p == price
}

/// What a mirror that held `before` for the level at `price` of `side`
/// holds for it after a run of events.
pub open spec fn mirrored(
    events: Seq<Event>,
    side: Side,
    price: Price,
    before: Option<Qty>,
) -> Option<Qty>
    decreases events.len(),
{
    if events.len() == 0 {
        before
    } else if changes_level(events[0], side, price) {
        mirrored(events.drop_first(), side, price, events[0]->Delta_new_qty)
    } else {
        mirrored(events.drop_first(), side, price, before)
    }
}

/// A price below all prices of a list is not in it.
proof fn below_all(s: Seq<Level>, price: Price)
    requires
        ascends(s),
        s.len() > 0 ==> price@ < s[0].price@,
    ensures
        qty_in(s, price) is None,
    decreases s.len(),
{
    if s.len() > 0 {
        tail_ascends(s);
        below_all(s.drop_first(), price);
    }
}

/// The tail of an ascending list ascends, above the head.
proof fn tail_ascends(s: Seq<Level>)
    requires
        ascends(s),
        s.len() > 0,
    ensures
        ascends(s.drop_first()),
        s.drop_first().len() > 0 ==> s[0].price@ < s.drop_first()[0].price@,
{
    let t = s.drop_first();
    assert forall|i: int, j: int| 0 <= i < j < t.len() implies (#[trigger] t[i]).price@ < (
    #[trigger] t[j]).price@ by {
        assert(t[i] == s[i + 1]);
        assert(t[j] == s[j + 1]);
    }
}

/// The changes of a side are exactly right: each is about a level that
/// differs and gives its new quantity, every level that differs has one,
/// and they come in strictly ascending order of price.
pub proof fn changes_exact(side: Side, pre: Seq<Level>, post: Seq<Level>)
    requires
        ascends(pre),
        ascends(post),
    ensures
        ({
            let c = changes(side, pre, post);
            &&& forall|i: int|
                0 <= i < c.len() ==> {
                    &&& (#[trigger] c[i]) is Delta
                    &&& c[i]->Delta_side == side
                    &&& c[i]->Delta_new_qty == qty_in(post, c[i]->Delta_price)
                    &&& qty_in(pre, c[i]->Delta_price) != qty_in(post, c[i]->Delta_price)
                }
            &&& forall|i: int, j: int|
                0 <= i < j < c.len() ==> (#[trigger] c[i])->Delta_price@ < (
                #[trigger] c[j])->Delta_price@
            &&& forall|p: Price|
                qty_in(pre, p) != qty_in(post, p) ==> exists|i: int|
                    0 <= i < c.len() && #[trigger] changes_level(c[i], side, p)
            &&& forall|p: Price, q: Option<Qty>|
                #[trigger] mirrored(c, side, p, q) == (if qty_in(pre, p) != qty_in(post, p) {
                    qty_in(post, p)
                } else {
                    q
                })
            &&& c.len() > 0 ==> (pre.len() > 0 && pre[0].price@ <= c[0]->Delta_price@) || (post.len()
                > 0 && post[0].price@ <= c[0]->Delta_price@)
        }),
    decreases pre.len() + post.len(),
{
    let c = changes(side, pre, post);
    if pre.len() == 0 && post.len() == 0 {
    } else if post.len() == 0 || (pre.len() > 0 && pre[0].price@ < post[0].price@) {
        tail_ascends(pre);
        changes_exact(side, pre.drop_first(), post);
        let rest = changes(side, pre.drop_first(), post);
        let p0 = pre[0].price;
        below_all(post, p0);
        below_all(pre.drop_first(), p0);
        change_in_front(side, c, rest, p0, pre, post, pre.drop_first(), post);
    } else if pre.len() == 0 || post[0].price@ < pre[0].price@ {
        tail_ascends(post);
        changes_exact(side, pre, post.drop_first());
        let rest = changes(side, pre, post.drop_first());
        let p0 = post[0].price;
        below_all(pre, p0);
        below_all(post.drop_first(), p0);
        change_in_front(side, c, rest, p0, pre, post, pre, post.drop_first());
    } else {
        tail_ascends(pre);
        tail_ascends(post);
        changes_exact(side, pre.drop_first(), post.drop_first());
        let rest = changes(side, pre.drop_first(), post.drop_first());
        let p0 = post[0].price;
        assert(pre[0].price == p0);
        below_all(pre.drop_first(), p0);
        below_all(post.drop_first(), p0);
        if pre[0].qty != post[0].qty {
            change_in_front(
                side,
                c,
                rest,
                p0,
                pre,
                post,
                pre.drop_first(),
                post.drop_first(),
            );
        } else {
            assert(c =~= rest);
            assert forall|p: Price|
                (qty_in(pre, p) != qty_in(post, p)) == (#[trigger] qty_in(pre.drop_first(), p)
                    != qty_in(post.drop_first(), p)) && (p != p0 ==> qty_in(post, p) == qty_in(
                    post.drop_first(),
                    p,
                )) by {}
            assert forall|p: Price| qty_in(pre, p) != qty_in(post, p) implies exists|i: int|
                0 <= i < c.len() && #[trigger] changes_level(c[i], side, p) by {
                assert(qty_in(pre.drop_first(), p) != qty_in(post.drop_first(), p));
            }
            assert forall|p: Price, q: Option<Qty>|
                #[trigger] mirrored(c, side, p, q) == (if qty_in(pre, p) != qty_in(post, p) {
                    qty_in(post, p)
                } else {
                    q
                }) by {
                assert(mirrored(c, side, p, q) == mirrored(rest, side, p, q));
                assert(qty_in(pre.drop_first(), p) == qty_in(pre.drop_first(), p));
            }
        }
    }
}

/// The step of [`changes_exact`] in which a change is put in front.
proof fn change_in_front(
    side: Side,
    c: Seq<Event>,
    rest: Seq<Event>,
    p0: Price,
    pre: Seq<Level>,
    post: Seq<Level>,
    pre1: Seq<Level>,
    post1: Seq<Level>,
)
    requires
        c == seq![Event::Delta { side, price: p0, new_qty: qty_in(post, p0) }] + rest,
        qty_in(pre, p0) != qty_in(post, p0),
        qty_in(pre1, p0) is None,
        qty_in(post1, p0) is None,
        forall|p: Price|
            p != p0 ==> #[trigger] qty_in(pre, p) == qty_in(pre1, p) && qty_in(post, p) == qty_in(
                post1,
                p,
            ),
        pre1.len() > 0 ==> p0@ < pre1[0].price@,
        post1.len() > 0 ==> p0@ < post1[0].price@,
        rest.len() > 0 ==> (pre1.len() > 0 && pre1[0].price@ <= rest[0]->Delta_price@) || (
        post1.len() > 0 && post1[0].price@ <= rest[0]->Delta_price@),
        forall|i: int|
            0 <= i < rest.len() ==> {
                &&& (#[trigger] rest[i]) is Delta
                &&& rest[i]->Delta_side == side
                &&& rest[i]->Delta_new_qty == qty_in(post1, rest[i]->Delta_price)
                &&& qty_in(pre1, rest[i]->Delta_price) != qty_in(post1, rest[i]->Delta_price)
            },
        forall|i: int, j: int|
            0 <= i < j < rest.len() ==> (#[trigger] rest[i])->Delta_price@ < (
            #[trigger] rest[j])->Delta_price@,
        forall|p: Price|
            qty_in(pre1, p) != qty_in(post1, p) ==> exists|i: int|
                0 <= i < rest.len() && #[trigger] changes_level(rest[i], side, p),
        forall|p: Price, q: Option<Qty>|
            #[trigger] mirrored(rest, side, p, q) == (if qty_in(pre1, p) != qty_in(post1, p) {
                qty_in(post1, p)
            } else {
                q
            }),
    ensures
        forall|i: int|
            0 <= i < c.len() ==> {
                &&& (#[trigger] c[i]) is Delta
                &&& c[i]->Delta_side == side
                &&& c[i]->Delta_new_qty == qty_in(post, c[i]->Delta_price)
                &&& qty_in(pre, c[i]->Delta_price) != qty_in(post, c[i]->Delta_price)
            },
        forall|i: int, j: int|
            0 <= i < j < c.len() ==> (#[trigger] c[i])->Delta_price@ < (
            #[trigger] c[j])->Delta_price@,
        forall|p: Price|
            qty_in(pre, p) != qty_in(post, p) ==> exists|i: int|
                0 <= i < c.len() && #[trigger] changes_level(c[i], side, p),
        forall|p: Price, q: Option<Qty>|
            #[trigger] mirrored(c, side, p, q) == (if qty_in(pre, p) != qty_in(post, p) {
                qty_in(post, p)
            } else {
                q
            }),
        c.len() > 0 && c[0]->Delta_price == p0,
{
    assert(c.drop_first() =~= rest);
    assert(c[0] == (Event::Delta { side, price: p0, new_qty: qty_in(post, p0) }));
    assert forall|i: int| 0 <= i < rest.len() implies (#[trigger] rest[i])->Delta_price@
        > p0@ by {
        if i > 0 {
            assert(rest[0]->Delta_price@ < rest[i]->Delta_price@);
        }
    }
    assert forall|i: int| 0 <= i < c.len() implies #[trigger] c[i] == (if i == 0 {
        c[0]
    } else {
        rest[i - 1]
    }) by {}
    assert forall|i: int| 0 <= i < c.len() implies {
        &&& (#[trigger] c[i]) is Delta
        &&& c[i]->Delta_side == side
        &&& c[i]->Delta_new_qty == qty_in(post, c[i]->Delta_price)
        &&& qty_in(pre, c[i]->Delta_price) != qty_in(post, c[i]->Delta_price)
    } by {
        if i > 0 {
            assert(rest[i - 1]->Delta_price@ > p0@);
        }
    }
    assert forall|i: int, j: int| 0 <= i < j < c.len() implies (#[trigger] c[i])->Delta_price@ < (
    #[trigger] c[j])->Delta_price@ by {
        assert(rest[j - 1]->Delta_price@ > p0@);
        if i > 0 {
            assert(rest[i - 1]->Delta_price@ < rest[j - 1]->Delta_price@);
        }
    }
    assert forall|p: Price| qty_in(pre, p) != qty_in(post, p) implies exists|i: int|
        0 <= i < c.len() && #[trigger] changes_level(c[i], side, p) by {
        if p == p0 {
            assert(changes_level(c[0], side, p));
        } else {
            assert(qty_in(pre1, p) != qty_in(post1, p));
            let i = choose|i: int|
                0 <= i < rest.len() && #[trigger] changes_level(rest[i], side, p);
            assert(c[i + 1] == rest[i]);
            assert(changes_level(c[i + 1], side, p));
        }
    }
    assert forall|p: Price, q: Option<Qty>| #[trigger] mirrored(c, side, p, q) == (if qty_in(pre, p)
        != qty_in(post, p) {
        qty_in(post, p)
    } else {
        q
    }) by {
        let q1 = if p == p0 {
            qty_in(post, p0)
        } else {
            q
        };
        assert(mirrored(c, side, p, q) == mirrored(rest, side, p, q1));
        assert(qty_in(pre, p) == qty_in(pre, p));
    }
}

/// What a subscriber sees of the level at `price` of `side`: its quantity,
/// or that nothing rests there.
pub open spec fn level_of(book: BookModel, side: Side, price: Price) -> Option<Qty> {
    if book.depth(side, price) > 0 {
        Some(Qty::of(capped(book.depth(side, price))))
    } else {
        None
    }
}

/// The quantity that stands in a list without repeated prices at its own
/// price.
proof fn qty_in_at(s: Seq<Level>, i: int)
    requires
        forall|j: int, k: int|
            0 <= j < k < s.len() ==> (#[trigger] s[j]).price != (#[trigger] s[k]).price,
        0 <= i < s.len(),
    ensures
        qty_in(s, s[i].price) == Some(s[i].qty),
    decreases s.len(),
{
    if i > 0 {
        let t = s.drop_first();
        assert(s[0].price != s[i].price);
        assert forall|j: int, k: int| 0 <= j < k < t.len() implies (#[trigger] t[j]).price != (
        #[trigger] t[k]).price by {
            assert(s[j + 1].price != s[k + 1].price);
        }
        qty_in_at(t, i - 1);
    }
}

/// A price that no level has.
proof fn qty_in_none(s: Seq<Level>, price: Price)
    requires
        forall|i: int| 0 <= i < s.len() ==> (#[trigger] s[i]).price != price,
    ensures
        qty_in(s, price) is None,
    decreases s.len(),
{
    if s.len() > 0 {
        let t = s.drop_first();
        assert forall|i: int| 0 <= i < t.len() implies (#[trigger] t[i]).price != price by {
            assert(t[i] == s[i + 1]);
        }
        qty_in_none(t, price);
    }
}

/// A snapshot says what rests at each price.
pub proof fn snapshot_shows_levels(book: BookModel, side: Side, price: Price)
    requires
        book.wf(),
    ensures
        qty_in(levels(book.queue(side)), price) == level_of(book, side, price),
{
    let q = book.queue(side);
    let s = levels(q);
    levels_best_first(side, q);
    let w = depth_weight(price);
    assert forall|j: int, k: int| 0 <= j < k < s.len() implies (#[trigger] s[j]).price != (
    #[trigger] s[k]).price by {
        assert(better(side, s[j].price, s[k].price));
    }
    if exists|i: int| 0 <= i < s.len() && (#[trigger] s[i]).price == price {
        let i = choose|i: int| 0 <= i < s.len() && (#[trigger] s[i]).price == price;
        qty_in_at(s, i);
    } else {
        qty_in_none(s, price);
        assert(total(q, w) == 0);
    }
}

/// The levels of a side ascend and say what rests at each price.
pub proof fn ascending_levels(book: BookModel, side: Side)
    requires
        book.wf(),
    ensures
        ascends(ascending(book, side)),
        forall|p: Price| #[trigger] qty_in(ascending(book, side), p) == level_of(book, side, p),
{
    let q = book.queue(side);
    let best = levels(q);
    let s = ascending(book, side);
    levels_best_first(side, q);
    let at = |k: int|
        match side {
            Side::Bid => best.len() - 1 - k,
            Side::Ask => k,
        };
    assert forall|k: int| 0 <= k < s.len() implies #[trigger] s[k] == best[at(k)] by {}
    assert forall|i: int, j: int| 0 <= i < j < s.len() implies (#[trigger] s[i]).price@ < (
    #[trigger] s[j]).price@ by {
        assert(s[i] == best[at(i)]);
        assert(s[j] == best[at(j)]);
    }
    assert forall|p: Price| #[trigger] qty_in(s, p) == level_of(book, side, p) by {
        let w = depth_weight(p);
        if exists|i: int| 0 <= i < s.len() && (#[trigger] s[i]).price == p {
            let i = choose|i: int| 0 <= i < s.len() && (#[trigger] s[i]).price == p;
            qty_in_at(s, i);
            assert(s[i] == best[at(i)]);
        } else {
            qty_in_none(s, p);
            if total(q, w) > 0 {
                let i = choose|i: int| 0 <= i < best.len() && (#[trigger] best[i]).price == p;
                assert(s[at(i)] == best[i]);
            }
        }
    }
}

/// The level changes between two books are exactly right. For every level
/// that differs there is one, no other level has one, it gives the new
/// quantity (or that the level is gone), and they come sorted by side and
/// ascending price. So a mirror of the old book that takes in the changes
/// is a mirror of the new book.
pub proof fn deltas_reconstruct(pre: BookModel, post: BookModel, side: Side, price: Price)
    requires
        pre.wf(),
        post.wf(),
    ensures
        ({
            let d = deltas(pre, post);
            &&& mirrored(d, side, price, level_of(pre, side, price)) == level_of(post, side, price)
            &&& level_of(pre, side, price) != level_of(post, side, price) <==> exists|i: int|
                0 <= i < d.len() && #[trigger] changes_level(d[i], side, price)
            &&& forall|i: int|
                0 <= i < d.len() && #[trigger] changes_level(d[i], side, price)
                    ==> d[i]->Delta_new_qty == level_of(post, side, price)
            &&& forall|i: int| 0 <= i < d.len() ==> (#[trigger] d[i]) is Delta
            &&& forall|i: int, j: int|
                0 <= i < j < d.len() ==> delta_before(#[trigger] d[i], #[trigger] d[j])
        }),
{
    let b = changes(Side::Bid, ascending(pre, Side::Bid), ascending(post, Side::Bid));
    let a = changes(Side::Ask, ascending(pre, Side::Ask), ascending(post, Side::Ask));
    let d = deltas(pre, post);
    ascending_levels(pre, Side::Bid);
    ascending_levels(post, Side::Bid);
    ascending_levels(pre, Side::Ask);
    ascending_levels(post, Side::Ask);
    changes_exact(Side::Bid, ascending(pre, Side::Bid), ascending(post, Side::Bid));
    changes_exact(Side::Ask, ascending(pre, Side::Ask), ascending(post, Side::Ask));
    mirrored_concat(b, a, side, price, level_of(pre, side, price));
    let n = b.len() as int;
    assert forall|i: int| 0 <= i < d.len() implies #[trigger] d[i] == (if i < n {
        b[i]
    } else {
        a[i - n]
    }) by {}
    let here = match side {
        Side::Bid => b,
        Side::Ask => a,
    };
    let there = match side {
        Side::Bid => a,
        Side::Ask => b,
    };
    other_side_ignored(there, side, price, level_of(pre, side, price));
    other_side_ignored(there, side, price, level_of(post, side, price));
    let before = ascending(pre, side);
    let after = ascending(post, side);
    assert(qty_in(before, price) == level_of(pre, side, price));
    assert(qty_in(after, price) == level_of(post, side, price));
    if level_of(pre, side, price) != level_of(post, side, price) {
        let i = choose|i: int|
            0 <= i < here.len() && #[trigger] changes_level(here[i], side, price);
        let k = match side {
            Side::Bid => i,
            Side::Ask => i + n,
        };
        assert(d[k] == here[i]);
        assert(changes_level(d[k], side, price));
    }
    assert forall|i: int| 0 <= i < d.len() && #[trigger] changes_level(d[i], side, price) implies
    d[i]->Delta_new_qty == level_of(post, side, price) && level_of(pre, side, price) != level_of(
        post,
        side,
        price,
    ) by {
        if i < n {
            assert(d[i] == b[i]);
        } else {
            assert(d[i] == a[i - n]);
        }
    }
    assert forall|i: int, j: int| 0 <= i < j < d.len() implies delta_before(
        #[trigger] d[i],
        #[trigger] d[j],
    ) by {
        if j < n {
            assert(b[i]->Delta_price@ < b[j]->Delta_price@);
        } else if i >= n {
            assert(a[i - n]->Delta_price@ < a[j - n]->Delta_price@);
        }
    }
}

/// The order in which level changes are published: by side code, then by
/// ascending price.
pub open spec fn delta_before(e: Event, f: Event) -> bool {
    e->Delta_side.code() < f->Delta_side.code() || (e->Delta_side == f->Delta_side
        && e->Delta_price@ < f->Delta_price@)
}

/// A mirror takes in one run after another.
pub proof fn mirrored_concat(
    a: Seq<Event>,
    b: Seq<Event>,
    side: Side,
    price: Price,
    before: Option<Qty>,
)
    ensures
        mirrored(a + b, side, price, before) == mirrored(
            b,
            side,
            price,
            mirrored(a, side, price, before),
        ),
    decreases a.len(),
{
    if a.len() == 0 {
        assert(a + b =~= b);
    } else {
        assert((a + b).drop_first() =~= a.drop_first() + b);
        let next = if changes_level(a[0], side, price) {
            a[0]->Delta_new_qty
        } else {
            before
        };
        mirrored_concat(a.drop_first(), b, side, price, next);
    }
}

/// Changes of the other side leave the mirror of a level alone.
proof fn other_side_ignored(
    events: Seq<Event>,
    side: Side,
    price: Price,
    before: Option<Qty>,
)
    requires
        forall|i: int|
            0 <= i < events.len() ==> (#[trigger] events[i]) is Delta && events[i]->Delta_side
                != side,
    ensures
        mirrored(events, side, price, before) == before,
    decreases events.len(),
{
    if events.len() > 0 {
        let rest = events.drop_first();
        assert(events[0]->Delta_side != side);
        assert forall|i: int| 0 <= i < rest.len() implies (#[trigger] rest[i]) is Delta
            && rest[i]->Delta_side != side by {
            assert(rest[i] == events[i + 1]);
        }
        other_side_ignored(rest, side, price, before);
    }
}

} // verus!
