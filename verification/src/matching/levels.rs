//! Price levels of a queue.

use vstd::prelude::*;

use crate::domain::{group_newtypes, Price, Qty, Side};
use crate::matching::lemmas::{remove_keeps, total_push};
use crate::matching::model::{better, depth_weight, levels, prices, queue_wf, total};
use crate::matching::types::{Level, RestingOrder};

verus! {

broadcast use group_newtypes;

/// Dropping the last order keeps a queue in order.
proof fn drop_last_keeps(side: Side, s: Seq<RestingOrder>)
    requires
        queue_wf(side, s),
        s.len() > 0,
    ensures
        queue_wf(side, s.drop_last()),
{
    remove_keeps(side, s, s.len() - 1);
    assert(s.remove(s.len() - 1) =~= s.drop_last());
}

/// The prices of a queue come best first, none twice; they are those at
/// which something rests.
pub proof fn prices_best_first(side: Side, s: Seq<RestingOrder>)
    requires
        queue_wf(side, s),
    ensures
        forall|i: int, j: int|
            0 <= i < j < prices(s).len() ==> better(
                side,
                #[trigger] prices(s)[i],
                #[trigger] prices(s)[j],
            ),
        s.len() > 0 ==> prices(s).len() > 0 && prices(s).last() == s.last().price && prices(s)[0]
            == s[0].price,
        forall|p: Price|
            total(s, #[trigger] depth_weight(p)) > 0 <==> prices(s).contains(p),
    decreases s.len(),
{
    if s.len() > 0 {
        let front = s.drop_last();
        let o = s.last();
        drop_last_keeps(side, s);
        prices_best_first(side, front);
        assert(front.push(o) =~= s);
        assert forall|p: Price| total(s, #[trigger] depth_weight(p)) > 0 <==> prices(s).contains(
            p,
        ) by {
            total_push(front, o, depth_weight(p));
            if prices(front).contains(p) {
                let k = choose|k: int| 0 <= k < prices(front).len() && prices(front)[k] == p;
                assert(prices(s)[k] == p);
            }
            if p == o.price {
                assert(prices(s)[prices(s).len() - 1] == p);
            }
            if prices(s).contains(p) && p != o.price {
                let k = choose|k: int| 0 <= k < prices(s).len() && prices(s)[k] == p;
                assert(prices(front)[k] == p);
            }
        }
        if front.len() > 0 {
            assert(!better(side, s[s.len() - 1].price, s[s.len() - 2].price));
        }
    }
}

/// The price levels of a queue, best first.
pub(crate) fn collect_levels(Ghost(side): Ghost<Side>, s: &Vec<RestingOrder>) -> (out: Vec<Level>)
    requires
        queue_wf(side, s@),
    ensures
        out@ == levels(s@),
{
    let mut out: Vec<Level> = Vec::new();
    let mut i: usize = 0;
    while i < s.len()
        invariant
            i <= s@.len(),
            queue_wf(side, s@),
            out@ == levels(s@.take(i as int)),
        decreases s@.len() - i,
    {
        let o = s[i];
        let lots: u64 = o.qty.as_lots();
        let ghost front = s@.take(i as int);
        let ghost next = s@.take(i + 1);
        proof {
            assert(next.drop_last() =~= front);
            assert(front.push(o) =~= next);
            assert(queue_wf(side, front));
            prices_best_first(side, front);
            assert(queue_wf(side, next));
            prices_best_first(side, next);
            assert forall|p: Price| total(next, #[trigger] depth_weight(p)) == total(
                front,
                depth_weight(p),
            ) + depth_weight(p)(o) by {
                total_push(front, o, depth_weight(p));
            }
        }
        let n: usize = out.len();
        if n > 0 && out[n - 1].price == o.price {
            let sum: u64 = out[n - 1].qty.as_lots().saturating_add(lots);
            out.set(n - 1, Level { price: o.price, qty: Qty::new(sum).unwrap() });
        } else {
            proof {
                if prices(front).contains(o.price) {
                    let k = choose|k: int|
                        0 <= k < prices(front).len() && prices(front)[k] == o.price;
                    assert(prices(next)[k] == o.price);
                    assert(better(side, prices(next)[k], prices(next)[prices(next).len() - 1]));
                }
                assert(total(front, depth_weight(o.price)) == 0);
            }
            out.push(Level { price: o.price, qty: o.qty });
        }
        proof {
            assert forall|k: int| 0 <= k < out@.len() implies #[trigger] out@[k] == levels(
                next,
            )[k] by {
                if k < prices(next).len() - 1 {
                    assert(better(side, prices(next)[k], prices(next)[prices(next).len() - 1]));
                }
            }
            assert(out@ =~= levels(next));
        }
        i = i + 1;
    }
    proof {
        assert(s@.take(s@.len() as int) =~= s@);
    }
    out
}

} // verus!
