//! The words that the laws use.

use vstd::prelude::*;

use crate::domain::{
    AccountId, CancelReason, ExecState, OrderId, Price, Qty, RejectReason, Side, TradeId,
};
use crate::engine::event::Event;
use crate::matching::model::BookModel;
use crate::matching::types::RestingOrder;

verus! {

/// The orders that rest on a side, first to trade first.
pub open spec fn orders(book: BookModel, side: Side) -> Seq<RestingOrder> {
    match side {
        Side::Bid => book.bids,
        Side::Ask => book.asks,
    }
}

/// The orders that an order on `side` trades with.
pub open spec fn facing(book: BookModel, side: Side) -> Seq<RestingOrder> {
    match side {
        Side::Bid => book.asks,
        Side::Ask => book.bids,
    }
}

/// An order on `side` with this limit may trade at `price`: a bid not above
/// its limit, an ask not below it.
pub open spec fn may_trade(side: Side, limit: Option<Price>, price: Price) -> bool {
    match limit {
        None => true,
        Some(l) => match side {
            Side::Bid => price@ <= l@,
            Side::Ask => price@ >= l@,
        },
    }
}

/// Quantity of the first `n` orders.
#[verifier::opaque]
pub open spec fn qty_of_first(s: Seq<RestingOrder>, n: int) -> int
    decreases n,
{
    if n <= 0 {
        0
    } else {
        qty_of_first(s, n - 1) + s[n - 1].qty@
    }
}

/// The first none and the first `n` orders.
pub proof fn qty_of_first_is(s: Seq<RestingOrder>, n: int)
    ensures
        qty_of_first(s, 0) == 0,
        n > 0 ==> qty_of_first(s, n) == qty_of_first(s, n - 1) + s[n - 1].qty@,
{
    reveal(qty_of_first);
}

/// Quantity that rests at `price`.
pub open spec fn qty_at(s: Seq<RestingOrder>, price: Price) -> int
    decreases s.len(),
{
    if s.len() == 0 {
        0
    } else {
        qty_at(s.drop_last(), price) + (if s.last().price@ == price@ {
            s.last().qty@ as int
        } else {
            0
        })
    }
}

/// A quantity as the market is shown it: nothing, or as much of it as a
/// message can hold.
pub open spec fn shown(n: int) -> Option<Qty> {
    if n <= 0 {
        None
    } else if n > 0xffff_ffff_ffff_ffff {
        Some(Qty::of(0xffff_ffff_ffff_ffff))
    } else {
        Some(Qty::of(n as u64))
    }
}

/// Number of orders of an account.
pub open spec fn orders_of(s: Seq<RestingOrder>, account: AccountId) -> int
    decreases s.len(),
{
    if s.len() == 0 {
        0
    } else {
        orders_of(s.drop_last(), account) + (if s.last().account_id@ == account@ {
            1int
        } else {
            0
        })
    }
}

/// Price times quantity, summed over the orders of an account.
pub open spec fn notional_of_account(s: Seq<RestingOrder>, account: AccountId) -> int
    decreases s.len(),
{
    if s.len() == 0 {
        0
    } else {
        notional_of_account(s.drop_last(), account) + (if s.last().account_id@ == account@ {
            s.last().price@ * s.last().qty@
        } else {
            0
        })
    }
}

/// An order for `qty` trades with exactly the first `n` orders of `s`: each
/// of them is at a price that it may trade at and of another account, and is
/// reached before the quantity is used up. Then the queue or the quantity is
/// used up, or the next order is out of its limit or of its own account.
pub open spec fn trades_with_first(
    s: Seq<RestingOrder>,
    n: int,
    account: AccountId,
    side: Side,
    limit: Option<Price>,
    qty: int,
) -> bool {
    &&& 0 <= n <= s.len()
    &&& forall|i: int|
        0 <= i < n ==> {
            &&& may_trade(side, limit, (#[trigger] s[i]).price)
            &&& s[i].account_id != account
            &&& qty_of_first(s, i) < qty
        }
    &&& {
        ||| n == s.len()
        ||| qty_of_first(s, n) >= qty
        ||| !may_trade(side, limit, s[n].price)
        ||| s[n].account_id == account
    }
}

/// Having traded with the first `n` orders, the order has quantity left and
/// would trade next with an order of its own account.
pub open spec fn meets_itself(
    s: Seq<RestingOrder>,
    n: int,
    account: AccountId,
    side: Side,
    limit: Option<Price>,
    qty: int,
) -> bool {
    &&& n < s.len()
    &&& qty_of_first(s, n) < qty
    &&& may_trade(side, limit, s[n].price)
    &&& s[n].account_id == account
}

/// Quantity that changes hands with the `i`-th order.
pub open spec fn traded(s: Seq<RestingOrder>, i: int, qty: int) -> int {
    if s[i].qty@ <= qty - qty_of_first(s, i) {
        s[i].qty@ as int
    } else {
        qty - qty_of_first(s, i)
    }
}

/// What is left of a queue once an order for `qty` has traded with its first
/// `n` orders: those that were filled are gone, and one that was filled in
/// part keeps its place with what is left of it.
pub open spec fn queue_left(s: Seq<RestingOrder>, n: int, qty: int) -> Seq<RestingOrder> {
    if qty_of_first(s, n) > qty {
        s.skip(n - 1).update(
            0,
            RestingOrder { qty: Qty::of((qty_of_first(s, n) - qty) as u64), ..s[n - 1] },
        )
    } else {
        s.skip(n)
    }
}

/// A quantity as an open remainder.
pub open spec fn remainder(n: int) -> Option<Qty> {
    if n > 0 {
        Some(Qty::of(n as u64))
    } else {
        None
    }
}

/// A report of a fill.
pub open spec fn fill_report(
    order_id: OrderId,
    account_id: AccountId,
    price: Price,
    qty: int,
    left: int,
) -> Event {
    Event::Exec {
        order_id,
        account_id,
        state: if left > 0 {
            ExecState::PartiallyFilled
        } else {
            ExecState::Filled
        },
        fill_price: Some(price),
        fill_qty: Some(Qty::of(qty as u64)),
        leaves_qty: remainder(left),
        reject_reason: None,
        cancel_reason: None,
    }
}

/// A report of a refusal.
pub open spec fn reject_report(
    order_id: OrderId,
    account_id: AccountId,
    reason: RejectReason,
) -> Event {
    Event::Exec {
        order_id,
        account_id,
        state: ExecState::Rejected,
        fill_price: None,
        fill_qty: None,
        leaves_qty: None,
        reject_reason: Some(reason),
        cancel_reason: None,
    }
}

/// A report of a cancellation.
pub open spec fn cancel_report(
    order_id: OrderId,
    account_id: AccountId,
    reason: CancelReason,
) -> Event {
    Event::Exec {
        order_id,
        account_id,
        state: ExecState::Cancelled,
        fill_price: None,
        fill_qty: None,
        leaves_qty: None,
        reject_reason: None,
        cancel_reason: Some(reason),
    }
}

/// A report that an order rests.
pub open spec fn accept_report(order_id: OrderId, account_id: AccountId, left: int) -> Event {
    Event::Exec {
        order_id,
        account_id,
        state: ExecState::Accepted,
        fill_price: None,
        fill_qty: None,
        leaves_qty: Some(Qty::of(left as u64)),
        reject_reason: None,
        cancel_reason: None,
    }
}

/// A report that an order was amended.
pub open spec fn replace_report(order_id: OrderId, account_id: AccountId, qty: Qty) -> Event {
    Event::Exec {
        order_id,
        account_id,
        state: ExecState::Replaced,
        fill_price: None,
        fill_qty: None,
        leaves_qty: Some(qty),
        reject_reason: None,
        cancel_reason: Some(CancelReason::Replaced),
    }
}

/// From `at` on, the events tell of the trades with the first `n` orders of
/// `s`, each by three: the public trade, at the resting order's price and
/// with the side of the order that came in; the report to the resting order;
/// and the report to the order that came in.
#[verifier::opaque]
pub open spec fn tells_trades(
    events: Seq<Event>,
    at: int,
    s: Seq<RestingOrder>,
    n: int,
    order_id: OrderId,
    account_id: AccountId,
    side: Side,
    qty: int,
    trade: u64,
) -> bool {
    &&& events.len() >= at + 3 * n
    &&& forall|i: int|
        #![trigger s[i]]
        0 <= i < n ==> {
            &&& events[at + 3 * i] == (Event::Trade {
                trade_id: TradeId::of((trade + i) as u64),
                price: s[i].price,
                qty: Qty::of(traded(s, i, qty) as u64),
                aggressor_side: side,
            })
            &&& events[at + 3 * i + 1] == fill_report(
                s[i].order_id,
                s[i].account_id,
                s[i].price,
                traded(s, i, qty),
                s[i].qty@ - traded(s, i, qty),
            )
            &&& events[at + 3 * i + 2] == fill_report(
                order_id,
                account_id,
                s[i].price,
                traded(s, i, qty),
                qty - qty_of_first(s, i) - traded(s, i, qty),
            )
        }
}

/// `q` is `s` with `o` behind every order at a price at least as good as its
/// own and in front of every order at a worse one.
pub open spec fn joins(q: Seq<RestingOrder>, s: Seq<RestingOrder>, o: RestingOrder) -> bool {
    exists|k: int|
        #![trigger s.insert(k, o)]
        {
            &&& 0 <= k <= s.len()
            &&& q == s.insert(k, o)
            &&& forall|i: int|
                0 <= i < k ==> match o.side {
                    Side::Bid => (#[trigger] s[i]).price@ >= o.price@,
                    Side::Ask => s[i].price@ <= o.price@,
                }
            &&& forall|i: int|
                k <= i < s.len() ==> match o.side {
                    Side::Bid => (#[trigger] s[i]).price@ < o.price@,
                    Side::Ask => s[i].price@ > o.price@,
                }
        }
}

/// The price is more than five percent above or below the last trade.
pub open spec fn out_of_band(last_trade: Option<Price>, price: Price) -> bool {
    match last_trade {
        None => false,
        Some(l) => (price@ - l@) * 10_000 > 500 * l@ || (l@ - price@) * 10_000 > 500 * l@,
    }
}

/// Number of resting orders of an account.
pub open spec fn open_orders(book: BookModel, account: AccountId) -> int {
    orders_of(book.bids, account) + orders_of(book.asks, account)
}

/// Aggregate resting notional of an account.
pub open spec fn open_notional(book: BookModel, account: AccountId) -> int {
    notional_of_account(book.bids, account) + notional_of_account(book.asks, account)
}

/// The account rests an order with this id.
pub open spec fn rests(book: BookModel, account: AccountId, id: OrderId) -> bool {
    ||| exists|i: int|
        0 <= i < book.bids.len() && (#[trigger] book.bids[i]).account_id == account
            && book.bids[i].order_id == id
    ||| exists|i: int|
        0 <= i < book.asks.len() && (#[trigger] book.asks[i]).account_id == account
            && book.asks[i].order_id == id
}

/// The `i`-th order of a side is the account's order with this id.
pub open spec fn rests_at(
    book: BookModel,
    side: Side,
    i: int,
    account: AccountId,
    id: OrderId,
) -> bool {
    &&& 0 <= i < orders(book, side).len()
    &&& orders(book, side)[i].account_id == account
    &&& orders(book, side)[i].order_id == id
}

/// `events` are `n` reports and trades, then level changes and nothing else,
/// and last the top of the book.
pub open spec fn reports_then_book(events: Seq<Event>, n: int) -> bool {
    &&& events.len() > n
    &&& forall|i: int|
        0 <= i < n ==> (#[trigger] events[i]) is Exec || events[i] is Trade
    &&& forall|i: int| n <= i < events.len() - 1 ==> (#[trigger] events[i]) is Delta
    &&& events.last() is Top
}

} // verus!
