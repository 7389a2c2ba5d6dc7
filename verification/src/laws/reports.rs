//! What the events of a command say of its trades and of its order.

use vstd::prelude::*;

use crate::domain::{group_newtypes, AccountId, CancelReason, ExecState, OrderId, Side};
use crate::engine::event::Event;
use crate::engine::model::{outcome, Market};
use crate::laws::amendments::{
    amended_order_trades_then_rests, may_not_move, only_reduces, post_only_stays_passive,
    reduction_stays_in_place, refused_amendment, too_large, too_large_an_amendment_loses_the_order,
};
use crate::laws::new_orders::{
    new_order_fields, new_order_trades_then_rests, refusal_of, refused_new_order,
};
use crate::laws::plain::{
    facing, meets_itself, open_orders, orders, out_of_band, qty_of_first, reports_then_book,
    rests_at, tells_trades, traded, trades_with_first,
};
use crate::laws::trading::reach_exists;
use crate::matching::types::RestingOrder;
use crate::wire::inbound::{CancelReplace, Inbound, NewOrder};

verus! {

broadcast use group_newtypes;

/// The event at `i` tells of a trade of the order `order_id` of `account_id`
/// on `side`, which came in, with an order on the other side of the book: it
/// carries that order's price and the side of the order that came in, and the
/// next two events are the reports of this fill, with the same price and
/// quantity, to the resting order and to the order that came in.
pub open spec fn tells_a_trade(
    m: Market,
    events: Seq<Event>,
    i: int,
    order_id: OrderId,
    account_id: AccountId,
    side: Side,
) -> bool {
    let t = events[i];
    &&& t is Trade
    &&& t->aggressor_side == side
    &&& i + 2 < events.len()
    &&& events[i + 1] is Exec
    &&& events[i + 1]->fill_price == Some(t->Trade_price)
    &&& events[i + 1]->fill_qty == Some(t->Trade_qty)
    &&& events[i + 2] is Exec
    &&& events[i + 2]->fill_price == Some(t->Trade_price)
    &&& events[i + 2]->fill_qty == Some(t->Trade_qty)
    &&& events[i + 2]->order_id == order_id
    &&& events[i + 2]->account_id == account_id
    &&& exists|k: int|
        0 <= k < facing(m.book, side).len() && (#[trigger] facing(m.book, side)[k]).price
            == t->Trade_price && facing(m.book, side)[k].order_id == events[i + 1]->order_id
            && facing(m.book, side)[k].account_id == events[i + 1]->account_id
            && t->Trade_qty@ <= facing(m.book, side)[k].qty@
}

/// Trades that are told by threes are told one by one.
proof fn told_one_by_one(
    m: Market,
    events: Seq<Event>,
    at: int,
    n: int,
    order_id: OrderId,
    account_id: AccountId,
    side: Side,
    qty: int,
    trade: u64,
    i: int,
)
    requires
        0 <= at,
        0 <= n <= facing(m.book, side).len(),
        0 < qty <= u64::MAX,
        forall|k: int|
            0 <= k < n ==> qty_of_first(facing(m.book, side), k) < qty && (
            #[trigger] facing(m.book, side)[k]).qty@ > 0,
        tells_trades(
            events,
            at,
            facing(m.book, side),
            n,
            order_id,
            account_id,
            side,
            qty,
            trade,
        ),
        at <= i < at + 3 * n,
        events[i] is Trade,
    ensures
        tells_a_trade(m, events, i, order_id, account_id, side),
{
    reveal(tells_trades);
    let s = facing(m.book, side);
    let k = (i - at) / 3;
    assert(0 <= k < n);
    assert(s[k].qty@ > 0);
    assert(events[at + 3 * k] is Trade);
    assert(events[at + 3 * k + 1] is Exec);
    assert(events[at + 3 * k + 2] is Exec);
    assert(i == at + 3 * k || i == at + 3 * k + 1 || i == at + 3 * k + 2);
    not_beyond(s, k, qty);
    assert(s[k].price == events[i]->Trade_price);
}

/// A trade is not larger than either order.
proof fn not_beyond(s: Seq<RestingOrder>, k: int, qty: int)
    requires
        0 <= k < s.len(),
        qty_of_first(s, k) < qty,
        0 < qty <= u64::MAX,
    ensures
        0 <= traded(s, k, qty) <= s[k].qty@,
        traded(s, k, qty) <= u64::MAX,
{
}

/// The event comes after the trades of a command.
proof fn no_trade_behind(events: Seq<Event>, n: int, i: int)
    requires
        reports_then_book(events, n),
        n <= i < events.len(),
    ensures
        !(events[i] is Trade),
{
}

/// Every public trade of a new order tells of a fill of it: the side is the
/// new order's, the price that of the resting order that it was filled
/// against, and the reports on both orders follow it with the same price and
/// quantity.
pub proof fn trades_of_a_new_order(m: Market, msg: NewOrder, trade: u64, i: int)
    requires
        m.book.wf(),
        new_order_fields(msg),
        trade + facing(m.book, msg.side).len() <= u64::MAX,
        0 <= i < outcome(m, Inbound::NewOrder(msg), trade).events.len(),
        outcome(m, Inbound::NewOrder(msg), trade).events[i] is Trade,
    ensures
        tells_a_trade(
            m,
            outcome(m, Inbound::NewOrder(msg), trade).events,
            i,
            msg.order_id,
            msg.account_id,
            msg.side,
        ),
{
    let s = facing(m.book, msg.side);
    let events = outcome(m, Inbound::NewOrder(msg), trade).events;
    if refusal_of(m, msg) is Some {
        refused_new_order(m, msg, trade);
    } else {
        let n = reach_exists(s, msg.account_id, msg.side, msg.price, msg.qty@ as int);
        new_order_trades_then_rests(m, msg, trade, n);
        let own = meets_itself(s, n, msg.account_id, msg.side, msg.price, msg.qty@ as int);
        let told = if own {
            3 * n + 2
        } else if qty_of_first(s, n) >= msg.qty@ {
            3 * n
        } else {
            3 * n + 1
        };
        if i >= told {
            no_trade_behind(events, told, i);
        }
        assert(i < 3 * n);
        queue_has_lots(m, msg.side);
        told_one_by_one(
            m,
            events,
            0,
            n,
            msg.order_id,
            msg.account_id,
            msg.side,
            msg.qty@ as int,
            trade,
            i,
        );
    }
}

/// Every public trade of an amendment tells of a fill of the amended order:
/// the side is that of the amended order, the price that of the resting order
/// that it was filled against, and the reports on both orders follow it with
/// the same price and quantity.
pub proof fn trades_of_an_amendment(
    m: Market,
    msg: CancelReplace,
    trade: u64,
    side: Side,
    k: int,
    i: int,
)
    requires
        m.book.wf(),
        msg.new_price@ > 0,
        msg.new_qty@ > 0,
        rests_at(m.book, side, k, msg.account_id, msg.order_id),
        open_orders(m.book, msg.account_id) <= 1_000,
        trade + facing(m.book, side).len() <= u64::MAX,
        0 <= i < outcome(m, Inbound::CancelReplace(msg), trade).events.len(),
        outcome(m, Inbound::CancelReplace(msg), trade).events[i] is Trade,
    ensures
        tells_a_trade(
            m,
            outcome(m, Inbound::CancelReplace(msg), trade).events,
            i,
            msg.order_id,
            msg.account_id,
            side,
        ),
{
    let s = facing(m.book, side);
    let events = outcome(m, Inbound::CancelReplace(msg), trade).events;
    if m.killed || out_of_band(m.last_trade, msg.new_price) {
        refused_amendment(m, msg, trade);
    } else if may_not_move(m, msg, side, k) {
        post_only_stays_passive(m, msg, trade, side, k);
    } else if only_reduces(m, msg, side, k) {
        reduction_stays_in_place(m, msg, trade, side, k);
        if i > 0 {
            no_trade_behind(events, 1, i);
        }
    } else if too_large(m, msg, side, k) {
        too_large_an_amendment_loses_the_order(m, msg, trade, side, k);
        if i > 0 {
            no_trade_behind(events, 1, i);
        }
    } else {
        let limit = Some(msg.new_price);
        let n = reach_exists(s, msg.account_id, side, limit, msg.new_qty@ as int);
        amended_order_trades_then_rests(m, msg, trade, side, k, n);
        let own = meets_itself(s, n, msg.account_id, side, limit, msg.new_qty@ as int);
        let told = if own {
            3 * n + 3
        } else {
            3 * n + 1
        };
        if i >= told {
            no_trade_behind(events, told, i);
        }
        assert(1 <= i < 1 + 3 * n);
        queue_has_lots(m, side);
        told_one_by_one(
            m,
            events,
            1,
            n,
            msg.order_id,
            msg.account_id,
            side,
            msg.new_qty@ as int,
            trade,
            i,
        );
    }
}

/// What an immediate-or-cancel order or an order without a limit leaves
/// unfilled, having met no order of its own account, is cancelled, also where
/// nothing was filled: the last report of the command says so, and no order
/// joins the book.
pub proof fn what_an_immediate_order_leaves_is_cancelled(
    m: Market,
    msg: NewOrder,
    trade: u64,
    n: int,
)
    requires
        m.book.wf(),
        new_order_fields(msg),
        refusal_of(m, msg) is None,
        msg.tif is Ioc || msg.price is None,
        trades_with_first(
            facing(m.book, msg.side),
            n,
            msg.account_id,
            msg.side,
            msg.price,
            msg.qty@ as int,
        ),
        qty_of_first(facing(m.book, msg.side), n) < msg.qty@,
        !meets_itself(
            facing(m.book, msg.side),
            n,
            msg.account_id,
            msg.side,
            msg.price,
            msg.qty@ as int,
        ),
        trade + n <= u64::MAX,
    ensures
        ({
            let o = outcome(m, Inbound::NewOrder(msg), trade);
            &&& o.events.len() > 3 * n + 1
            &&& o.events[3 * n] == (Event::Exec {
                order_id: msg.order_id,
                account_id: msg.account_id,
                state: ExecState::Cancelled,
                fill_price: None,
                fill_qty: None,
                leaves_qty: None,
                reject_reason: None,
                cancel_reason: Some(CancelReason::IocRemaining),
            })
            &&& forall|i: int|
                3 * n < i < o.events.len() ==> !((#[trigger] o.events[i]) is Exec)
            &&& orders(o.market.book, msg.side) == orders(m.book, msg.side)
        }),
{
    new_order_trades_then_rests(m, msg, trade, n);
}

/// Resting orders have a quantity.
proof fn queue_has_lots(m: Market, side: Side)
    requires
        m.book.wf(),
    ensures
        forall|k: int|
            0 <= k < facing(m.book, side).len() ==> (#[trigger] facing(m.book, side)[k]).qty@ > 0,
{
}

} // verus!
