//! What becomes of a cancel, and of the commands that name no order.

use vstd::prelude::*;

use crate::domain::{group_newtypes, AccountId, CancelReason, OrderId, RejectReason, Side};
use crate::engine::event::Event;
use crate::engine::laws::unchanged_book_no_deltas;
use crate::engine::lemmas::{lookup_found, without_keeps};
use crate::engine::model::{command, outcome, Market};
use crate::laws::agree::{found_agrees, handler_comes_first, lookup_agrees};
use crate::laws::amendments::{
    amended_order_trades_then_rests, amendment_fields, amends, may_not_move, only_reduces,
    post_only_stays_passive, reduction_stays_in_place, refused_amendment, too_large,
    too_large_an_amendment_loses_the_order,
};
use crate::laws::new_orders::{
    new_order_fields, new_order_trades_then_rests, refusal_of, refused_new_order,
};
use crate::laws::plain::{
    cancel_report, facing, open_orders, orders, out_of_band, qty_of_first_is, reject_report,
    reports_then_book, rests, rests_at, tells_trades,
};
use crate::laws::trading::reach_exists;
use crate::matching::model::{not_owned, owned};
use crate::matching::types::RestingOrder;
use crate::wire::inbound::{CancelOrder, Inbound, KillSwitchSet, MassCancel, SnapshotRequest};

verus! {

broadcast use group_newtypes;

/// A cancel is refused while the kill switch is on, and where the account
/// rests no order with this id. Nothing changes, and the events are the
/// refusal and the top of the book.
pub proof fn refused_cancel(m: Market, msg: CancelOrder, trade: u64)
    requires
        m.book.wf(),
        m.killed || !rests(m.book, msg.account_id, msg.order_id),
    ensures
        ({
            let o = outcome(m, Inbound::CancelOrder(msg), trade);
            &&& o.market == m
            &&& o.trades == 0
            &&& o.events.len() == 2
            &&& o.events[0] == reject_report(
                msg.order_id,
                msg.account_id,
                if m.killed {
                    RejectReason::KillSwitched
                } else {
                    RejectReason::UnknownOrderId
                },
            )
            &&& o.events[1] is Top
        }),
{
    lookup_agrees(m.book, msg.key());
    unchanged_book_no_deltas(m.book);
}

/// Any other cancel takes the order off the book, changes nothing else, and
/// is answered by one report.
pub proof fn cancel_takes_the_order_off(
    m: Market,
    msg: CancelOrder,
    trade: u64,
    side: Side,
    i: int,
)
    requires
        m.book.wf(),
        !m.killed,
        rests_at(m.book, side, i, msg.account_id, msg.order_id),
    ensures
        ({
            let o = outcome(m, Inbound::CancelOrder(msg), trade);
            &&& o.market.killed == m.killed
            &&& o.market.last_trade == m.last_trade
            &&& o.trades == 0
            &&& orders(o.market.book, side) == orders(m.book, side).remove(i)
            &&& facing(o.market.book, side) == facing(m.book, side)
            &&& o.events[0] == cancel_report(
                msg.order_id,
                msg.account_id,
                CancelReason::UserRequested,
            )
            &&& reports_then_book(o.events, 1)
        }),
{
    found_agrees(m.book, side, i, msg.key());
    lookup_found(m.book, msg.key());
    without_keeps(m.book, msg.key());
    handler_comes_first(m, Inbound::CancelOrder(msg), trade);
}

/// A mass cancel is refused while the kill switch is on. The refusal
/// carries order id 1; nothing changes.
pub proof fn refused_mass_cancel(m: Market, msg: MassCancel, trade: u64)
    requires
        m.killed,
    ensures
        ({
            let o = outcome(m, Inbound::MassCancel(msg), trade);
            &&& o.market == m
            &&& o.trades == 0
            &&& o.events.len() == 2
            &&& o.events[0] == reject_report(
                OrderId::of(1),
                msg.account_id,
                RejectReason::KillSwitched,
            )
            &&& o.events[1] is Top
        }),
{
    unchanged_book_no_deltas(m.book);
}

/// Any other mass cancel takes every order of the account off the book and
/// leaves every other order in place. Each order taken off has one report:
/// bids in queue order, then asks in queue order.
pub proof fn mass_cancel_takes_all_off(m: Market, msg: MassCancel, trade: u64)
    requires
        !m.killed,
    ensures
        ({
            let mine = |x: RestingOrder| x.account_id@ == msg.account_id@;
            let others = |x: RestingOrder| x.account_id@ != msg.account_id@;
            let gone = m.book.bids.filter(mine) + m.book.asks.filter(mine);
            let o = outcome(m, Inbound::MassCancel(msg), trade);
            &&& o.market.killed == m.killed
            &&& o.market.last_trade == m.last_trade
            &&& o.trades == 0
            &&& o.market.book.bids == m.book.bids.filter(others)
            &&& o.market.book.asks == m.book.asks.filter(others)
            &&& forall|i: int|
                0 <= i < gone.len() ==> #[trigger] o.events[i] == cancel_report(
                    gone[i].order_id,
                    gone[i].account_id,
                    CancelReason::MassCancel,
                )
            &&& reports_then_book(o.events, gone.len() as int)
        }),
{
    let mine = |x: RestingOrder| x.account_id@ == msg.account_id@;
    let others = |x: RestingOrder| x.account_id@ != msg.account_id@;
    assert(mine =~= owned(msg.account_id));
    assert(others =~= not_owned(msg.account_id));
    handler_comes_first(m, Inbound::MassCancel(msg), trade);
    let c = command(m, Inbound::MassCancel(msg), trade);
    let o = outcome(m, Inbound::MassCancel(msg), trade);
    let gone = m.book.bids.filter(mine) + m.book.asks.filter(mine);
    assert(c.events.len() == gone.len());
    assert forall|i: int| 0 <= i < gone.len() implies #[trigger] o.events[i] == cancel_report(
        gone[i].order_id,
        gone[i].account_id,
        CancelReason::MassCancel,
    ) by {
        assert(o.events[i] == c.events[i]);
    }
}

/// Setting the kill switch moves the switch, and nothing else happens.
pub proof fn kill_switch_moves_the_switch(m: Market, msg: KillSwitchSet, trade: u64)
    ensures
        ({
            let o = outcome(m, Inbound::KillSwitchSet(msg), trade);
            &&& o.market.killed <==> msg.state is Halt
            &&& o.market.book == m.book
            &&& o.market.last_trade == m.last_trade
            &&& o.trades == 0
            &&& o.events.len() == 0
        }),
{
}

/// A snapshot request changes nothing and gives rise to no event.
pub proof fn snapshot_request_changes_nothing(m: Market, msg: SnapshotRequest, trade: u64)
    ensures
        ({
            let o = outcome(m, Inbound::SnapshotRequest(msg), trade);
            &&& o.market == m
            &&& o.trades == 0
            &&& o.events.len() == 0
        }),
{
}

/// The event is a report on the order of this id and account.
pub open spec fn reports_on(e: Event, msg: Inbound) -> bool {
    match msg {
        Inbound::NewOrder(x) => e is Exec && e->order_id == x.order_id && e->account_id
            == x.account_id,
        Inbound::CancelOrder(x) => e is Exec && e->order_id == x.order_id && e->account_id
            == x.account_id,
        Inbound::CancelReplace(x) => e is Exec && e->order_id == x.order_id && e->account_id
            == x.account_id,
        _ => false,
    }
}

/// Every command that names an order is answered by a report on that order.
pub proof fn every_order_command_is_answered(m: Market, msg: Inbound, trade: u64) -> (i: int)
    requires
        m.book.wf(),
        match msg {
            Inbound::NewOrder(x) => new_order_fields(x),
            Inbound::CancelOrder(_) => true,
            Inbound::CancelReplace(x) => amendment_fields(x) && open_orders(m.book, x.account_id)
                <= 1_000,
            _ => false,
        },
        trade + m.book.bids.len() + m.book.asks.len() <= u64::MAX,
    ensures
        0 <= i < outcome(m, msg, trade).events.len(),
        reports_on(outcome(m, msg, trade).events[i], msg),
{
    reveal(tells_trades);
    match msg {
        Inbound::NewOrder(x) => {
            if refusal_of(m, x) is Some {
                refused_new_order(m, x, trade);
                0
            } else {
                let s = facing(m.book, x.side);
                let n = reach_exists(s, x.account_id, x.side, x.price, x.qty@ as int);
                new_order_trades_then_rests(m, x, trade, n);
                qty_of_first_is(s, 0);
                if n > 0 {
                    let first: int = 0;
                    assert(s[first].qty@ >= 0);
                    assert(outcome(m, msg, trade).events[0 + 3 * first + 2] is Exec);
                    2
                } else if outcome(m, msg, trade).events[0]->order_id == x.order_id
                    && outcome(m, msg, trade).events[0]->account_id == x.account_id {
                    0
                } else {
                    1
                }
            }
        },
        Inbound::CancelOrder(x) => {
            if m.killed || !rests(m.book, x.account_id, x.order_id) {
                refused_cancel(m, x, trade);
            } else {
                rests_somewhere(m, x.account_id, x.order_id);
                let (side, i) = choose|side: Side, i: int|
                    rests_at(m.book, side, i, x.account_id, x.order_id);
                cancel_takes_the_order_off(m, x, trade, side, i);
            }
            0
        },
        Inbound::CancelReplace(x) => {
            if m.killed || out_of_band(m.last_trade, x.new_price) || !rests(
                m.book,
                x.account_id,
                x.order_id,
            ) {
                refused_amendment(m, x, trade);
            } else {
                rests_somewhere(m, x.account_id, x.order_id);
                let (side, i) = choose|side: Side, i: int|
                    rests_at(m.book, side, i, x.account_id, x.order_id);
                assert(amends(m, x, side, i));
                if may_not_move(m, x, side, i) {
                    post_only_stays_passive(m, x, trade, side, i);
                } else if only_reduces(m, x, side, i) {
                    reduction_stays_in_place(m, x, trade, side, i);
                } else if too_large(m, x, side, i) {
                    too_large_an_amendment_loses_the_order(m, x, trade, side, i);
                } else {
                    let n = reach_exists(
                        facing(m.book, side),
                        x.account_id,
                        side,
                        Some(x.new_price),
                        x.new_qty@ as int,
                    );
                    amended_order_trades_then_rests(m, x, trade, side, i, n);
                }
            }
            0
        },
        _ => 0,
    }
}

/// An order that rests stands somewhere in the queue of its side.
pub proof fn rests_somewhere(m: Market, account: AccountId, id: OrderId)
    requires
        rests(m.book, account, id),
    ensures
        exists|side: Side, i: int| rests_at(m.book, side, i, account, id),
{
    if exists|i: int|
        0 <= i < m.book.bids.len() && (#[trigger] m.book.bids[i]).account_id == account
            && m.book.bids[i].order_id == id {
        let i = choose|i: int|
            0 <= i < m.book.bids.len() && (#[trigger] m.book.bids[i]).account_id == account
                && m.book.bids[i].order_id == id;
        assert(rests_at(m.book, Side::Bid, i, account, id));
    } else {
        let i = choose|i: int|
            0 <= i < m.book.asks.len() && (#[trigger] m.book.asks[i]).account_id == account
                && m.book.asks[i].order_id == id;
        assert(rests_at(m.book, Side::Ask, i, account, id));
    }
}

} // verus!
