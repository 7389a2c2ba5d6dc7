//! What risk refuses, and why.

use vstd::prelude::*;

use crate::domain::{group_newtypes, AccountId, ExecState, OrderType, Price, RejectReason};
use crate::engine::event::Event;
use crate::engine::lemmas::mirrors;
use crate::engine::model::{outcome, Market};
use crate::laws::agree::{band_agrees, exposure_agrees};
use crate::laws::amendments::refused_amendment;
use crate::laws::new_orders::{new_order_fields, refused_new_order};
use crate::laws::plain::{open_notional, open_orders};
use crate::matching::model::BookModel;
use crate::risk::{
    kill_verdict, minus_floor, new_order_verdict, replace_verdict, within_caps, Exposure, RiskModel,
};
use crate::wire::inbound::{CancelReplace, Inbound, NewOrder};

verus! {

broadcast use group_newtypes;

/// With the kill switch off, a new order or an amendment whose price is more
/// than 500 basis points above or below the last trade is refused for that,
/// and nothing changes.
pub proof fn far_prices_are_refused(m: Market, msg: Inbound, trade: u64, price: Price, last: Price)
    requires
        m.book.wf(),
        !m.killed,
        m.last_trade == Some(last),
        (price@ - last@) * 10_000 > 500 * last@ || (last@ - price@) * 10_000 > 500 * last@,
        match msg {
            Inbound::NewOrder(x) => x.qty@ > 0 && price@ > 0 && x.price == Some(price) && (
            x.order_type == OrderType::Limit || m.book.bids.len() > 0 && m.book.asks.len() > 0),
            Inbound::CancelReplace(x) => x.new_price == price,
            _ => false,
        },
    ensures
        outcome(m, msg, trade).market == m,
        outcome(m, msg, trade).events.len() == 2,
        match msg {
            Inbound::NewOrder(x) => outcome(m, msg, trade).events[0] == (Event::Exec {
                order_id: x.order_id,
                account_id: x.account_id,
                state: ExecState::Rejected,
                fill_price: None,
                fill_qty: None,
                leaves_qty: None,
                reject_reason: Some(RejectReason::PriceBand),
                cancel_reason: None,
            }),
            Inbound::CancelReplace(x) => outcome(m, msg, trade).events[0] == (Event::Exec {
                order_id: x.order_id,
                account_id: x.account_id,
                state: ExecState::Rejected,
                fill_price: None,
                fill_qty: None,
                leaves_qty: None,
                reject_reason: Some(RejectReason::PriceBand),
                cancel_reason: None,
            }),
            _ => true,
        },
{
    match msg {
        Inbound::NewOrder(x) => {
            refused_new_order(m, x, trade);
        },
        Inbound::CancelReplace(x) => {
            refused_amendment(m, x, trade);
        },
        _ => {},
    }
}

/// With the kill switch off, an amendment is refused by risk exactly if its
/// price is more than 500 basis points above or below the last trade.
pub proof fn amendments_are_judged_by_their_price(
    killed: bool,
    last_trade: Option<Price>,
    price: Price,
)
    ensures
        replace_verdict(killed, last_trade, price) == (if killed {
            Err::<(), RejectReason>(RejectReason::KillSwitched)
        } else if last_trade is Some && ((price@ - last_trade->0@) * 10_000 > 500
            * last_trade->0@ || (last_trade->0@ - price@) * 10_000 > 500 * last_trade->0@) {
            Err(RejectReason::PriceBand)
        } else {
            Ok(())
        }),
{
    band_agrees(last_trade, price);
}

/// A new order is refused by risk for the first of these that holds: the
/// kill switch is on; it has no limit and the other side is empty; its
/// limit, or without one the best price of the other side, is more than 500
/// basis points above or below the last trade; the account rests a thousand
/// orders; with it the account would rest a notional above ten billion.
pub proof fn new_orders_are_judged_in_order(
    killed: bool,
    last_trade: Option<Price>,
    open: nat,
    resting: nat,
    msg: NewOrder,
    best_opposite: Option<Price>,
)
    requires
        new_order_fields(msg),
        best_opposite matches Some(b) ==> b@ > 0,
    ensures
        ({
            let v = new_order_verdict(killed, last_trade, open, resting, msg, best_opposite);
            let p = if msg.price is Some {
                msg.price->0@
            } else {
                best_opposite->0@
            };
            if killed {
                v == Err::<(), RejectReason>(RejectReason::KillSwitched)
            } else if (msg.order_type == OrderType::Market || msg.price is None)
                && best_opposite is None {
                v == Err::<(), RejectReason>(RejectReason::MarketOrderInEmptyBook)
            } else if last_trade is Some && ((p - last_trade->0@) * 10_000 > 500 * last_trade->0@
                || (last_trade->0@ - p) * 10_000 > 500 * last_trade->0@) {
                v == Err::<(), RejectReason>(RejectReason::PriceBand)
            } else if open >= 1_000 {
                v == Err::<(), RejectReason>(RejectReason::MaxOpenOrders)
            } else if resting + p * msg.qty@ > 10_000_000_000 {
                v == Err::<(), RejectReason>(RejectReason::MaxNotional)
            } else {
                v == Ok::<(), RejectReason>(())
            }
        }),
{
    if msg.price is Some || best_opposite is Some {
        let p = if msg.price is Some {
            msg.price->0
        } else {
            best_opposite->0
        };
        band_agrees(last_trade, p);
        assert(p@ * msg.qty@ >= 0) by (nonlinear_arith)
            requires
                p@ > 0,
                msg.qty@ > 0,
        ;
    }
}

/// A cancel and a mass cancel are refused by risk exactly while the kill
/// switch is on.
pub proof fn cancels_are_judged_by_the_switch(killed: bool)
    ensures
        kill_verdict(killed) == (if killed {
            Err::<(), RejectReason>(RejectReason::KillSwitched)
        } else {
            Ok(())
        }),
{
}

/// An account may rest one more order exactly if it rests fewer than a
/// thousand and its notional stays at or below ten billion; the number of
/// orders is looked at first.
pub proof fn caps_are_a_thousand_and_ten_billion(open: nat, resting: nat, extra: nat)
    ensures
        within_caps(open, resting, extra) == (if open >= 1_000 {
            Err::<(), RejectReason>(RejectReason::MaxOpenOrders)
        } else if resting + extra > 10_000_000_000 {
            Err(RejectReason::MaxNotional)
        } else {
            Ok(())
        }),
{
}

/// Putting one account's exposure in place changes that of no other account,
/// nor the switch, nor the last trade. An account that has none rests
/// nothing.
pub proof fn exposures_are_kept_apart(r: RiskModel, a: AccountId, e: Exposure, b: AccountId)
    ensures
        r.with_exposure(a, e).exposure(b) == (if a@ == b@ {
            e
        } else {
            r.exposure(b)
        }),
        r.with_exposure(a, e).killed == r.killed,
        r.with_exposure(a, e).last_trade == r.last_trade,
        r.accounts == Map::<u32, Exposure>::empty() ==> r.exposure(b).open == 0 && r.exposure(
            b,
        ).notional == 0,
{
}

/// Releasing more than there is leaves nothing.
pub proof fn releasing_stops_at_nothing(a: u128, b: u128)
    ensures
        b <= a ==> minus_floor(a, b) == a - b,
        b >= a ==> minus_floor(a, b) == 0,
{
}

/// A risk state that mirrors a book counts for every account the orders that
/// it rests and the sum of their prices times quantities.
pub proof fn risk_counts_what_rests(r: RiskModel, book: BookModel, account: AccountId)
    requires
        book.wf(),
        mirrors(r, book),
    ensures
        r.exposure(account).open == open_orders(book, account),
        r.exposure(account).notional == open_notional(book, account),
{
    exposure_agrees(book, account);
}

} // verus!
