//! Book and risk state together, kept in step.

use vstd::prelude::*;

use crate::domain::consts::{MAX_NOTIONAL_PER_ACCT, MAX_OPEN_ORDERS_PER_ACCT};
use crate::domain::{
    group_newtypes, AccountId, CancelReason, IdGenerator, OrderId, OrderKey, Price, Qty, RejectReason, Side,
    Tif,
};
use crate::engine::event::Event;
use crate::engine::l2::{ascending, deltas, emit_changes};
use crate::engine::lemmas::{
    book_dropped, book_fill, book_order, carries, carries_orders, mirrors, reduced_keeps,
    sweep_keeps, with_keeps, without_account_keeps, without_keeps,
};
use crate::engine::model::{
    cancel_order, cancel_replace, command, execute, fill_events, kill_switch, last_price,
    mass_cancel, mass_events, new_order, outcome, place, requeue, residue, self_trade_events, top,
    top_of, Market,
};
use crate::matching::lemmas::{filled, finished, used_up, walk_conserves, walk_keeps, weight_of};
use crate::matching::levels::prices_best_first;
use crate::matching::model::{
    count_weight, crosses, notional, notional_weight, post_only_crosses, sweep, swept, total,
    BookModel,
};
use crate::matching::types::{AggressiveOrder, Fill, Level, RestingOrder};
use crate::matching::Book;
use crate::risk::{notional_of, same_exposures, within_caps, RiskState};
use crate::wire::inbound::{
    CancelOrder, CancelReplace, Inbound, KillSwitchSet, KillSwitchState, MassCancel, NewOrder,
};

verus! {

broadcast use group_newtypes;

/// The single writer's state: the book, and the risk state that mirrors
/// it.
#[derive(Debug)]
pub struct Pipeline {
    book: Book,
    risk: RiskState,
}

impl Pipeline {
    /// The market as it stands.
    pub closed spec fn market(&self) -> Market {
        Market {
            book: self.book@,
            killed: self.risk@.killed,
            last_trade: self.risk@.last_trade,
        }
    }

    /// The book is in order and not crossed, and the risk state says of
    /// every account what the book shows.
    pub closed spec fn wf(&self) -> bool {
        &&& self.book@.wf()
        &&& self.book@.uncrossed()
        &&& self.risk@.wf()
        &&& mirrors(self.risk@, self.book@)
    }

    /// Walks a taker that passed every check down the book, reports the
    /// fills and a self-trade, and returns what is left to be placed.
    fn execute<I: IdGenerator>(
        &mut self,
        taker: AggressiveOrder,
        ids: &mut I,
        fills: &mut Vec<Fill>,
        events: &mut Vec<Event>,
    ) -> (r: Option<Qty>)
        requires
            old(self).wf(),
            !post_only_crosses(old(self).market().book, taker),
            old(ids).next_trade() + execute(
                old(self).market(),
                taker,
                old(ids).next_trade(),
            ).trades <= u64::MAX,
        ensures
            final(self).wf(),
            ({
                let m = old(self).market();
                let t = old(ids).next_trade();
                let o = execute(m, taker, t);
                &&& final(self).market() == o.market
                &&& final(events)@ == old(events)@ + o.events
                &&& final(ids).next_trade() == t + o.trades
                &&& final(ids).next_seq() == old(ids).next_seq()
                &&& r == residue(m, taker, t)
            }),
    {
        let ghost m = self.market();
        let ghost t = ids.next_trade();
        let ghost w = sweep(m.book, taker, t);
        let ghost risk0 = self.risk@;
        let ghost ev0 = events@;
        fills.clear();
        let result = self.book.match_aggressive(taker, ids, fills);
        let ghost book1 = self.book@;
        proof {
            sweep_keeps(m.book, taker, t);
            walk_conserves(m.book.queue(taker.side.other()), taker, taker.qty@, t);
            assert(fills@ =~= w.fills);
            assert forall|a: AccountId|
                (#[trigger] risk0.exposure(a)).open == book1.open_orders(a) + finished(w.fills, a)
                    + weight_of(w.self_trade, count_weight(a)) && risk0.exposure(a).notional
                    == book1.exposure(a) + used_up(w.fills, a) + weight_of(
                    w.self_trade,
                    notional_weight(a),
                ) by {}
            assert(w.fills.skip(0) =~= w.fills);
        }
        let mut left: u64 = taker.qty.as_lots();
        let mut i: usize = 0;
        while i < fills.len()
            invariant
                i <= fills@.len(),
                fills@ == w.fills,
                forall|k: int| 0 <= k < w.fills.len() ==> (#[trigger] w.fills[k]).qty@ > 0,
                self.book@ == book1,
                self.risk@.wf(),
                self.risk@.killed == m.killed,
                self.risk@.last_trade == last_price(w.fills.take(i as int), m.last_trade),
                carries(self.risk@, book1, w.fills.skip(i as int), w.self_trade),
                left == filled(w.fills.skip(i as int)) + w.left,
                ev0 + fill_events(w.fills, taker, taker.qty@) == events@ + fill_events(
                    w.fills.skip(i as int),
                    taker,
                    left,
                ),
            decreases fills@.len() - i,
        {
            let fill = fills[i];
            let ghost rest = w.fills.skip(i as int);
            let ghost before = events@;
            let ghost risk_before = self.risk@;
            let ghost left_before = left;
            proof {
                assert(rest[0] == fill);
                assert(rest.drop_first() =~= w.fills.skip(i + 1));
                assert(w.fills.take(i + 1).last() == fill);
            }
            left = left - fill.qty.as_lots();
            let taker_leaves = if left == 0 {
                None
            } else {
                Some(Qty::new(left).unwrap())
            };
            events.push(Event::trade(fill, taker.side));
            events.push(Event::maker_filled(fill));
            events.push(Event::taker_filled(taker, fill, taker_leaves));
            self.risk.on_fill(fill.price);
            let released: u128 = notional_of(fill.price, fill.qty);
            proof {
                assert(risk_before.exposure(fill.maker_account_id).notional >= released);
                assert(self.risk@.exposure(fill.maker_account_id) == risk_before.exposure(
                    fill.maker_account_id,
                ));
            }
            if fill.maker_leaves.is_none() {
                self.risk.on_order_removed(fill.maker_account_id, released);
            } else {
                self.risk.on_order_reduced(fill.maker_account_id, released);
            }
            proof {
                book_fill(risk_before, self.risk@, book1, rest, w.self_trade);
                assert(before + fill_events(rest, taker, left_before) =~= events@ + fill_events(
                    rest.drop_first(),
                    taker,
                    left,
                ));
            }
            i = i + 1;
        }
        let ghost risk2 = self.risk@;
        proof {
            assert(w.fills.skip(i as int) =~= Seq::<Fill>::empty());
            assert(w.fills.take(i as int) =~= w.fills);
            assert(events@ =~= ev0 + fill_events(w.fills, taker, taker.qty@));
        }
        let ghost ev2 = events@;
        match result.self_trade {
            Some(o) => {
                events.push(
                    Event::cancelled(o.order_id, o.account_id, CancelReason::SelfTradePrevented),
                );
                events.push(
                    Event::cancelled(
                        taker.order_id,
                        taker.account_id,
                        CancelReason::SelfTradePrevented,
                    ),
                );
                proof {
                    assert(risk2.exposure(o.account_id).notional >= notional(o.price, o.qty));
                }
                self.risk.on_order_removed(o.account_id, notional_of(o.price, o.qty));
                proof {
                    book_dropped(risk2, self.risk@, book1, w.self_trade);
                    assert(events@ =~= ev2 + self_trade_events(w.self_trade, taker));
                }
                None
            },
            None => {
                proof {
                    book_dropped(risk2, self.risk@, book1, w.self_trade);
                    assert(events@ =~= ev2 + self_trade_events(w.self_trade, taker));
                }
                result.taker_remaining
            },
        }
    }

    /// Rests an order that risk allows and whose id is free.
    fn rest(&mut self, order: RestingOrder)
        requires
            old(self).wf(),
            old(self).market().book.lookup(order.key()) is None,
            within_caps(
                old(self).market().book.open_orders(order.account_id),
                old(self).market().book.exposure(order.account_id),
                notional(order.price, order.qty),
            ) is Ok,
            forall|j: int|
                0 <= j < old(self).market().book.queue(order.side.other()).len() ==> !crosses(
                    order.side,
                    Some(order.price),
                    (#[trigger] old(self).market().book.queue(order.side.other())[j]).price,
                ),
        ensures
            final(self).wf(),
            final(self).market() == (Market {
                book: old(self).market().book.with(order),
                ..old(self).market()
            }),
    {
        let ghost risk0 = self.risk@;
        let ghost book0 = self.book@;
        let extra: u128 = notional_of(order.price, order.qty);
        proof {
            with_keeps(book0, order);
            assert(risk0.exposure(order.account_id).open == book0.open_orders(order.account_id));
        }
        let _allowed = self.risk.on_order_resting(order.account_id, extra);
        let _added = self.book.add_resting(order);
        proof {
            let risk1 = self.risk@;
            let book1 = self.book@;
            assert forall|a: AccountId|
                (#[trigger] risk1.exposure(a)).open == book1.open_orders(a) && risk1.exposure(
                    a,
                ).notional == book1.exposure(a) by {
                let e = risk0.exposure(a);
                if a@ == order.account_id@ {
                    assert(a == order.account_id);
                }
            }
        }
    }

    /// Handles a new order.
    fn new_order<I: IdGenerator>(
        &mut self,
        msg: NewOrder,
        ids: &mut I,
        fills: &mut Vec<Fill>,
        events: &mut Vec<Event>,
    )
        requires
            old(self).wf(),
            old(ids).next_trade() + new_order(
                old(self).market(),
                msg,
                old(ids).next_trade(),
            ).trades <= u64::MAX,
        ensures
            final(self).wf(),
            ({
                let o = new_order(old(self).market(), msg, old(ids).next_trade());
                &&& final(self).market() == o.market
                &&& final(events)@ == old(events)@ + o.events
                &&& final(ids).next_trade() == old(ids).next_trade() + o.trades
                &&& final(ids).next_seq() == old(ids).next_seq()
            }),
    {
        let ghost m = self.market();
        let ghost t = ids.next_trade();
        let ghost ev0 = events@;
        let best_opposite = self.book.best(msg.side.opposite());
        proof {
            assert(self.risk@.exposure(msg.account_id).open == m.book.open_orders(
                msg.account_id,
            ));
        }
        if let Err(reason) = self.risk.check_new_order(&msg, best_opposite) {
            events.push(Event::rejected(msg.order_id, msg.account_id, reason));
            return ;
        }
        // The kill switch is read once more right before the book is touched.
        if self.risk.is_kill_switched() {
            events.push(
                Event::rejected(msg.order_id, msg.account_id, RejectReason::KillSwitched),
            );
            return ;
        }
        if self.book.get(msg.key()).is_some() {
            events.push(
                Event::rejected(msg.order_id, msg.account_id, RejectReason::DuplicateOrderId),
            );
            return ;
        }
        let taker = AggressiveOrder {
            order_id: msg.order_id,
            account_id: msg.account_id,
            side: msg.side,
            price: msg.price,
            qty: msg.qty,
            tif: msg.tif,
        };
        if taker.tif == Tif::PostOnly && self.book.would_cross(taker.side, taker.price) {
            events.push(
                Event::rejected(msg.order_id, msg.account_id, RejectReason::PostOnlyWouldCross),
            );
            return ;
        }
        let residue = self.execute(taker, ids, fills, events);
        let ghost done = execute(m, taker, t);
        let ghost ev1 = events@;
        if let Some(qty) = residue {
            match (taker.tif, taker.price) {
                (Tif::Gtc, Some(price)) | (Tif::PostOnly, Some(price)) => {
                    let order = RestingOrder {
                        order_id: taker.order_id,
                        account_id: taker.account_id,
                        side: taker.side,
                        price,
                        qty,
                        tif: taker.tif,
                    };
                    proof {
                        sweep_keeps(m.book, taker, t);
                        walk_keeps(m.book.queue(taker.side.other()), taker, taker.qty@, t);
                        assert(self.risk@.exposure(taker.account_id).open
                            == self.market().book.open_orders(taker.account_id));
                    }
                    let extra: u128 = notional_of(price, qty);
                    if let Err(reason) = self.risk.check_caps(taker.account_id, extra) {
                        events.push(Event::rejected(taker.order_id, taker.account_id, reason));
                    } else {
                        self.rest(order);
                        events.push(Event::accepted(taker.order_id, taker.account_id, qty));
                    }
                },
                _ => {
                    events.push(
                        Event::cancelled(
                            taker.order_id,
                            taker.account_id,
                            CancelReason::IocRemaining,
                        ),
                    );
                },
            }
        }
        proof {
            let o = new_order(m, msg, t);
            assert(o == place(done, taker, residue));
            assert(events@ =~= ev0 + o.events);
        }
    }

    /// Handles a cancel.
    fn cancel_order(&mut self, msg: CancelOrder, events: &mut Vec<Event>)
        requires
            old(self).wf(),
        ensures
            final(self).wf(),
            final(self).market() == cancel_order(old(self).market(), msg).market,
            final(events)@ == old(events)@ + cancel_order(old(self).market(), msg).events,
    {
        if let Err(reason) = self.risk.check_cancel(&msg) {
            events.push(Event::rejected(msg.order_id, msg.account_id, reason));
            return ;
        }
        if self.risk.is_kill_switched() {
            events.push(
                Event::rejected(msg.order_id, msg.account_id, RejectReason::KillSwitched),
            );
            return ;
        }
        let found = self.book.get(msg.key());
        if found.is_none() {
            events.push(
                Event::rejected(msg.order_id, msg.account_id, RejectReason::UnknownOrderId),
            );
            return ;
        }
        self.remove(msg.key());
        events.push(
            Event::cancelled(msg.order_id, msg.account_id, CancelReason::UserRequested),
        );
    }

    /// Takes a resting order off the book and off its account's books.
    fn remove(&mut self, key: OrderKey)
        requires
            old(self).wf(),
            old(self).market().book.lookup(key) is Some,
        ensures
            final(self).wf(),
            final(self).market() == (Market {
                book: old(self).market().book.without(key),
                ..old(self).market()
            }),
    {
        let ghost risk0 = self.risk@;
        let ghost book0 = self.book@;
        proof {
            without_keeps(book0, key);
        }
        if let Ok(o) = self.book.cancel(key) {
            proof {
                let e = risk0.exposure(o.account_id);
                assert(book0.exposure(o.account_id) == self.book@.exposure(o.account_id)
                    + notional_weight(o.account_id)(o));
            }
            self.risk.on_order_removed(o.account_id, notional_of(o.price, o.qty));
            proof {
                let book1 = self.book@;
                let none = Seq::<Fill>::empty();
                assert forall|a: AccountId|
                    (#[trigger] risk0.exposure(a)).open == book1.open_orders(a) + finished(none, a)
                        + weight_of(Some(o), count_weight(a)) && risk0.exposure(a).notional
                        == book1.exposure(a) + used_up(none, a) + weight_of(
                        Some(o),
                        notional_weight(a),
                    ) by {}
                book_dropped(risk0, self.risk@, book1, Some(o));
            }
        }
    }

    /// Handles an amendment.
    fn cancel_replace<I: IdGenerator>(
        &mut self,
        msg: CancelReplace,
        ids: &mut I,
        fills: &mut Vec<Fill>,
        events: &mut Vec<Event>,
    )
        requires
            old(self).wf(),
            old(ids).next_trade() + cancel_replace(
                old(self).market(),
                msg,
                old(ids).next_trade(),
            ).trades <= u64::MAX,
        ensures
            final(self).wf(),
            ({
                let o = cancel_replace(old(self).market(), msg, old(ids).next_trade());
                &&& final(self).market() == o.market
                &&& final(events)@ == old(events)@ + o.events
                &&& final(ids).next_trade() == old(ids).next_trade() + o.trades
                &&& final(ids).next_seq() == old(ids).next_seq()
            }),
    {
        let ghost m = self.market();
        let ghost t = ids.next_trade();
        let ghost ev0 = events@;
        if let Err(reason) = self.risk.check_cancel_replace(&msg) {
            events.push(Event::rejected(msg.order_id, msg.account_id, reason));
            return ;
        }
        if self.risk.is_kill_switched() {
            events.push(
                Event::rejected(msg.order_id, msg.account_id, RejectReason::KillSwitched),
            );
            return ;
        }
        let found = self.book.get(msg.key());
        if found.is_none() {
            events.push(
                Event::rejected(msg.order_id, msg.account_id, RejectReason::UnknownOrderId),
            );
            return ;
        }
        let order = found.unwrap();
        if order.tif == Tif::PostOnly && self.book.would_cross(order.side, Some(msg.new_price)) {
            events.push(
                Event::rejected(msg.order_id, msg.account_id, RejectReason::PostOnlyWouldCross),
            );
            return ;
        }
        if msg.new_price == order.price && msg.new_qty.as_lots() < order.qty.as_lots() {
            self.reduce(msg.key(), msg.new_price, msg.new_qty);
            events.push(Event::replaced(msg.order_id, msg.account_id, msg.new_qty));
            return ;
        }
        proof {
            without_keeps(m.book, msg.key());
        }
        self.remove(msg.key());
        let ghost gone = self.market();
        proof {
            assert(self.risk@.exposure(msg.account_id).open == gone.book.open_orders(
                msg.account_id,
            ));
        }
        let extra: u128 = notional_of(msg.new_price, msg.new_qty);
        if let Err(reason) = self.risk.check_caps(msg.account_id, extra) {
            events.push(Event::rejected(msg.order_id, msg.account_id, reason));
            return ;
        }
        events.push(Event::replaced(msg.order_id, msg.account_id, msg.new_qty));
        let taker = AggressiveOrder {
            order_id: msg.order_id,
            account_id: msg.account_id,
            side: order.side,
            price: Some(msg.new_price),
            qty: msg.new_qty,
            tif: order.tif,
        };
        let residue = self.execute(taker, ids, fills, events);
        if let Some(qty) = residue {
            let rest = RestingOrder {
                order_id: taker.order_id,
                account_id: taker.account_id,
                side: taker.side,
                price: msg.new_price,
                qty,
                tif: taker.tif,
            };
            proof {
                requeue_fits(gone, taker, msg.new_price, t);
            }
            self.rest(rest);
        }
        proof {
            let o = cancel_replace(m, msg, t);
            assert(o == requeue(m, order, msg, t));
            assert(events@ =~= ev0 + o.events);
        }
    }

    /// Cuts a resting order down in place.
    fn reduce(&mut self, key: OrderKey, price: Price, qty: Qty)
        requires
            old(self).wf(),
            old(self).market().book.lookup(key) is Some,
            price == old(self).market().book.lookup(key)->0.price,
            0 < qty@ < old(self).market().book.lookup(key)->0.qty@,
        ensures
            final(self).wf(),
            final(self).market() == (Market {
                book: old(self).market().book.reduced(key, qty),
                ..old(self).market()
            }),
    {
        let ghost risk0 = self.risk@;
        let ghost book0 = self.book@;
        proof {
            reduced_keeps(book0, key, qty);
        }
        if let Ok(outcome) = self.book.replace(key, price, qty) {
            let o = outcome.previous;
            let released: u128 = notional_of(o.price, o.qty) - notional_of(o.price, qty);
            proof {
                let e = risk0.exposure(o.account_id);
                assert(book0.exposure(o.account_id) == self.book@.exposure(o.account_id)
                    + released);
            }
            self.risk.on_order_reduced(o.account_id, released);
            proof {
                let risk1 = self.risk@;
                let book1 = self.book@;
                assert forall|a: AccountId|
                    (#[trigger] risk1.exposure(a)).open == book1.open_orders(a) && risk1.exposure(
                        a,
                    ).notional == book1.exposure(a) by {
                    let e = risk0.exposure(a);
                    if a@ == o.account_id@ {
                        assert(a == o.account_id);
                    }
                }
            }
        }
    }

    /// Handles a mass cancel.
    fn mass_cancel(
        &mut self,
        msg: MassCancel,
        removed: &mut Vec<RestingOrder>,
        events: &mut Vec<Event>,
    )
        requires
            old(self).wf(),
        ensures
            final(self).wf(),
            final(self).market() == mass_cancel(old(self).market(), msg).market,
            final(events)@ == old(events)@ + mass_cancel(old(self).market(), msg).events,
    {
        let ghost m = self.market();
        let ghost ev0 = events@;
        // A refusal names no order; its report carries order id 1.
        let no_order = OrderId::new(1).unwrap();
        if let Err(reason) = self.risk.check_mass_cancel(&msg) {
            events.push(Event::rejected(no_order, msg.account_id, reason));
            return ;
        }
        if self.risk.is_kill_switched() {
            events.push(Event::rejected(no_order, msg.account_id, RejectReason::KillSwitched));
            return ;
        }
        removed.clear();
        let ghost risk0 = self.risk@;
        proof {
            without_account_keeps(m.book, msg.account_id);
        }
        self.book.mass_cancel(msg.account_id, removed);
        let ghost orders = m.book.owned_by(msg.account_id);
        let ghost book1 = self.book@;
        proof {
            assert(removed@ =~= orders);
            assert(orders.skip(0) =~= orders);
            assert forall|a: AccountId|
                (#[trigger] risk0.exposure(a)).open == book1.open_orders(a) + total(
                    orders,
                    count_weight(a),
                ) && risk0.exposure(a).notional == book1.exposure(a) + total(
                    orders,
                    notional_weight(a),
                ) by {}
        }
        let mut i: usize = 0;
        while i < removed.len()
            invariant
                i <= removed@.len(),
                removed@ == orders,
                self.book@ == book1,
                self.risk@.wf(),
                self.risk@.killed == m.killed,
                self.risk@.last_trade == m.last_trade,
                carries_orders(self.risk@, book1, orders.skip(i as int)),
                events@ == ev0 + mass_events(orders).take(i as int),
            decreases removed@.len() - i,
        {
            let o = removed[i];
            let ghost rest = orders.skip(i as int);
            let ghost risk_before = self.risk@;
            proof {
                assert(rest[0] == o);
                assert(rest.drop_first() =~= orders.skip(i + 1));
                let e = risk_before.exposure(o.account_id);
                assert(e.notional >= notional(o.price, o.qty));
            }
            self.risk.on_order_removed(o.account_id, notional_of(o.price, o.qty));
            events.push(Event::cancelled(o.order_id, o.account_id, CancelReason::MassCancel));
            proof {
                book_order(risk_before, self.risk@, book1, rest);
                assert(mass_events(orders).take(i + 1) =~= mass_events(orders).take(i as int).push(
                    mass_events(orders)[i as int],
                ));
                assert(events@ =~= ev0 + mass_events(orders).take(i + 1));
            }
            i = i + 1;
        }
        proof {
            assert(orders.skip(i as int) =~= Seq::<RestingOrder>::empty());
            assert(mass_events(orders).take(i as int) =~= mass_events(orders));
            let risk1 = self.risk@;
            assert forall|a: AccountId|
                (#[trigger] risk1.exposure(a)).open == book1.open_orders(a) && risk1.exposure(
                    a,
                ).notional == book1.exposure(a) by {}
        }
    }

    /// An empty market with the kill switch off.
    pub fn new() -> (p: Pipeline)
        ensures
            p.wf(),
            p.market() == Market::opening(),
    {
        let p = Pipeline { book: Book::new(), risk: RiskState::new() };
        proof {
            assert forall|a: AccountId|
                (#[trigger] p.risk@.exposure(a)).open == p.book@.open_orders(a) && p.risk@.exposure(
                    a,
                ).notional == p.book@.exposure(a) by {}
        }
        p
    }

    /// The book.
    pub fn book(&self) -> (b: &Book)
        ensures
            b@ == self.market().book,
            self.wf() ==> b@.wf(),
    {
        &self.book
    }

    /// The risk state.
    pub fn risk(&self) -> (r: &RiskState)
        ensures
            r@.killed == self.market().killed,
            r@.last_trade == self.market().last_trade,
            self.wf() ==> r@.wf() && mirrors(r@, self.market().book),
    {
        &self.risk
    }

    /// What holds of a market at all times: the book is in order and not
    /// crossed, and no account is above its caps.
    pub proof fn market_sound(&self)
        requires
            self.wf(),
        ensures
            self.market().sound(),
    {
        assert forall|a: AccountId|
            (#[trigger] self.market().book.open_orders(a)) <= MAX_OPEN_ORDERS_PER_ACCT
                && self.market().book.exposure(a) <= MAX_NOTIONAL_PER_ACCT by {
            let e = self.risk@.exposure(a);
        }
    }

    /// Best price of a side, with the quantity that rests there.
    fn top_of(&self, side: Side) -> (r: Option<(Price, Qty)>)
        requires
            self.wf(),
        ensures
            r == top_of(self.market().book, side),
    {
        let levels = match side {
            Side::Bid => self.book.bid_levels(),
            Side::Ask => self.book.ask_levels(),
        };
        proof {
            prices_best_first(side, self.book@.queue(side));
        }
        if levels.len() > 0 {
            Some((levels[0].price, levels[0].qty))
        } else {
            None
        }
    }

    /// Carries out a command, without the report on book changes.
    fn command<I: IdGenerator>(
        &mut self,
        msg: Inbound,
        ids: &mut I,
        fills: &mut Vec<Fill>,
        removed: &mut Vec<RestingOrder>,
        events: &mut Vec<Event>,
    )
        requires
            old(self).wf(),
            old(ids).next_trade() + command(
                old(self).market(),
                msg,
                old(ids).next_trade(),
            ).trades <= u64::MAX,
        ensures
            final(self).wf(),
            ({
                let o = command(old(self).market(), msg, old(ids).next_trade());
                &&& final(self).market() == o.market
                &&& final(events)@ == old(events)@ + o.events
                &&& final(ids).next_trade() == old(ids).next_trade() + o.trades
                &&& final(ids).next_seq() == old(ids).next_seq()
            }),
    {
        match msg {
            Inbound::NewOrder(msg) => self.new_order(msg, ids, fills, events),
            Inbound::CancelOrder(msg) => self.cancel_order(msg, events),
            Inbound::CancelReplace(msg) => self.cancel_replace(msg, ids, fills, events),
            Inbound::MassCancel(msg) => self.mass_cancel(msg, removed, events),
            Inbound::KillSwitchSet(msg) => {
                self.kill_switch(msg);
                proof {
                    assert(events@ =~= events@ + Seq::<Event>::empty());
                }
            },
            Inbound::SnapshotRequest(_) => {
                proof {
                    assert(events@ =~= events@ + Seq::<Event>::empty());
                }
            },
        }
    }

    /// Puts the kill switch in a position.
    fn kill_switch(&mut self, msg: KillSwitchSet)
        requires
            old(self).wf(),
        ensures
            final(self).wf(),
            final(self).market() == kill_switch(old(self).market(), msg).market,
    {
        let ghost risk0 = self.risk@;
        self.risk.set_kill_switch(msg.state == KillSwitchState::Halt);
        proof {
            same_exposures(risk0, self.risk@);
            let risk1 = self.risk@;
            let book = self.book@;
            assert forall|a: AccountId|
                (#[trigger] risk1.exposure(a)).open == book.open_orders(a) && risk1.exposure(
                    a,
                ).notional == book.exposure(a) by {
                let e = risk0.exposure(a);
            }
        }
    }

    /// Reports every level that changed since `pre_bids` and `pre_asks`
    /// were taken, and then the top of the book.
    fn report_book(
        &self,
        Ghost(pre): Ghost<BookModel>,
        pre_bids: &Vec<Level>,
        pre_asks: &Vec<Level>,
        events: &mut Vec<Event>,
    )
        requires
            self.wf(),
            pre_bids@ == ascending(pre, Side::Bid),
            pre_asks@ == ascending(pre, Side::Ask),
        ensures
            final(events)@ == old(events)@ + deltas(pre, self.market().book).push(
                top(self.market().book),
            ),
    {
        let post_bids = reversed(&self.book.bid_levels());
        let post_asks = self.book.ask_levels();
        emit_changes(Side::Bid, pre_bids, &post_bids, events);
        emit_changes(Side::Ask, pre_asks, &post_asks, events);
        let bid = self.top_of(Side::Bid);
        let ask = self.top_of(Side::Ask);
        events.push(Event::Top { bid, ask });
        proof {
            let book = self.market().book;
            assert(events@ =~= old(events)@ + deltas(pre, book).push(top(book)));
        }
    }

    /// Carries out a command and appends its events to `events`. `fills`
    /// and `removed` are scratch space.
    pub fn apply<I: IdGenerator>(
        &mut self,
        msg: Inbound,
        ids: &mut I,
        fills: &mut Vec<Fill>,
        removed: &mut Vec<RestingOrder>,
        events: &mut Vec<Event>,
    )
        requires
            old(self).wf(),
            old(ids).next_trade() + outcome(
                old(self).market(),
                msg,
                old(ids).next_trade(),
            ).trades <= u64::MAX,
        ensures
            final(self).wf(),
            ({
                let o = outcome(old(self).market(), msg, old(ids).next_trade());
                &&& final(self).market() == o.market
                &&& final(events)@ == old(events)@ + o.events
                &&& final(ids).next_trade() == old(ids).next_trade() + o.trades
                &&& final(ids).next_seq() == old(ids).next_seq()
            }),
    {
        let ghost m = self.market();
        let ghost t = ids.next_trade();
        let ghost ev0 = events@;
        let book_command = match msg {
            Inbound::KillSwitchSet(_) | Inbound::SnapshotRequest(_) => false,
            _ => true,
        };
        if book_command {
            let pre_bids = reversed(&self.book.bid_levels());
            let pre_asks = self.book.ask_levels();
            self.command(msg, ids, fills, removed, events);
            self.report_book(Ghost(m.book), &pre_bids, &pre_asks, events);
            proof {
                assert(events@ =~= ev0 + outcome(m, msg, t).events);
            }
        } else {
            self.command(msg, ids, fills, removed, events);
        }
    }
}

/// The levels in reverse order.
fn reversed(s: &Vec<Level>) -> (r: Vec<Level>)
    ensures
        r@ == s@.reverse(),
{
    let mut r: Vec<Level> = Vec::new();
    let mut i: usize = s.len();
    while i > 0
        invariant
            i <= s@.len(),
            r@.len() == s@.len() - i,
            forall|k: int| 0 <= k < r@.len() ==> #[trigger] r@[k] == s@[s@.len() - 1 - k],
        decreases i,
    {
        i = i - 1;
        r.push(s[i]);
    }
    proof {
        assert(r@ =~= s@.reverse());
    }
    r
}

/// The residue of an amended order fits the caps that the whole of it was
/// checked against, its id is free, and it does not cross.
pub proof fn requeue_fits(m: Market, taker: AggressiveOrder, price: Price, trade: u64)
    requires
        m.book.wf(),
        m.book.lookup(taker.key()) is None,
        taker.price == Some(price),
        price@ > 0,
        residue(m, taker, trade) is Some,
        within_caps(
            m.book.open_orders(taker.account_id),
            m.book.exposure(taker.account_id),
            notional(price, taker.qty),
        ) is Ok,
    ensures
        ({
            let book = swept(m.book, taker, trade);
            let qty = residue(m, taker, trade)->0;
            &&& book.lookup(taker.key()) is None
            &&& within_caps(
                book.open_orders(taker.account_id),
                book.exposure(taker.account_id),
                notional(price, qty),
            ) is Ok
            &&& forall|j: int|
                0 <= j < book.queue(taker.side.other()).len() ==> !crosses(
                    taker.side,
                    Some(price),
                    (#[trigger] book.queue(taker.side.other())[j]).price,
                )
        }),
{
    let makers = m.book.queue(taker.side.other());
    let w = sweep(m.book, taker, trade);
    let book = swept(m.book, taker, trade);
    sweep_keeps(m.book, taker, trade);
    walk_keeps(makers, taker, taker.qty@, trade);
    walk_conserves(makers, taker, taker.qty@, trade);
    let p = price@ as int;
    let a = w.left as int;
    let b = taker.qty@ as int;
    assert(0 <= p * a <= p * b) by (nonlinear_arith)
        requires
            p > 0,
            0 <= a <= b,
    ;
    assert(m.book.open_orders(taker.account_id) >= book.open_orders(taker.account_id));
    assert(m.book.exposure(taker.account_id) >= book.exposure(taker.account_id));
}

} // verus!
