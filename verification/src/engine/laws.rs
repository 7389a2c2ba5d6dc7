//! What holds of every command.

use vstd::prelude::*;

use crate::domain::consts::{MAX_NOTIONAL_PER_ACCT, MAX_OPEN_ORDERS_PER_ACCT};
use crate::domain::{
    group_newtypes, AccountId, CancelReason, Clock, OrderId, OrderKey, OrderType, Price, Qty, RecvTs,
    RejectReason, Side, Tif, TradeId,
};
use crate::engine::engine::{answers, emit_ts, message, message_count, seq_of};
use crate::engine::event::Event;
use crate::engine::l2::{ascending, changes, deltas};
use crate::engine::lemmas::{
    reduced_keeps, sweep_keeps, with_keeps, without_account_keeps, without_keeps,
};
use crate::engine::model::{
    amended, cancel_order, cancel_replace, command, execute, fill_events, is_book_command, leaves,
    mass_cancel, new_order, outcome, owns, place, refuse, residue, resting, self_trade_events,
    taker_of, top, Market,
};
use crate::engine::pipeline::requeue_fits;
use crate::matching::laws::{fills_follow_queue, no_cross_no_change};
use crate::matching::lemmas::walk_keeps;
use crate::matching::model::{
    crosses, keeps_priority, notional, order_wf, post_only_crosses, sweep, swept, walk, BookModel,
};
use crate::matching::types::{AggressiveOrder, Fill, Level, RestingOrder};
use crate::risk::{kill_verdict, new_order_verdict, replace_verdict, within_caps};
use crate::wire::fields::price_valid;
use crate::wire::inbound::{
    CancelReplace, Inbound, KillSwitchSet, KillSwitchState, NewOrder, SnapshotRequest,
};
use crate::wire::outbound::OutboundView;

verus! {

broadcast use group_newtypes;

/// Prices and quantities of a command are legal. Every command that exists
/// at run time is: its fields can be made no other way.
pub open spec fn in_domain(msg: Inbound) -> bool {
    match msg {
        Inbound::NewOrder(m) => price_valid(m.price) && Qty::legal(m.qty@),
        Inbound::CancelReplace(m) => Price::legal(m.new_price@) && Qty::legal(m.new_qty@),
        _ => true,
    }
}

/// Executing a taker keeps a market sound.
proof fn execute_sound(m: Market, taker: AggressiveOrder, trade: u64)
    requires
        m.sound(),
    ensures
        execute(m, taker, trade).market.sound(),
{
    sweep_keeps(m.book, taker, trade);
    let r = execute(m, taker, trade).market.book;
    assert forall|a: AccountId|
        (#[trigger] r.open_orders(a)) <= MAX_OPEN_ORDERS_PER_ACCT && r.exposure(a)
            <= MAX_NOTIONAL_PER_ACCT by {
        assert(m.book.open_orders(a) <= MAX_OPEN_ORDERS_PER_ACCT);
    }
}

/// Resting an order that fits keeps a market sound.
proof fn rest_sound(m: Market, o: RestingOrder)
    requires
        m.sound(),
        order_wf(o.side, o),
        m.book.lookup(o.key()) is None,
        within_caps(
            m.book.open_orders(o.account_id),
            m.book.exposure(o.account_id),
            notional(o.price, o.qty),
        ) is Ok,
        forall|j: int|
            0 <= j < m.book.queue(o.side.other()).len() ==> !crosses(
                o.side,
                Some(o.price),
                (#[trigger] m.book.queue(o.side.other())[j]).price,
            ),
    ensures
        (Market { book: m.book.with(o), ..m }).sound(),
{
    with_keeps(m.book, o);
    let r = m.book.with(o);
    assert forall|a: AccountId|
        (#[trigger] r.open_orders(a)) <= MAX_OPEN_ORDERS_PER_ACCT && r.exposure(a)
            <= MAX_NOTIONAL_PER_ACCT by {
        assert(m.book.open_orders(a) <= MAX_OPEN_ORDERS_PER_ACCT);
    }
}

/// Taking an order off keeps a market sound.
proof fn without_sound(m: Market, key: OrderKey)
    requires
        m.sound(),
        m.book.lookup(key) is Some,
    ensures
        (Market { book: m.book.without(key), ..m }).sound(),
{
    without_keeps(m.book, key);
    let r = m.book.without(key);
    assert forall|a: AccountId|
        (#[trigger] r.open_orders(a)) <= MAX_OPEN_ORDERS_PER_ACCT && r.exposure(a)
            <= MAX_NOTIONAL_PER_ACCT by {
        assert(m.book.open_orders(a) <= MAX_OPEN_ORDERS_PER_ACCT);
    }
}

/// Every command keeps a market sound: the book stays in priority order and
/// neither locked nor crossed, no account rests an id twice, and none exceeds
/// its caps on resting orders and notional.
#[verifier::spinoff_prover]
#[verifier::rlimit(30)]
pub proof fn outcome_sound(m: Market, msg: Inbound, trade: u64)
    requires
        m.sound(),
        in_domain(msg),
    ensures
        outcome(m, msg, trade).market.sound(),
{
    let after = outcome(m, msg, trade).market;
    match msg {
        Inbound::NewOrder(order) => {
            new_order_sound(m, order, trade);
            assert(after == new_order(m, order, trade).market);
        },
        Inbound::CancelOrder(cancel) => {
            if owns(m, cancel.key()) {
                without_sound(m, cancel.key());
            }
            assert(after == cancel_order(m, cancel).market);
        },
        Inbound::CancelReplace(replace) => {
            cancel_replace_sound(m, replace, trade);
            assert(after == cancel_replace(m, replace, trade).market);
        },
        Inbound::MassCancel(mass) => {
            without_account_sound(m, mass.account_id);
            assert(after == mass_cancel(m, mass).market);
        },
        Inbound::KillSwitchSet(_) => {
            assert(after.book == m.book);
        },
        Inbound::SnapshotRequest(_) => {},
    }
    assert(after.sound());
}

/// Taking all orders of an account off keeps a market sound.
proof fn without_account_sound(m: Market, account: AccountId)
    requires
        m.sound(),
    ensures
        (Market { book: m.book.without_account(account), ..m }).sound(),
{
    without_account_keeps(m.book, account);
    let r = m.book.without_account(account);
    assert forall|a: AccountId|
        (#[trigger] r.open_orders(a)) <= MAX_OPEN_ORDERS_PER_ACCT && r.exposure(a)
            <= MAX_NOTIONAL_PER_ACCT by {
        assert(m.book.open_orders(a) <= MAX_OPEN_ORDERS_PER_ACCT);
    }
}

/// A new order keeps a market sound.
proof fn new_order_sound(m: Market, msg: NewOrder, trade: u64)
    requires
        m.sound(),
        in_domain(Inbound::NewOrder(msg)),
    ensures
        new_order(m, msg, trade).market.sound(),
{
    let taker = taker_of(msg);
    let done = execute(m, taker, trade);
    let verdict = risk_verdict(m, Inbound::NewOrder(msg));
    if verdict is Ok && !owns(m, msg.key()) && !post_only_crosses(m.book, taker) {
        execute_sound(m, taker, trade);
        sweep_keeps(m.book, taker, trade);
        if let Some(qty) = residue(m, taker, trade) {
            if taker.tif != Tif::Ioc && taker.price is Some {
                let o = resting(taker, taker.price->0, qty);
                walk_keeps(m.book.queue(taker.side.other()), taker, taker.qty@, trade);
                if within_caps(
                    done.market.book.open_orders(taker.account_id),
                    done.market.book.exposure(taker.account_id),
                    notional(taker.price->0, qty),
                ) is Ok {
                    assert(done.market.book.lookup(o.key()) is None);
                    rest_sound(done.market, o);
                }
            }
        }
    }
}

/// An amendment keeps a market sound.
proof fn cancel_replace_sound(m: Market, msg: CancelReplace, trade: u64)
    requires
        m.sound(),
        in_domain(Inbound::CancelReplace(msg)),
    ensures
        cancel_replace(m, msg, trade).market.sound(),
{
    if replace_verdict(m.killed, m.last_trade, msg.new_price) is Ok && owns(m, msg.key()) {
        let o = m.book.lookup(msg.key())->0;
        if post_only_crosses(m.book, amended(o, msg)) {
        } else if keeps_priority(o, msg.new_price, msg.new_qty) {
            reduced_keeps(m.book, msg.key(), msg.new_qty);
            let r = m.book.reduced(msg.key(), msg.new_qty);
            assert forall|a: AccountId|
                (#[trigger] r.open_orders(a)) <= MAX_OPEN_ORDERS_PER_ACCT && r.exposure(a)
                    <= MAX_NOTIONAL_PER_ACCT by {
                assert(m.book.open_orders(a) <= MAX_OPEN_ORDERS_PER_ACCT);
            }
        } else {
            let gone = Market { book: m.book.without(msg.key()), ..m };
            let taker = amended(o, msg);
            without_sound(m, msg.key());
            without_keeps(m.book, msg.key());
            if within_caps(
                gone.book.open_orders(msg.account_id),
                gone.book.exposure(msg.account_id),
                notional(msg.new_price, msg.new_qty),
            ) is Ok {
                execute_sound(gone, taker, trade);
                if let Some(qty) = residue(gone, taker, trade) {
                    requeue_fits(gone, taker, msg.new_price, trade);
                    rest_sound(
                        execute(gone, taker, trade).market,
                        resting(taker, msg.new_price, qty),
                    );
                }
            }
        }
    }
}

/// The opening market is sound.
pub proof fn opening_sound()
    ensures
        Market::opening().sound(),
{
}

/// A list of levels differs nowhere from itself.
proof fn changes_none(side: Side, s: Seq<Level>)
    ensures
        changes(side, s, s) == Seq::<Event>::empty(),
    decreases s.len(),
{
    if s.len() > 0 {
        changes_none(side, s.drop_first());
        assert(changes(side, s, s) =~= Seq::<Event>::empty());
    }
}

/// A command that leaves the book alone reports no level change.
pub proof fn unchanged_book_no_deltas(book: BookModel)
    ensures
        deltas(book, book) == Seq::<Event>::empty(),
{
    changes_none(Side::Bid, ascending(book, Side::Bid));
    changes_none(Side::Ask, ascending(book, Side::Ask));
    assert(deltas(book, book) =~= Seq::<Event>::empty());
}

/// The report that refuses a client command; other commands are never
/// refused.
pub open spec fn refusal(msg: Inbound, reason: RejectReason) -> Option<Event> {
    match msg {
        Inbound::NewOrder(m) => Some(Event::rejected(m.order_id, m.account_id, reason)),
        Inbound::CancelOrder(m) => Some(Event::rejected(m.order_id, m.account_id, reason)),
        Inbound::CancelReplace(m) => Some(Event::rejected(m.order_id, m.account_id, reason)),
        Inbound::MassCancel(m) => Some(Event::rejected(OrderId::of(1), m.account_id, reason)),
        Inbound::KillSwitchSet(_) => None,
        Inbound::SnapshotRequest(_) => None,
    }
}

/// The command is refused: nothing changes, and the only events are the
/// refusal and the top of the unchanged book.
pub open spec fn refused(m: Market, msg: Inbound, trade: u64, reason: RejectReason) -> bool {
    let o = outcome(m, msg, trade);
    &&& refusal(msg, reason) is Some
    &&& o.market == m
    &&& o.trades == 0
    &&& o.events == seq![refusal(msg, reason)->0, top(m.book)]
}

/// A command whose handler refuses it is refused as a whole.
proof fn refusal_is_all(m: Market, msg: Inbound, trade: u64, reason: RejectReason)
    requires
        is_book_command(msg),
        command(m, msg, trade) == refuse(m, refusal(msg, reason)->0),
    ensures
        refused(m, msg, trade, reason),
{
    unchanged_book_no_deltas(m.book);
    let o = outcome(m, msg, trade);
    assert(o.events =~= seq![refusal(msg, reason)->0, top(m.book)]);
}

/// What risk says of a command.
pub open spec fn risk_verdict(m: Market, msg: Inbound) -> Result<(), RejectReason> {
    match msg {
        Inbound::NewOrder(n) => new_order_verdict(
            m.killed,
            m.last_trade,
            m.book.open_orders(n.account_id),
            m.book.exposure(n.account_id),
            n,
            m.book.best(n.side.other()),
        ),
        Inbound::CancelReplace(c) => replace_verdict(m.killed, m.last_trade, c.new_price),
        Inbound::CancelOrder(_) => kill_verdict(m.killed),
        Inbound::MassCancel(_) => kill_verdict(m.killed),
        Inbound::KillSwitchSet(_) => Ok(()),
        Inbound::SnapshotRequest(_) => Ok(()),
    }
}

/// While the kill switch is engaged, every client command is refused.
pub proof fn kill_switch_refuses_all(m: Market, msg: Inbound, trade: u64)
    requires
        m.killed,
        is_book_command(msg),
    ensures
        refused(m, msg, trade, RejectReason::KillSwitched),
{
    refusal_is_all(m, msg, trade, RejectReason::KillSwitched);
}

/// Setting the kill switch touches neither the book nor the last trade, and
/// publishes nothing.
pub proof fn kill_switch_only_switches(m: Market, msg: KillSwitchSet, trade: u64)
    ensures
        outcome(m, Inbound::KillSwitchSet(msg), trade).market == (Market {
            killed: msg.state == KillSwitchState::Halt,
            ..m
        }),
        outcome(m, Inbound::KillSwitchSet(msg), trade).events.len() == 0,
{
}

/// Resuming undoes halting.
pub proof fn resume_undoes_halt(m: Market, halt: KillSwitchSet, resume: KillSwitchSet, trade: u64)
    requires
        !m.killed,
        halt.state == KillSwitchState::Halt,
        resume.state == KillSwitchState::Resume,
    ensures
        outcome(
            outcome(m, Inbound::KillSwitchSet(halt), trade).market,
            Inbound::KillSwitchSet(resume),
            trade,
        ).market == m,
{
}

/// A snapshot request changes nothing and is answered by one message, even
/// while the kill switch is engaged.
pub proof fn snapshot_changes_nothing(m: Market, msg: SnapshotRequest, trade: u64)
    ensures
        outcome(m, Inbound::SnapshotRequest(msg), trade).market == m,
        message_count(m, Inbound::SnapshotRequest(msg), trade) == 1,
{
}

/// Only the owner of a resting order can cancel or amend it: anyone else is
/// told that the order is unknown, as if it did not exist.
pub proof fn strangers_are_refused(m: Market, msg: Inbound, trade: u64)
    requires
        risk_verdict(m, msg) is Ok,
        match msg {
            Inbound::CancelOrder(c) => !owns(m, c.key()),
            Inbound::CancelReplace(c) => !owns(m, c.key()),
            _ => false,
        },
    ensures
        refused(m, msg, trade, RejectReason::UnknownOrderId),
{
    refusal_is_all(m, msg, trade, RejectReason::UnknownOrderId);
}

/// A new order whose account already rests an order with its id is refused
/// before it touches the book, once risk lets it pass.
pub proof fn duplicate_id_refused(m: Market, msg: NewOrder, trade: u64)
    requires
        risk_verdict(m, Inbound::NewOrder(msg)) is Ok,
        owns(m, msg.key()),
    ensures
        refused(m, Inbound::NewOrder(msg), trade, RejectReason::DuplicateOrderId),
{
    refusal_is_all(m, Inbound::NewOrder(msg), trade, RejectReason::DuplicateOrderId);
}

/// A market order against an empty opposite side is refused.
pub proof fn market_order_in_empty_book_refused(m: Market, msg: NewOrder, trade: u64)
    requires
        !m.killed,
        msg.order_type == OrderType::Market,
        m.book.queue(msg.side.other()).len() == 0,
    ensures
        refused(m, Inbound::NewOrder(msg), trade, RejectReason::MarketOrderInEmptyBook),
{
    refusal_is_all(m, Inbound::NewOrder(msg), trade, RejectReason::MarketOrderInEmptyBook);
}

/// What risk refuses changes nothing, and is refused for the reason that
/// risk gives.
pub proof fn risk_refusal_changes_nothing(m: Market, msg: Inbound, trade: u64)
    requires
        risk_verdict(m, msg) is Err,
    ensures
        refused(m, msg, trade, risk_verdict(m, msg)->Err_0),
{
    refusal_is_all(m, msg, trade, risk_verdict(m, msg)->Err_0);
}

/// A post-only order never takes. If it would cross it is refused and
/// nothing changes; so is the amendment of a resting post-only order to a
/// price at which it would cross.
pub proof fn post_only_never_takes(m: Market, msg: Inbound, trade: u64)
    requires
        match msg {
            Inbound::NewOrder(n) => n.tif == Tif::PostOnly,
            Inbound::CancelReplace(c) => owns(m, c.key()) && m.book.lookup(c.key())->0.tif == Tif::PostOnly && m.book.wf(),
            _ => false,
        },
    ensures
        outcome(m, msg, trade).trades == 0,
        match msg {
            Inbound::NewOrder(n) => m.book.would_cross(n.side, n.price) && risk_verdict(
                m,
                msg,
            ) is Ok && !owns(m, n.key()) ==> refused(m, msg, trade, RejectReason::PostOnlyWouldCross),
            Inbound::CancelReplace(c) => m.book.would_cross(
                m.book.lookup(c.key())->0.side,
                Some(c.new_price),
            ) && risk_verdict(m, msg) is Ok ==> refused(
                m,
                msg,
                trade,
                RejectReason::PostOnlyWouldCross,
            ),
            _ => true,
        },
{
    if command(m, msg, trade) == refuse(
        m,
        refusal(msg, RejectReason::PostOnlyWouldCross)->0,
    ) {
        refusal_is_all(m, msg, trade, RejectReason::PostOnlyWouldCross);
    }
    match msg {
        Inbound::NewOrder(n) => {
            let taker = taker_of(n);
            if !m.book.would_cross(n.side, n.price) {
                no_cross_no_change(m.book, taker, trade);
            }
        },
        Inbound::CancelReplace(c) => {
            let o = m.book.lookup(c.key())->0;
            let taker = amended(o, c);
            if !m.book.would_cross(o.side, Some(c.new_price)) {
                without_keeps(m.book, c.key());
                no_cross_no_change(m.book.without(c.key()), taker, trade);
            }
        },
        _ => {},
    }
}

/// An immediate-or-cancel order and an order without a limit never rest:
/// their own side of the book stays as it is.
pub proof fn immediate_orders_never_rest(m: Market, msg: NewOrder, trade: u64)
    requires
        msg.tif == Tif::Ioc || msg.price is None,
    ensures
        outcome(m, Inbound::NewOrder(msg), trade).market.book.queue(msg.side) == m.book.queue(
            msg.side,
        ),
{
}

/// Cancel-both: when the walk of a new order meets an order of its own
/// account, that order leaves the book and the new order does not rest, and
/// the last two reports of the handler cancel the two of them. What was
/// filled before stays filled.
pub proof fn self_trade_cancels_both(m: Market, msg: NewOrder, trade: u64)
    requires
        risk_verdict(m, Inbound::NewOrder(msg)) is Ok,
        !owns(m, msg.key()),
        !post_only_crosses(m.book, taker_of(msg)),
        sweep(m.book, taker_of(msg), trade).self_trade is Some,
    ensures
        ({
            let w = sweep(m.book, taker_of(msg), trade);
            let o = new_order(m, msg, trade);
            let own = w.self_trade->0;
            &&& own.account_id == msg.account_id
            &&& o.market.book == swept(m.book, taker_of(msg), trade)
            &&& o.trades == w.fills.len()
            &&& o.events == fill_events(w.fills, taker_of(msg), msg.qty@) + seq![
                Event::cancelled(
                    own.order_id,
                    own.account_id,
                    CancelReason::SelfTradePrevented,
                ),
                Event::cancelled(
                    msg.order_id,
                    msg.account_id,
                    CancelReason::SelfTradePrevented,
                ),
            ]
        }),
{
    self_trade_is_own(m.book.queue(msg.side.other()), taker_of(msg), msg.qty@, trade);
}

/// The order that halts a walk belongs to the taker's account.
proof fn self_trade_is_own(
    makers: Seq<RestingOrder>,
    taker: AggressiveOrder,
    left: u64,
    trade: u64,
)
    ensures
        walk(makers, taker, left, trade).self_trade matches Some(o) ==> o.account_id
            == taker.account_id,
    decreases makers.len(),
{
    if makers.len() > 0 && left > 0 && crosses(taker.side, taker.price, makers[0].price)
        && makers[0].account_id != taker.account_id && makers[0].qty@ <= left {
        self_trade_is_own(
            makers.drop_first(),
            taker,
            (left - makers[0].qty@) as u64,
            (trade + 1) as u64,
        );
    }
}

/// The trade ids that a run of events publishes, in order.
pub open spec fn trade_ids(events: Seq<Event>) -> Seq<TradeId>
    decreases events.len(),
{
    if events.len() == 0 {
        Seq::empty()
    } else {
        (match events[0] {
            Event::Trade { trade_id, .. } => seq![trade_id],
            _ => Seq::empty(),
        }) + trade_ids(events.drop_first())
    }
}

/// Number of top-of-book events in a run.
pub open spec fn tops(events: Seq<Event>) -> nat
    decreases events.len(),
{
    if events.len() == 0 {
        0
    } else {
        (if events[0] is Top {
            1nat
        } else {
            0
        }) + tops(events.drop_first())
    }
}

/// Runs of events put together.
proof fn runs_add_up(a: Seq<Event>, b: Seq<Event>)
    ensures
        trade_ids(a + b) == trade_ids(a) + trade_ids(b),
        tops(a + b) == tops(a) + tops(b),
    decreases a.len(),
{
    if a.len() == 0 {
        assert(a + b =~= b);
        assert(trade_ids(a) + trade_ids(b) =~= trade_ids(b));
    } else {
        runs_add_up(a.drop_first(), b);
        assert((a + b).drop_first() =~= a.drop_first() + b);
        assert(trade_ids(a + b) =~= trade_ids(a) + trade_ids(b));
    }
}

/// A run without trades and tops.
proof fn quiet_run(events: Seq<Event>)
    requires
        forall|i: int|
            0 <= i < events.len() ==> !((#[trigger] events[i]) is Trade) && !(events[i] is Top),
    ensures
        trade_ids(events) == Seq::<TradeId>::empty(),
        tops(events) == 0,
    decreases events.len(),
{
    if events.len() > 0 {
        let rest = events.drop_first();
        assert forall|i: int| 0 <= i < rest.len() implies !((#[trigger] rest[i]) is Trade) && !(
        rest[i] is Top) by {
            assert(rest[i] == events[i + 1]);
        }
        quiet_run(rest);
        assert(trade_ids(events) =~= Seq::<TradeId>::empty());
    }
}

/// The trades that a run of fills publishes.
proof fn fill_run(fills: Seq<Fill>, taker: AggressiveOrder, left: u64)
    ensures
        trade_ids(fill_events(fills, taker, left)) == Seq::new(
            fills.len(),
            |i: int| fills[i].trade_id,
        ),
        tops(fill_events(fills, taker, left)) == 0,
    decreases fills.len(),
{
    let all = fill_events(fills, taker, left);
    if fills.len() > 0 {
        let after = (left - fills[0].qty@) as u64;
        let rest = fill_events(fills.drop_first(), taker, after);
        let head = seq![
            Event::trade(fills[0], taker.side),
            Event::maker_filled(fills[0]),
            Event::taker_filled(taker, fills[0], leaves(after)),
        ];
        fill_run(fills.drop_first(), taker, after);
        runs_add_up(head, rest);
        assert(head.drop_first().drop_first().drop_first() =~= Seq::<Event>::empty());
        reveal_with_fuel(trade_ids, 4);
        reveal_with_fuel(tops, 4);
        assert(trade_ids(head) =~= seq![fills[0].trade_id]);
        assert(trade_ids(all) =~= Seq::new(fills.len(), |i: int| fills[i].trade_id));
    } else {
        assert(trade_ids(all) =~= Seq::new(fills.len(), |i: int| fills[i].trade_id));
    }
}

/// The changes of a side are deltas, whatever the lists.
proof fn changes_are_deltas(side: Side, pre: Seq<Level>, post: Seq<Level>)
    ensures
        forall|i: int|
            0 <= i < changes(side, pre, post).len() ==> (#[trigger] changes(side, pre, post)[i]) is Delta,
    decreases pre.len() + post.len(),
{
    if pre.len() == 0 && post.len() == 0 {
    } else if post.len() == 0 || (pre.len() > 0 && pre[0].price@ < post[0].price@) {
        changes_are_deltas(side, pre.drop_first(), post);
    } else if pre.len() == 0 || post[0].price@ < pre[0].price@ {
        changes_are_deltas(side, pre, post.drop_first());
    } else {
        changes_are_deltas(side, pre.drop_first(), post.drop_first());
    }
}

/// What the handler of a command publishes: one trade per fill, numbered
/// without a gap from `trade`, and no top of book.
proof fn command_run(m: Market, msg: Inbound, trade: u64)
    requires
        m.book.wf(),
        trade + command(m, msg, trade).trades <= u64::MAX,
    ensures
        ({
            let o = command(m, msg, trade);
            &&& trade_ids(o.events) == Seq::new(
                o.trades,
                |i: int| TradeId::of((trade + i) as u64),
            )
            &&& tops(o.events) == 0
        }),
{
    let o = command(m, msg, trade);
    let ids = Seq::new(o.trades, |i: int| TradeId::of((trade + i) as u64));
    match msg {
        Inbound::NewOrder(n) => {
            let taker = taker_of(n);
            let done = execute(m, taker, trade);
            let verdict = risk_verdict(m, msg);
            if verdict is Err || owns(m, n.key()) || post_only_crosses(m.book, taker) {
                quiet_run(o.events);
                assert(ids =~= Seq::<TradeId>::empty());
            } else {
                execute_run(m, taker, trade);
                let placed = place(done, taker, residue(m, taker, trade));
                if placed.events != done.events {
                    let last = placed.events.last();
                    assert(placed.events =~= done.events + seq![last]);
                    runs_add_up(done.events, seq![last]);
                    quiet_run(seq![last]);
                    assert(trade_ids(placed.events) =~= trade_ids(done.events));
                }
            }
        },
        Inbound::CancelReplace(c) => {
            if o.trades == 0 && !(o.events.len() > 1) {
                quiet_run(o.events);
                assert(ids =~= Seq::<TradeId>::empty());
            } else {
                let old = m.book.lookup(c.key())->0;
                let gone = Market { book: m.book.without(c.key()), ..m };
                let taker = amended(old, c);
                without_keeps(m.book, c.key());
                execute_run(gone, taker, trade);
                let ack = seq![Event::replaced(c.order_id, c.account_id, c.new_qty)];
                quiet_run(ack);
                runs_add_up(ack, execute(gone, taker, trade).events);
                assert(trade_ids(o.events) =~= ids);
            }
        },
        _ => {
            quiet_run(o.events);
            assert(ids =~= Seq::<TradeId>::empty());
        },
    }
}

/// What executing a taker publishes.
proof fn execute_run(m: Market, taker: AggressiveOrder, trade: u64)
    requires
        m.book.wf(),
        trade + execute(m, taker, trade).trades <= u64::MAX,
    ensures
        ({
            let o = execute(m, taker, trade);
            &&& trade_ids(o.events) == Seq::new(
                o.trades,
                |i: int| TradeId::of((trade + i) as u64),
            )
            &&& tops(o.events) == 0
        }),
{
    let w = sweep(m.book, taker, trade);
    let tail = self_trade_events(w.self_trade, taker);
    fill_run(w.fills, taker, taker.qty@);
    quiet_run(tail);
    runs_add_up(fill_events(w.fills, taker, taker.qty@), tail);
    fills_follow_queue(m.book.queue(taker.side.other()), taker, taker.qty@, trade);
    assert(trade_ids(execute(m, taker, trade).events) =~= Seq::new(
        w.fills.len(),
        |i: int| TradeId::of((trade + i) as u64),
    ));
}

/// Every fill is published as exactly one trade, and the trades are numbered
/// without a gap. A command that may change the book publishes its top
/// exactly once, as the very last event; no other command publishes it.
pub proof fn one_trade_per_fill_and_one_top(m: Market, msg: Inbound, trade: u64)
    requires
        m.book.wf(),
        trade + outcome(m, msg, trade).trades <= u64::MAX,
    ensures
        ({
            let o = outcome(m, msg, trade);
            &&& trade_ids(o.events) == Seq::new(
                o.trades,
                |i: int| TradeId::of((trade + i) as u64),
            )
            &&& tops(o.events) == (if is_book_command(msg) {
                1nat
            } else {
                0
            })
            &&& is_book_command(msg) ==> o.events.len() > 0 && o.events.last() == top(
                o.market.book,
            )
        }),
{
    command_run(m, msg, trade);
    if is_book_command(msg) {
        let c = command(m, msg, trade);
        let o = outcome(m, msg, trade);
        let d = deltas(m.book, c.market.book);
        let t = seq![top(c.market.book)];
        changes_are_deltas(
            Side::Bid,
            ascending(m.book, Side::Bid),
            ascending(c.market.book, Side::Bid),
        );
        changes_are_deltas(
            Side::Ask,
            ascending(m.book, Side::Ask),
            ascending(c.market.book, Side::Ask),
        );
        quiet_run(d);
        assert(d.push(top(c.market.book)) =~= d + t);
        runs_add_up(d, t);
        runs_add_up(c.events, d + t);
        assert(t.drop_first() =~= Seq::<Event>::empty());
        reveal_with_fuel(trade_ids, 2);
        reveal_with_fuel(tops, 2);
        assert(trade_ids(t) =~= Seq::<TradeId>::empty());
        assert(trade_ids(o.events) =~= trade_ids(c.events));
    }
}

/// A run of messages that carry consecutive sequence numbers from `first`.
pub open spec fn numbered(log: Seq<OutboundView>, first: u64) -> bool {
    forall|i: int| 0 <= i < log.len() ==> seq_of(#[trigger] log[i])@ == first + i
}

/// A command's messages go on with the numbers of the stream: a stream that
/// carries consecutive numbers still does once they are appended.
pub proof fn stream_has_no_gap<C: Clock>(
    clock: C,
    m: Market,
    msg: Inbound,
    trade: u64,
    first: u64,
    recv: RecvTs,
    log: Seq<OutboundView>,
    new: Seq<OutboundView>,
)
    requires
        numbered(log, first),
        first + log.len() + new.len() <= u64::MAX,
        answers(clock, m, msg, trade, (first + log.len()) as u64, recv, new),
    ensures
        numbered(log + new, first),
{
    sequence_has_no_gap(clock, m, msg, trade, (first + log.len()) as u64, recv, new);
}

/// The messages of a command carry consecutive sequence numbers.
pub proof fn sequence_has_no_gap<C: Clock>(
    clock: C,
    m: Market,
    msg: Inbound,
    trade: u64,
    first: u64,
    recv: RecvTs,
    new: Seq<OutboundView>,
)
    requires
        answers(clock, m, msg, trade, first, recv, new),
        first + new.len() <= u64::MAX,
    ensures
        numbered(new, first),
{
    assert forall|i: int| 0 <= i < new.len() implies seq_of(#[trigger] new[i])@ == first + i by {
        assert(new[i] == message(
            m,
            msg,
            trade,
            i,
            (first + i) as u64,
            recv,
            emit_ts(new[i]),
        ));
    }
}

} // verus!
