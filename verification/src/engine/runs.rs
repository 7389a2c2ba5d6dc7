//! What holds over any run of commands.

use vstd::prelude::*;

use crate::domain::consts::{MAX_NOTIONAL_PER_ACCT, MAX_OPEN_ORDERS_PER_ACCT};
use crate::domain::{
    group_newtypes, AccountId, Clock, EngineSeq, ExecState, RecvTs, RejectReason, Side,
};
use crate::engine::engine::{answers, emit_ts, message_count, seq_of, stamped};
use crate::engine::event::Event;
use crate::engine::laws::{
    in_domain, kill_switch_refuses_all, numbered, opening_sound, outcome_sound, refused,
    sequence_has_no_gap,
};
use crate::engine::model::{is_book_command, outcome, Market, Outcome};
use crate::wire::inbound::{Inbound, KillSwitchState};
use crate::wire::outbound::OutboundView;

verus! {

broadcast use group_newtypes;

/// What a run of commands comes to, trades being numbered from `trade`.
pub open spec fn run(m: Market, msgs: Seq<Inbound>, trade: u64) -> Outcome
    decreases msgs.len(),
{
    if msgs.len() == 0 {
        Outcome { market: m, events: Seq::empty(), trades: 0 }
    } else {
        let first = outcome(m, msgs[0], trade);
        let rest = run(first.market, msgs.drop_first(), (trade + first.trades) as u64);
        Outcome {
            market: rest.market,
            events: first.events + rest.events,
            trades: first.trades + rest.trades,
        }
    }
}

/// A run with one more command at its end.
#[verifier::spinoff_prover]
#[verifier::rlimit(30)]
pub proof fn run_push(m: Market, msgs: Seq<Inbound>, msg: Inbound, trade: u64)
    requires
        trade + run(m, msgs, trade).trades <= u64::MAX,
    ensures
        ({
            let r = run(m, msgs, trade);
            let o = outcome(r.market, msg, (trade + r.trades) as u64);
            run(m, msgs.push(msg), trade) == (Outcome {
                market: o.market,
                events: r.events + o.events,
                trades: r.trades + o.trades,
            })
        }),
    decreases msgs.len(),
{
    let none = Seq::<Event>::empty();
    let all = msgs.push(msg);
    if msgs.len() == 0 {
        let o = outcome(m, msg, trade);
        assert(all.drop_first() =~= Seq::<Inbound>::empty());
        assert(run(o.market, all.drop_first(), (trade + o.trades) as u64).events == none);
        assert(o.events + none =~= none + o.events);
    } else {
        let first = outcome(m, msgs[0], trade);
        let next = (trade + first.trades) as u64;
        let rest = run(first.market, msgs.drop_first(), next);
        run_push(first.market, msgs.drop_first(), msg, next);
        assert(all.drop_first() =~= msgs.drop_first().push(msg));
        let o = outcome(rest.market, msg, (next + rest.trades) as u64);
        assert(first.events + (rest.events + o.events) =~= first.events + rest.events + o.events);
    }
}

/// Every run of commands keeps a market sound.
pub proof fn run_sound(m: Market, msgs: Seq<Inbound>, trade: u64)
    requires
        m.sound(),
        forall|i: int| 0 <= i < msgs.len() ==> in_domain(#[trigger] msgs[i]),
    ensures
        run(m, msgs, trade).market.sound(),
    decreases msgs.len(),
{
    if msgs.len() > 0 {
        let first = outcome(m, msgs[0], trade);
        let rest = msgs.drop_first();
        assert(in_domain(msgs[0]));
        assert forall|i: int| 0 <= i < rest.len() implies in_domain(#[trigger] rest[i]) by {
            assert(rest[i] == msgs[i + 1]);
        }
        outcome_sound(m, msgs[0], trade);
        run_sound(first.market, rest, (trade + first.trades) as u64);
    }
}

/// Whatever commands a fresh engine has carried out, no account has more
/// than its caps allow on the book.
pub proof fn caps_always_hold(msgs: Seq<Inbound>, trade: u64, account: AccountId)
    requires
        forall|i: int| 0 <= i < msgs.len() ==> in_domain(#[trigger] msgs[i]),
    ensures
        ({
            let book = run(Market::opening(), msgs, trade).market.book;
            &&& book.open_orders(account) <= MAX_OPEN_ORDERS_PER_ACCT
            &&& book.exposure(account) <= MAX_NOTIONAL_PER_ACCT
        }),
{
    opening_sound();
    run_sound(Market::opening(), msgs, trade);
}

/// Whatever commands a fresh engine has carried out, the book is neither
/// locked nor crossed.
pub proof fn never_locked_or_crossed(msgs: Seq<Inbound>, trade: u64)
    requires
        forall|i: int| 0 <= i < msgs.len() ==> in_domain(#[trigger] msgs[i]),
    ensures
        ({
            let book = run(Market::opening(), msgs, trade).market.book;
            book.best(Side::Bid) is Some && book.best(Side::Ask) is Some ==> book.best(
                Side::Bid,
            )->0@ < book.best(Side::Ask)->0@
        }),
{
    opening_sound();
    run_sound(Market::opening(), msgs, trade);
    let book = run(Market::opening(), msgs, trade).market.book;
    if book.bids.len() > 0 && book.asks.len() > 0 {
        assert(book.bids[0].price@ < book.asks[0].price@);
    }
}

/// `log` is what an engine publishes while it carries out a run of commands,
/// trades being numbered from `trade` and messages from `first`. `clocks`
/// are its clock as it stands at each of them.
pub open spec fn published<C: Clock>(
    clocks: Seq<C>,
    m: Market,
    msgs: Seq<Inbound>,
    trade: u64,
    first: u64,
    log: Seq<OutboundView>,
) -> bool
    decreases msgs.len(),
{
    if msgs.len() == 0 {
        log.len() == 0
    } else {
        let o = outcome(m, msgs[0], trade);
        let n = message_count(m, msgs[0], trade);
        &&& n <= log.len()
        &&& exists|recv: RecvTs| #[trigger]
            answers(clocks[0], m, msgs[0], trade, first, recv, log.take(n as int))
        &&& published(
            clocks.drop_first(),
            o.market,
            msgs.drop_first(),
            (trade + o.trades) as u64,
            (first + n) as u64,
            log.skip(n as int),
        )
    }
}

/// One more step: what an engine has published, with what it publishes for
/// one more command, is what it publishes for the longer run.
#[verifier::spinoff_prover]
#[verifier::rlimit(30)]
pub proof fn step_extends_run<C: Clock>(
    clocks: Seq<C>,
    m: Market,
    msgs: Seq<Inbound>,
    trade: u64,
    first: u64,
    log: Seq<OutboundView>,
    clock: C,
    msg: Inbound,
    recv: RecvTs,
    new: Seq<OutboundView>,
)
    requires
        clocks.len() == msgs.len(),
        published(clocks, m, msgs, trade, first, log),
        trade + run(m, msgs, trade).trades <= u64::MAX,
        first + log.len() <= u64::MAX,
        answers(
            clock,
            run(m, msgs, trade).market,
            msg,
            (trade + run(m, msgs, trade).trades) as u64,
            (first + log.len()) as u64,
            recv,
            new,
        ),
    ensures
        published(clocks.push(clock), m, msgs.push(msg), trade, first, log + new),
    decreases msgs.len(),
{
    let all = msgs.push(msg);
    let whole = log + new;
    if msgs.len() == 0 {
        assert(whole =~= new);
        assert(whole.take(new.len() as int) =~= new);
        assert(clocks.push(clock)[0] == clock);
        assert(answers(clock, m, all[0], trade, first, recv, whole.take(new.len() as int)));
        let o = outcome(m, msg, trade);
        assert(all[0] == msg);
        assert(all.drop_first().len() == 0);
        assert(whole.skip(new.len() as int).len() == 0);
        assert(published(
            clocks.push(clock).drop_first(),
            o.market,
            all.drop_first(),
            (trade + o.trades) as u64,
            (first + new.len()) as u64,
            whole.skip(new.len() as int),
        ));
    } else {
        let o = outcome(m, msgs[0], trade);
        let n = message_count(m, msgs[0], trade) as int;
        let r = choose|r: RecvTs| #[trigger]
            answers(clocks[0], m, msgs[0], trade, first, r, log.take(n));
        assert(whole.take(n) =~= log.take(n));
        assert(whole.skip(n) =~= log.skip(n) + new);
        assert(clocks.push(clock)[0] == clocks[0]);
        assert(all[0] == msgs[0]);
        assert(answers(clocks.push(clock)[0], m, all[0], trade, first, r, whole.take(n)));
        assert(all.drop_first() =~= msgs.drop_first().push(msg));
        assert(clocks.push(clock).drop_first() =~= clocks.drop_first().push(clock));
        step_extends_run(
            clocks.drop_first(),
            o.market,
            msgs.drop_first(),
            (trade + o.trades) as u64,
            (first + n) as u64,
            log.skip(n),
            clock,
            msg,
            recv,
            new,
        );
    }
}

/// Over any run of commands the messages carry consecutive sequence numbers:
/// none is missing and none occurs twice.
#[verifier::spinoff_prover]
#[verifier::rlimit(30)]
pub proof fn run_is_numbered<C: Clock>(
    clocks: Seq<C>,
    m: Market,
    msgs: Seq<Inbound>,
    trade: u64,
    first: u64,
    log: Seq<OutboundView>,
)
    requires
        published(clocks, m, msgs, trade, first, log),
        first + log.len() <= u64::MAX,
    ensures
        numbered(log, first),
    decreases msgs.len(),
{
    if msgs.len() > 0 {
        let o = outcome(m, msgs[0], trade);
        let n = message_count(m, msgs[0], trade) as int;
        let new = log.take(n);
        let rest = log.skip(n);
        let recv = choose|recv: RecvTs| #[trigger]
            answers(clocks[0], m, msgs[0], trade, first, recv, new);
        sequence_has_no_gap(clocks[0], m, msgs[0], trade, first, recv, new);
        run_is_numbered(
            clocks.drop_first(),
            o.market,
            msgs.drop_first(),
            (trade + o.trades) as u64,
            (first + n) as u64,
            rest,
        );
        assert forall|i: int| 0 <= i < log.len() implies seq_of(#[trigger] log[i])@ == first
            + i by {
            if i < n {
                assert(log[i] == new[i]);
            } else {
                assert(log[i] == rest[i - n]);
            }
        }
    }
}

/// Where the kill switch stands after a run of commands: where the last of
/// them that set it put it.
pub open spec fn halted(msgs: Seq<Inbound>, before: bool) -> bool
    decreases msgs.len(),
{
    if msgs.len() == 0 {
        before
    } else {
        match msgs.last() {
            Inbound::KillSwitchSet(k) => k.state == KillSwitchState::Halt,
            _ => halted(msgs.drop_last(), before),
        }
    }
}

/// Commands that do not set the kill switch leave it as it is; over a run it
/// stands where it was last put.
pub proof fn switch_stays_where_it_was_put(m: Market, msgs: Seq<Inbound>, trade: u64)
    requires
        trade + run(m, msgs, trade).trades <= u64::MAX,
    ensures
        run(m, msgs, trade).market.killed == halted(msgs, m.killed),
    decreases msgs.len(),
{
    if msgs.len() > 0 {
        let front = msgs.drop_last();
        assert(front.push(msgs.last()) =~= msgs);
        run_trades_grow(m, front, msgs.last(), trade);
        run_push(m, front, msgs.last(), trade);
        switch_stays_where_it_was_put(m, front, trade);
    }
}

/// A run with one more command has no fewer trades.
proof fn run_trades_grow(m: Market, msgs: Seq<Inbound>, msg: Inbound, trade: u64)
    ensures
        run(m, msgs, trade).trades <= run(m, msgs.push(msg), trade).trades,
    decreases msgs.len(),
{
    if msgs.len() > 0 {
        let first = outcome(m, msgs[0], trade);
        run_trades_grow(
            first.market,
            msgs.drop_first(),
            msg,
            (trade + first.trades) as u64,
        );
        assert(msgs.push(msg).drop_first() =~= msgs.drop_first().push(msg));
    }
}

/// Once a run of commands has left the kill switch engaged, the next client
/// command is answered by exactly two messages, a `Rejected{KillSwitched}`
/// report and the top of the unchanged book, and changes nothing.
#[verifier::spinoff_prover]
#[verifier::rlimit(30)]
pub proof fn halt_is_answered<C: Clock>(
    clock: C,
    m: Market,
    msgs: Seq<Inbound>,
    trade: u64,
    msg: Inbound,
    first: u64,
    recv: RecvTs,
    new: Seq<OutboundView>,
)
    requires
        halted(msgs, m.killed),
        is_book_command(msg),
        trade + run(m, msgs, trade).trades <= u64::MAX,
        answers(
            clock,
            run(m, msgs, trade).market,
            msg,
            (trade + run(m, msgs, trade).trades) as u64,
            first,
            recv,
            new,
        ),
    ensures
        ({
            let now = run(m, msgs, trade).market;
            let t = (trade + run(m, msgs, trade).trades) as u64;
            &&& refused(now, msg, t, RejectReason::KillSwitched)
            &&& new.len() == 2
            &&& new[0] matches OutboundView::ExecReport(r) && {
                &&& r.engine_seq == EngineSeq::of(first)
                &&& r.state == ExecState::Rejected
                &&& r.reject_reason == Some(RejectReason::KillSwitched)
                &&& r.fill_price is None
                &&& r.fill_qty is None
                &&& r.leaves_qty is None
                &&& r.cancel_reason is None
            }
            &&& new[1] is BookUpdateTop
            &&& outcome(now, msg, t).market == now
        }),
{
    let now = run(m, msgs, trade).market;
    let t = (trade + run(m, msgs, trade).trades) as u64;
    switch_stays_where_it_was_put(m, msgs, trade);
    kill_switch_refuses_all(now, msg, t);
    let events = outcome(now, msg, t).events;
    assert(new[0] == stamped(events[0], first, recv, emit_ts(new[0])));
    assert(new[1] == stamped(events[1], (first + 1) as u64, recv, emit_ts(new[1])));
}

} // verus!
