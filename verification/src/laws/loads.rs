//! What a generated load and a made recording consist of.

use vstd::prelude::*;

use crate::domain::{group_newtypes, OrderType, Side, Tif};
use crate::fixture::{cancel_record, order_record};
use crate::wire::inbound::{framed, CancelOrder, Inbound, NewOrder};
use crate::workload::{command_of, lcg, load, next_op, ops_from, LoadState, Op};

verus! {

broadcast use group_newtypes;

/// A draw multiplies by a fixed number and adds one, modulo two to the power
/// of 64.
pub open spec fn draw(x: int) -> int {
    (x * 6_364_136_223_846_793_005 + 1) % 0x1_0000_0000_0000_0000
}

/// The generator draws so.
pub proof fn generator_draws(x: u64)
    ensures
        lcg(x) == draw(x as int),
{
}

/// Five draws decide an operation. The first, modulo a hundred, decides what
/// it is: below 20 a cancel, if any added order is left to cancel; else below
/// 30 an aggressive order; else an added order. The second gives one of eight
/// accounts, the third the side, the fourth a quantity from 1 to 9. The fifth
/// picks the order to cancel, or the aggressive price; an added order needs
/// none and stands at 90 for a bid and at 110 for an ask. New orders take
/// the next id; a cancel takes its order out of those left to cancel.
pub proof fn operations_are_drawn(s: LoadState)
    requires
        s.next_id < u64::MAX,
    ensures
        ({
            let a = draw(s.rng as int);
            let b = draw(a);
            let c = draw(b);
            let d = draw(c);
            let e = draw(d);
            let (op, t) = next_op(s);
            match op {
                Op::Cancel { id, account } => {
                    let i = (e as u64 as usize) as int % s.active.len() as int;
                    &&& a % 100 < 20 && s.active.len() > 0
                    &&& id == s.active[i]
                    &&& account == b % 8 + 1
                    &&& t.rng == e
                    &&& t.next_id == s.next_id
                    &&& t.active.len() == s.active.len() - 1
                    &&& forall|k: int|
                        0 <= k < t.active.len() ==> #[trigger] t.active[k] == (if k == i {
                            s.active.last()
                        } else {
                            s.active[k]
                        })
                },
                Op::Aggressive { id, account, side, price, qty } => {
                    &&& a % 100 < 30 && (a % 100 >= 20 || s.active.len() == 0)
                    &&& id == s.next_id
                    &&& account == b % 8 + 1
                    &&& side == Side::Bid <==> c % 2 == 0
                    &&& qty == d % 9 + 1
                    &&& e < 0x8000_0000_0000_0000 ==> price == 90 + e % 21
                    &&& e >= 0x8000_0000_0000_0000 ==> price == 90 - (0x1_0000_0000_0000_0000 - e)
                        % 21
                    &&& t.rng == e
                    &&& t.next_id == s.next_id + 1
                    &&& t.active == s.active
                },
                Op::Add { id, account, side, price, qty } => {
                    &&& a % 100 >= 30
                    &&& id == s.next_id
                    &&& account == b % 8 + 1
                    &&& side == Side::Bid <==> c % 2 == 0
                    &&& price == (if side == Side::Bid {
                        90int
                    } else {
                        110
                    })
                    &&& qty == d % 9 + 1
                    &&& t.rng == d
                    &&& t.next_id == s.next_id + 1
                    &&& t.active == s.active.push(s.next_id)
                },
            }
        }),
{
    let r5 = lcg(lcg(lcg(lcg(lcg(s.rng)))));
    assert(r5 < 0x8000_0000_0000_0000u64 ==> (r5 as i64) == r5) by (bit_vector);
    assert(r5 >= 0x8000_0000_0000_0000u64 ==> (r5 as i64) == r5 - 0x1_0000_0000_0000_0000)
        by (bit_vector);
}

/// A load starts from the seed with id 1 and nothing to cancel, and each
/// operation is drawn where the one before it left off.
pub proof fn loads_are_drawn_in_turn(s: LoadState, n: nat, seed: u64)
    ensures
        load(n, seed) == ops_from(LoadState { rng: seed, next_id: 1, active: Seq::empty() }, n),
        ops_from(s, 0).len() == 0,
        n > 0 ==> ops_from(s, n)[0] == next_op(s).0,
        n > 0 ==> ops_from(s, n).skip(1) == ops_from(next_op(s).1, (n - 1) as nat),
{
    if n > 0 {
        assert(ops_from(s, n).skip(1) =~= ops_from(next_op(s).1, (n - 1) as nat));
    }
}

/// An operation becomes the command that it says: a good-til-cancel limit
/// order, or a cancel, with client time zero.
pub proof fn operations_become_commands(op: Op)
    ensures
        match (op, command_of(op)) {
            (Op::Add { id, account, side, price, qty }, Inbound::NewOrder(m)) => {
                &&& m.client_ts@ == 0
                &&& m.order_id@ == id
                &&& m.account_id@ == account
                &&& m.side == side
                &&& m.order_type == OrderType::Limit
                &&& m.tif == Tif::Gtc
                &&& m.price matches Some(p) && p@ == price
                &&& m.qty@ == qty
            },
            (Op::Aggressive { id, account, side, price, qty }, Inbound::NewOrder(m)) => {
                &&& m.client_ts@ == 0
                &&& m.order_id@ == id
                &&& m.account_id@ == account
                &&& m.side == side
                &&& m.order_type == OrderType::Limit
                &&& m.tif == Tif::Gtc
                &&& m.price matches Some(p) && p@ == price
                &&& m.qty@ == qty
            },
            (Op::Cancel { id, account }, Inbound::CancelOrder(m)) => {
                &&& m.client_ts@ == 0
                &&& m.order_id@ == id
                &&& m.account_id@ == account
            },
            _ => false,
        },
{
}

/// A record of an order is the frame of a good-til-cancel limit order with
/// these fields and client time zero, and the time at which it came in.
pub proof fn order_records_hold_the_order(
    id: u64,
    account: u32,
    side: Side,
    price: i64,
    qty: u64,
    recv_ts: i64,
    m: NewOrder,
)
    requires
        m.client_ts@ == 0,
        m.order_id@ == id,
        m.account_id@ == account,
        m.side == side,
        m.order_type == OrderType::Limit,
        m.tif == Tif::Gtc,
        m.price matches Some(p) && p@ == price,
        m.qty@ == qty,
    ensures
        order_record(id, account, side, price, qty, recv_ts).frame == framed(
            Inbound::NewOrder(m),
        ),
        order_record(id, account, side, price, qty, recv_ts).recv_ts@ == recv_ts,
{
}

/// A record of a cancel is the frame of a cancel with these fields and
/// client time zero, and the time at which it came in.
pub proof fn cancel_records_hold_the_cancel(id: u64, account: u32, recv_ts: i64, m: CancelOrder)
    requires
        m.client_ts@ == 0,
        m.order_id@ == id,
        m.account_id@ == account,
    ensures
        cancel_record(id, account, recv_ts).frame == framed(Inbound::CancelOrder(m)),
        cancel_record(id, account, recv_ts).recv_ts@ == recv_ts,
{
}

} // verus!
