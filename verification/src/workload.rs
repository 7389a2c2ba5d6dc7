//! Synthetic order flow for load tests: a fixed mix of adds, cancels and
//! aggressive orders, drawn from a seeded generator.

use vstd::prelude::*;

use crate::domain::{
    group_newtypes, AccountId, ClientTs, OrderId, OrderType, Price, Qty, Side, Tif,
};
use crate::wire::inbound::{CancelOrder, Inbound, NewOrder};

verus! {

broadcast use group_newtypes;

/// Number of accounts that trade.
pub const ACCOUNT_COUNT: u64 = 8;

/// Price at which bids are added.
pub const PRICE_LOW: i64 = 90;

/// Price at which asks are added.
pub const PRICE_HIGH: i64 = 110;

/// Multiplier of the generator.
pub const LCG_MULTIPLIER: u64 = 6_364_136_223_846_793_005;

/// The state after `x`, modulo two to the power of 64.
pub open spec fn lcg(x: u64) -> u64 {
    ((x * LCG_MULTIPLIER + 1) % 0x1_0000_0000_0000_0000) as u64
}

/// Linear congruential generator.
#[derive(Debug)]
pub struct Lcg {
    state: u64,
}

impl Lcg {
    /// Current state.
    pub closed spec fn state(&self) -> u64 {
        self.state
    }

    /// A generator that starts from `seed`.
    pub fn new(seed: u64) -> (r: Lcg)
        ensures
            r.state() == seed,
    {
        Lcg { state: seed }
    }

    /// Draws the next number, which is also the new state.
    pub fn next(&mut self) -> (r: u64)
        ensures
            r == lcg(old(self).state()),
            final(self).state() == r,
    {
        let x: u64 = self.state;
        let y: u64 = x.wrapping_mul(LCG_MULTIPLIER).wrapping_add(1);
        proof {
            lcg_wraps(x);
        }
        self.state = y;
        y
    }
}

/// Wrapping after each operation is wrapping at the end.
proof fn lcg_wraps(x: u64)
    ensures
        x.wrapping_mul(LCG_MULTIPLIER).wrapping_add(1) == lcg(x),
{
    let p = x * LCG_MULTIPLIER;
    let w = x.wrapping_mul(LCG_MULTIPLIER);
    assert(w == p % 0x1_0000_0000_0000_0000);
    wrapped_increment(p);
}

/// Wrapping before and after an increment is wrapping after it.
proof fn wrapped_increment(p: int)
    requires
        p >= 0,
    ensures
        (p + 1) % 0x1_0000_0000_0000_0000 == (p % 0x1_0000_0000_0000_0000 + 1)
            % 0x1_0000_0000_0000_0000,
{
}

/// One operation of the load.
#[derive(Debug, Clone, Copy, PartialEq, Eq, Structural)]
pub enum Op {
    /// A resting order, away from the other side.
    Add {
        /// Order id.
        id: u64,
        /// Owner.
        account: u32,
        /// Side.
        side: Side,
        /// Limit price.
        price: i64,
        /// Quantity.
        qty: u64,
    },
    /// A cancel of an order that was added before.
    Cancel {
        /// Order id.
        id: u64,
        /// Account that asks.
        account: u32,
    },
    /// An order that may cross.
    Aggressive {
        /// Order id.
        id: u64,
        /// Owner.
        account: u32,
        /// Side.
        side: Side,
        /// Limit price.
        price: i64,
        /// Quantity.
        qty: u64,
    },
}

/// Where the generation of a load stands.
pub struct LoadState {
    /// State of the generator.
    pub rng: u64,
    /// Next order id.
    pub next_id: u64,
    /// Ids that were added and not yet cancelled.
    pub active: Seq<u64>,
}

/// Remainder that takes the sign of the dividend.
pub open spec fn signed_rem(v: i64, n: int) -> int {
    if v >= 0 {
        v as int % n
    } else {
        -((-v) % n)
    }
}

/// The next operation and the state after it. Of a hundred draws, the first
/// twenty cancel if there is anything to cancel, any other up to thirty is
/// aggressive, and the rest add.
pub open spec fn next_op(s: LoadState) -> (Op, LoadState) {
    let r1 = lcg(s.rng);
    let r2 = lcg(r1);
    let r3 = lcg(r2);
    let r4 = lcg(r3);
    let r5 = lcg(r4);
    let account = (r2 % ACCOUNT_COUNT + 1) as u32;
    let side = if r3 % 2 == 0 {
        Side::Bid
    } else {
        Side::Ask
    };
    let qty = (r4 % 9 + 1) as u64;
    if r1 % 100 < 20 && s.active.len() > 0 {
        let i = (r5 as usize) as int % s.active.len() as int;
        (
            Op::Cancel { id: s.active[i], account },
            LoadState {
                rng: r5,
                next_id: s.next_id,
                active: s.active.update(i, s.active.last()).drop_last(),
            },
        )
    } else if r1 % 100 < 30 {
        let price = (PRICE_LOW + signed_rem(r5 as i64, PRICE_HIGH - PRICE_LOW + 1)) as i64;
        (
            Op::Aggressive { id: s.next_id, account, side, price, qty },
            LoadState { rng: r5, next_id: (s.next_id + 1) as u64, active: s.active },
        )
    } else {
        let price = match side {
            Side::Bid => PRICE_LOW,
            Side::Ask => PRICE_HIGH,
        };
        (
            Op::Add { id: s.next_id, account, side, price, qty },
            LoadState {
                rng: r4,
                next_id: (s.next_id + 1) as u64,
                active: s.active.push(s.next_id),
            },
        )
    }
}

/// The first `n` operations from a state on.
pub open spec fn ops_from(s: LoadState, n: nat) -> Seq<Op>
    decreases n,
{
    if n == 0 {
        Seq::empty()
    } else {
        let (op, next) = next_op(s);
        seq![op] + ops_from(next, (n - 1) as nat)
    }
}

/// The load of `n` operations that a seed stands for.
pub open spec fn load(n: nat, seed: u64) -> Seq<Op> {
    ops_from(LoadState { rng: seed, next_id: 1, active: Seq::empty() }, n)
}

/// Draws a price for an aggressive order.
fn draw_price(draw: u64) -> (r: i64)
    ensures
        r == PRICE_LOW + signed_rem(draw as i64, PRICE_HIGH - PRICE_LOW + 1),
        70 <= r <= 110,
{
    let v: i128 = (#[verifier::truncate]
    (draw as i64)) as i128;
    let span: i128 = (PRICE_HIGH - PRICE_LOW + 1) as i128;
    let rem: i128 = if v >= 0 {
        v % span
    } else {
        -((-v) % span)
    };
    PRICE_LOW + rem as i64
}

/// Generates the load of `n` operations that a seed stands for.
pub fn generate_ops(n: u64, seed: u64) -> (r: Vec<Op>)
    requires
        n < u64::MAX,
    ensures
        r@ == load(n as nat, seed),
{
    let mut rng = Lcg::new(seed);
    let mut ops: Vec<Op> = Vec::new();
    let mut next_id: u64 = 1;
    let mut active: Vec<u64> = Vec::new();
    let mut k: u64 = 0;
    proof {
        assert(Seq::<Op>::empty() + load(n as nat, seed) =~= load(n as nat, seed));
        assert(active@ =~= Seq::<u64>::empty());
    }
    while k < n
        invariant
            k <= n < u64::MAX,
            1 <= next_id <= k + 1,
            load(n as nat, seed) == ops@ + ops_from(
                LoadState { rng: rng.state(), next_id, active: active@ },
                (n - k) as nat,
            ),
        decreases n - k,
    {
        let ghost s = LoadState { rng: rng.state(), next_id, active: active@ };
        let ghost before = ops@;
        let r: u64 = rng.next() % 100;
        let account: u32 = (rng.next() % ACCOUNT_COUNT + 1) as u32;
        let side = if rng.next() % 2 == 0 {
            Side::Bid
        } else {
            Side::Ask
        };
        let qty: u64 = rng.next() % 9 + 1;
        if r < 20 && active.len() > 0 {
            let idx: usize = (#[verifier::truncate]
            (rng.next() as usize)) % active.len();
            let id: u64 = active.swap_remove(idx);
            ops.push(Op::Cancel { id, account });
        } else if r < 30 {
            let price: i64 = draw_price(rng.next());
            ops.push(Op::Aggressive { id: next_id, account, side, price, qty });
            next_id = next_id + 1;
        } else {
            let price: i64 = match side {
                Side::Bid => PRICE_LOW,
                Side::Ask => PRICE_HIGH,
            };
            ops.push(Op::Add { id: next_id, account, side, price, qty });
            active.push(next_id);
            next_id = next_id + 1;
        }
        proof {
            let t = LoadState { rng: rng.state(), next_id, active: active@ };
            let op = ops@.last();
            assert(next_op(s).0 == op);
            assert(next_op(s).1.active =~= t.active);
            assert(next_op(s).1 == t);
            let rest = ops_from(t, (n - k - 1) as nat);
            assert(before + (seq![op] + rest) =~= ops@ + rest);
        }
        k = k + 1;
    }
    proof {
        assert(ops@ + Seq::<Op>::empty() =~= ops@);
    }
    ops
}

/// Every field of the operation is within its domain.
pub open spec fn op_valid(op: Op) -> bool {
    match op {
        Op::Add { id, account, price, qty, .. } | Op::Aggressive { id, account, price, qty, .. } => {
            id > 0 && account > 0 && Price::legal(price) && Qty::legal(qty)
        },
        Op::Cancel { id, account } => id > 0 && account > 0,
    }
}

/// The command that an operation stands for.
pub open spec fn command_of(op: Op) -> Inbound {
    match op {
        Op::Add { id, account, side, price, qty } | Op::Aggressive {
            id,
            account,
            side,
            price,
            qty,
        } => Inbound::NewOrder(
            NewOrder {
                client_ts: ClientTs::of(0),
                order_id: OrderId::of(id),
                account_id: AccountId::of(account),
                side,
                order_type: OrderType::Limit,
                tif: Tif::Gtc,
                price: Some(Price::of(price)),
                qty: Qty::of(qty),
            },
        ),
        Op::Cancel { id, account } => Inbound::CancelOrder(
            CancelOrder {
                client_ts: ClientTs::of(0),
                order_id: OrderId::of(id),
                account_id: AccountId::of(account),
            },
        ),
    }
}

/// Turns an operation into a command.
pub fn op_to_inbound(op: Op) -> (r: Inbound)
    requires
        op_valid(op),
    ensures
        r == command_of(op),
{
    match op {
        Op::Add { id, account, side, price, qty } | Op::Aggressive {
            id,
            account,
            side,
            price,
            qty,
        } => Inbound::NewOrder(
            NewOrder {
                client_ts: ClientTs::new(0),
                order_id: OrderId::new(id).unwrap(),
                account_id: AccountId::new(account).unwrap(),
                side,
                order_type: OrderType::Limit,
                tif: Tif::Gtc,
                price: Some(Price::new(price).unwrap()),
                qty: Qty::new(qty).unwrap(),
            },
        ),
        Op::Cancel { id, account } => Inbound::CancelOrder(
            CancelOrder {
                client_ts: ClientTs::new(0),
                order_id: OrderId::new(id).unwrap(),
                account_id: AccountId::new(account).unwrap(),
            },
        ),
    }
}

/// The operation adds the order `id`.
pub open spec fn adds(op: Op, id: u64) -> bool {
    op matches Op::Add { id: i, .. } && i == id
}

/// Every operation of a load is valid, and every cancel names an order that
/// was added before.
pub proof fn load_well_formed(n: nat, seed: u64)
    requires
        n < u64::MAX,
    ensures
        ({
            let ops = load(n, seed);
            &&& ops.len() == n
            &&& forall|i: int| 0 <= i < n ==> op_valid(#[trigger] ops[i])
            &&& forall|i: int|
                0 <= i < n && #[trigger] ops[i] is Cancel ==> exists|j: int|
                    0 <= j < i && #[trigger] adds(ops[j], ops[i]->Cancel_id)
        }),
{
    let s = LoadState { rng: seed, next_id: 1, active: Seq::empty() };
    ops_well_formed(s, n, Seq::empty());
    assert(Seq::<Op>::empty() + ops_from(s, n) =~= ops_from(s, n));
}

/// The step of [`load_well_formed`]: `past` are the operations so far.
proof fn ops_well_formed(s: LoadState, n: nat, past: Seq<Op>)
    requires
        s.next_id >= 1,
        s.next_id + n <= u64::MAX,
        forall|k: int|
            0 <= k < s.active.len() ==> (#[trigger] s.active[k]) > 0 && exists|j: int|
                0 <= j < past.len() && #[trigger] adds(past[j], s.active[k]),
    ensures
        ({
            let ops = ops_from(s, n);
            let all = past + ops;
            &&& ops.len() == n
            &&& forall|i: int| 0 <= i < n ==> op_valid(#[trigger] ops[i])
            &&& forall|i: int|
                past.len() <= i < all.len() && #[trigger] all[i] is Cancel ==> exists|j: int|
                    0 <= j < i && #[trigger] adds(all[j], all[i]->Cancel_id)
        }),
    decreases n,
{
    if n > 0 {
        let (op, next) = next_op(s);
        let ops = ops_from(s, n);
        let rest = ops_from(next, (n - 1) as nat);
        let now = past.push(op);
        let all = past + ops;
        assert(all =~= now + rest);
        assert forall|k: int| 0 <= k < next.active.len() implies (#[trigger] next.active[k]) > 0
            && exists|j: int| 0 <= j < now.len() && #[trigger] adds(now[j], next.active[k]) by {
            let id = next.active[k];
            if op is Add && k == s.active.len() {
                assert(adds(now[past.len() as int], id));
            } else {
                let k0 = if s.active[k] == id {
                    k
                } else {
                    s.active.len() - 1
                };
                assert(s.active[k0] == id);
                let j = choose|j: int|
                    0 <= j < past.len() && #[trigger] adds(past[j], s.active[k0]);
                assert(now[j] == past[j]);
                assert(adds(now[j], id));
            }
        }
        ops_well_formed(next, (n - 1) as nat, now);
        assert(op_valid(op)) by {
            if op is Cancel {
                let i = (lcg(lcg(lcg(lcg(lcg(s.rng))))) as usize) as int % s.active.len() as int;
                assert(s.active[i] > 0);
            }
        }
        assert forall|i: int| 0 <= i < n implies op_valid(#[trigger] ops[i]) by {
            if i > 0 {
                assert(ops[i] == rest[i - 1]);
            }
        }
        assert forall|i: int| past.len() <= i < all.len() && #[trigger] all[i] is Cancel implies exists|
            j: int,
        |
            0 <= j < i && #[trigger] adds(all[j], all[i]->Cancel_id) by {
            if i == past.len() {
                let id = op->Cancel_id;
                let k = (lcg(lcg(lcg(lcg(lcg(s.rng))))) as usize) as int % s.active.len() as int;
                assert(s.active[k] == id);
                let j = choose|j: int|
                    0 <= j < past.len() && #[trigger] adds(past[j], s.active[k]);
                assert(all[j] == past[j]);
                assert(adds(all[j], id));
            } else {
                assert((now + rest)[i] is Cancel);
                let j = choose|j: int|
                    0 <= j < i && #[trigger] adds((now + rest)[j], (now + rest)[i]->Cancel_id);
                assert(adds(all[j], all[i]->Cancel_id));
            }
        }
    }
}

} // verus!
