//! Pre-trade risk: kill switch, price band and per-account caps.
//!
//! Every client command passes one of the `check_*` methods before it
//! reaches the book. The checks come in a fixed order, and the first that
//! fails gives the reason.

use std::collections::HashMap;

use vstd::prelude::*;

use crate::domain::consts::{MAX_NOTIONAL_PER_ACCT, MAX_OPEN_ORDERS_PER_ACCT, PRICE_BAND_BPS};
use crate::domain::{group_newtypes, AccountId, OrderType, Price, Qty, RejectReason};
use crate::matching::model::notional;
use crate::wire::inbound::{CancelOrder, CancelReplace, MassCancel, NewOrder};

verus! {

broadcast use {group_newtypes, vstd::std_specs::hash::group_hash_axioms};

/// What an account has resting on the book.
#[derive(Debug, Clone, Copy, PartialEq, Eq, Structural)]
pub struct Exposure {
    /// Number of resting orders.
    pub open: u32,
    /// Sum of their notionals.
    pub notional: u128,
}

/// What a [`RiskState`] knows.
#[verifier::ext_equal]
pub struct RiskModel {
    /// Whether the kill switch is engaged.
    pub killed: bool,
    /// Price of the last trade.
    pub last_trade: Option<Price>,
    /// Exposure of each account that has ever rested an order.
    pub accounts: Map<u32, Exposure>,
}

impl RiskModel {
    /// Exposure of one account.
    pub open spec fn exposure(self, account: AccountId) -> Exposure {
        if self.accounts.dom().contains(account@) {
            self.accounts[account@]
        } else {
            Exposure { open: 0, notional: 0 }
        }
    }

    /// No account is above its caps.
    pub open spec fn wf(self) -> bool {
        forall|a: AccountId|
            (#[trigger] self.exposure(a)).open <= MAX_OPEN_ORDERS_PER_ACCT && self.exposure(
                a,
            ).notional <= MAX_NOTIONAL_PER_ACCT
    }

    /// The state with one account's exposure put in place.
    pub open spec fn with_exposure(self, account: AccountId, e: Exposure) -> RiskModel {
        RiskModel { accounts: self.accounts.insert(account@, e), ..self }
    }
}

/// States with the same accounts agree on every exposure.
pub proof fn same_exposures(r: RiskModel, t: RiskModel)
    requires
        r.accounts == t.accounts,
    ensures
        forall|a: AccountId| #[trigger] t.exposure(a) == r.exposure(a),
        r.wf() ==> t.wf(),
{
    assert forall|a: AccountId| #[trigger] t.exposure(a) == r.exposure(a) by {}
}

/// The price is within the band round the last trade, if there was one.
pub open spec fn in_band(last_trade: Option<Price>, price: Price) -> bool {
    match last_trade {
        None => true,
        Some(last) => {
            let distance = if price@ >= last@ {
                price@ - last@
            } else {
                last@ - price@
            };
            distance * 10_000 <= last@ * PRICE_BAND_BPS
        },
    }
}

/// Whether an account with this exposure may rest `extra` more notional.
pub open spec fn within_caps(open: nat, resting: nat, extra: nat) -> Result<(), RejectReason> {
    if open >= MAX_OPEN_ORDERS_PER_ACCT {
        Err(RejectReason::MaxOpenOrders)
    } else if resting + extra > MAX_NOTIONAL_PER_ACCT {
        Err(RejectReason::MaxNotional)
    } else {
        Ok(())
    }
}

/// A market order: it names no limit.
pub open spec fn is_market(msg: NewOrder) -> bool {
    msg.order_type == OrderType::Market || msg.price is None
}

/// The price that an order is judged by: its limit, or the best opposite
/// price where it has none.
pub open spec fn reference_price(msg: NewOrder, best_opposite: Option<Price>) -> Price {
    match msg.price {
        Some(p) => p,
        None => best_opposite->0,
    }
}

/// Verdict on a new order of an account with this exposure.
pub open spec fn new_order_verdict(
    killed: bool,
    last_trade: Option<Price>,
    open: nat,
    resting: nat,
    msg: NewOrder,
    best_opposite: Option<Price>,
) -> Result<(), RejectReason> {
    if killed {
        Err(RejectReason::KillSwitched)
    } else if is_market(msg) && best_opposite is None {
        Err(RejectReason::MarketOrderInEmptyBook)
    } else if !in_band(last_trade, reference_price(msg, best_opposite)) {
        Err(RejectReason::PriceBand)
    } else {
        within_caps(open, resting, notional(reference_price(msg, best_opposite), msg.qty))
    }
}

/// Verdict on a command that only the kill switch can refuse.
pub open spec fn kill_verdict(killed: bool) -> Result<(), RejectReason> {
    if killed {
        Err(RejectReason::KillSwitched)
    } else {
        Ok(())
    }
}

/// Verdict on an amendment.
pub open spec fn replace_verdict(killed: bool, last_trade: Option<Price>, price: Price) -> Result<
    (),
    RejectReason,
> {
    if killed {
        Err(RejectReason::KillSwitched)
    } else if !in_band(last_trade, price) {
        Err(RejectReason::PriceBand)
    } else {
        Ok(())
    }
}

/// `a - b`, or zero where that would be negative.
pub open spec fn minus_floor(a: u128, b: u128) -> u128 {
    if b > a {
        0
    } else {
        (a - b) as u128
    }
}

/// Notional of an order: price times quantity.
pub fn notional_of(price: Price, qty: Qty) -> (r: u128)
    ensures
        r == notional(price, qty),
        r > 0,
        price@ > 0,
        qty@ > 0,
{
    let ticks: i64 = price.as_ticks();
    let lots: u64 = qty.as_lots();
    proof {
        assert(0 < ticks * lots <= 0x7fff_ffff_ffff_ffff * 0xffff_ffff_ffff_ffff)
            by (nonlinear_arith)
            requires
                0 < ticks <= 0x7fff_ffff_ffff_ffff,
                0 < lots <= 0xffff_ffff_ffff_ffff,
        ;
    }
    (ticks as u128) * (lots as u128)
}

/// Single-writer risk state, owned by the engine.
#[derive(Debug)]
pub struct RiskState {
    killed: bool,
    last_trade: Option<Price>,
    accounts: HashMap<u32, Exposure>,
}

impl View for RiskState {
    type V = RiskModel;

    closed spec fn view(&self) -> RiskModel {
        RiskModel { killed: self.killed, last_trade: self.last_trade, accounts: self.accounts@ }
    }
}

impl RiskState {
    /// No account rests anything, nothing has traded, the switch is off.
    pub fn new() -> (r: RiskState)
        ensures
            r@ == (RiskModel { killed: false, last_trade: None, accounts: Map::empty() }),
            r@.wf(),
    {
        RiskState { killed: false, last_trade: None, accounts: HashMap::new() }
    }

    /// Whether the kill switch is engaged.
    pub fn is_kill_switched(&self) -> (r: bool)
        ensures
            r == self@.killed,
    {
        self.killed
    }

    /// Price of the last trade.
    pub fn last_trade_price(&self) -> (r: Option<Price>)
        ensures
            r == self@.last_trade,
    {
        self.last_trade
    }

    /// Exposure of an account.
    pub fn exposure(&self, account: AccountId) -> (r: Exposure)
        ensures
            r == self@.exposure(account),
    {
        match self.accounts.get(&account.as_raw()) {
            Some(e) => *e,
            None => Exposure { open: 0, notional: 0 },
        }
    }

    /// Puts the kill switch in a position.
    pub fn set_kill_switch(&mut self, engaged: bool)
        ensures
            final(self)@ == (RiskModel { killed: engaged, ..old(self)@ }),
            old(self)@.wf() ==> final(self)@.wf(),
    {
        self.killed = engaged;
        proof {
            same_exposures(old(self)@, self@);
        }
    }

    /// Records the price of a trade.
    pub fn on_fill(&mut self, price: Price)
        ensures
            final(self)@ == (RiskModel { last_trade: Some(price), ..old(self)@ }),
            old(self)@.wf() ==> final(self)@.wf(),
    {
        self.last_trade = Some(price);
        proof {
            same_exposures(old(self)@, self@);
        }
    }

    /// Whether the price is within the band round the last trade.
    fn check_band(&self, price: Price) -> (r: bool)
        ensures
            r == in_band(self@.last_trade, price),
    {
        match self.last_trade {
            None => true,
            Some(last) => {
                let p: i128 = price.as_ticks() as i128;
                let l: i128 = last.as_ticks() as i128;
                let distance: i128 = if p >= l {
                    p - l
                } else {
                    l - p
                };
                let bps: i128 = PRICE_BAND_BPS as i128;
                proof {
                    assert(0 <= l * bps <= 0x7fff_ffff_ffff_ffff * 0xffff_ffff) by (nonlinear_arith)
                        requires
                            0 < l <= 0x7fff_ffff_ffff_ffff,
                            0 <= bps <= 0xffff_ffff,
                    ;
                }
                distance * 10_000 <= l * bps
            },
        }
    }

    /// Whether an account may rest `extra` more notional.
    pub fn check_caps(&self, account: AccountId, extra: u128) -> (r: Result<(), RejectReason>)
        requires
            self@.wf(),
        ensures
            r == within_caps(
                self@.exposure(account).open as nat,
                self@.exposure(account).notional as nat,
                extra as nat,
            ),
    {
        let e = self.exposure(account);
        if e.open >= MAX_OPEN_ORDERS_PER_ACCT {
            return Err(RejectReason::MaxOpenOrders);
        }
        if extra > MAX_NOTIONAL_PER_ACCT || e.notional + extra > MAX_NOTIONAL_PER_ACCT {
            return Err(RejectReason::MaxNotional);
        }
        Ok(())
    }

    /// Checks a new order, in this order: kill switch, market order in an
    /// empty book, price band, account caps. A market order is judged by
    /// the best opposite price.
    pub fn check_new_order(&self, msg: &NewOrder, best_opposite: Option<Price>) -> (r: Result<
        (),
        RejectReason,
    >)
        requires
            self@.wf(),
        ensures
            r == new_order_verdict(
                self@.killed,
                self@.last_trade,
                self@.exposure(msg.account_id).open as nat,
                self@.exposure(msg.account_id).notional as nat,
                *msg,
                best_opposite,
            ),
            !self@.killed && self@.last_trade is Some && (best_opposite is Some || (
            msg.price is Some && msg.order_type != OrderType::Market)) ==> {
                let p = if msg.price is Some {
                    msg.price->0@
                } else {
                    best_opposite->0@
                };
                let l = self@.last_trade->0@;
                r == Err::<(), RejectReason>(RejectReason::PriceBand) <==> {
                    ||| (p - l) * 10_000 > 500 * l
                    ||| (l - p) * 10_000 > 500 * l
                }
            },
    {
        if self.killed {
            return Err(RejectReason::KillSwitched);
        }
        let market = msg.order_type == OrderType::Market || msg.price.is_none();
        if market && best_opposite.is_none() {
            return Err(RejectReason::MarketOrderInEmptyBook);
        }
        let reference = match msg.price {
            Some(p) => p,
            None => best_opposite.unwrap(),
        };
        if !self.check_band(reference) {
            return Err(RejectReason::PriceBand);
        }
        self.check_caps(msg.account_id, notional_of(reference, msg.qty))
    }

    /// Checks a cancel: only the kill switch can refuse it.
    pub fn check_cancel(&self, _msg: &CancelOrder) -> (r: Result<(), RejectReason>)
        ensures
            r == kill_verdict(self@.killed),
    {
        if self.killed {
            Err(RejectReason::KillSwitched)
        } else {
            Ok(())
        }
    }

    /// Checks a mass cancel: only the kill switch can refuse it.
    pub fn check_mass_cancel(&self, _msg: &MassCancel) -> (r: Result<(), RejectReason>)
        ensures
            r == kill_verdict(self@.killed),
    {
        if self.killed {
            Err(RejectReason::KillSwitched)
        } else {
            Ok(())
        }
    }

    /// Checks an amendment: kill switch, then the band of the new price.
    pub fn check_cancel_replace(&self, msg: &CancelReplace) -> (r: Result<(), RejectReason>)
        ensures
            r == replace_verdict(self@.killed, self@.last_trade, msg.new_price),
            !self@.killed && self@.last_trade is Some ==> {
                let p = msg.new_price@;
                let l = self@.last_trade->0@;
                r is Err <==> (p - l) * 10_000 > 500 * l || (l - p) * 10_000 > 500 * l
            },
    {
        if self.killed {
            return Err(RejectReason::KillSwitched);
        }
        if !self.check_band(msg.new_price) {
            return Err(RejectReason::PriceBand);
        }
        Ok(())
    }

    /// Takes an order onto an account's books, unless that would break its
    /// caps.
    pub fn on_order_resting(&mut self, account: AccountId, extra: u128) -> (r: Result<
        (),
        RejectReason,
    >)
        requires
            old(self)@.wf(),
        ensures
            final(self)@.wf(),
            r == within_caps(
                old(self)@.exposure(account).open as nat,
                old(self)@.exposure(account).notional as nat,
                extra as nat,
            ),
            final(self)@ == (if r is Ok {
                let e = old(self)@.exposure(account);
                old(self)@.with_exposure(
                    account,
                    Exposure {
                        open: (e.open + 1) as u32,
                        notional: (e.notional + extra) as u128,
                    },
                )
            } else {
                old(self)@
            }),
    {
        let verdict = self.check_caps(account, extra);
        if verdict.is_ok() {
            let e = self.exposure(account);
            proof {
                assert(self@.exposure(account).open <= MAX_OPEN_ORDERS_PER_ACCT);
            }
            self.put(account, Exposure { open: e.open + 1, notional: e.notional + extra });
        }
        verdict
    }

    /// Takes an order that left the book off an account's books.
    pub fn on_order_removed(&mut self, account: AccountId, released: u128)
        requires
            old(self)@.wf(),
        ensures
            final(self)@.wf(),
            final(self)@ == old(self)@.with_exposure(
                account,
                Exposure {
                    open: if old(self)@.exposure(account).open == 0 {
                        0
                    } else {
                        (old(self)@.exposure(account).open - 1) as u32
                    },
                    notional: minus_floor(old(self)@.exposure(account).notional, released),
                },
            ),
    {
        let e = self.exposure(account);
        proof {
            assert(self@.exposure(account).open <= MAX_OPEN_ORDERS_PER_ACCT);
        }
        self.put(
            account,
            Exposure {
                open: e.open.saturating_sub(1),
                notional: e.notional.saturating_sub(released),
            },
        );
    }

    /// Takes a part of a resting order off an account's books; the order
    /// itself stays.
    pub fn on_order_reduced(&mut self, account: AccountId, released: u128)
        requires
            old(self)@.wf(),
        ensures
            final(self)@.wf(),
            final(self)@ == old(self)@.with_exposure(
                account,
                Exposure {
                    open: old(self)@.exposure(account).open,
                    notional: minus_floor(old(self)@.exposure(account).notional, released),
                },
            ),
    {
        let e = self.exposure(account);
        proof {
            assert(self@.exposure(account).open <= MAX_OPEN_ORDERS_PER_ACCT);
        }
        self.put(
            account,
            Exposure { open: e.open, notional: e.notional.saturating_sub(released) },
        );
    }

    /// Puts one account's exposure in place.
    fn put(&mut self, account: AccountId, e: Exposure)
        requires
            old(self)@.wf(),
            e.open <= MAX_OPEN_ORDERS_PER_ACCT,
            e.notional <= MAX_NOTIONAL_PER_ACCT,
        ensures
            final(self)@ == old(self)@.with_exposure(account, e),
            final(self)@.wf(),
    {
        self.accounts.insert(account.as_raw(), e);
        proof {
            assert forall|a: AccountId|
                (#[trigger] self@.exposure(a)).open <= MAX_OPEN_ORDERS_PER_ACCT && self@.exposure(
                    a,
                ).notional <= MAX_NOTIONAL_PER_ACCT by {
                assert(old(self)@.exposure(a).open <= MAX_OPEN_ORDERS_PER_ACCT);
            }
        }
    }
}

} // verus!
