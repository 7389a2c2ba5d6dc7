//! Which numbers are prices, quantities and ids, and how numbers are shown.

use vstd::prelude::*;

use crate::domain::{
    group_newtypes, AccountId, AccountIdError, OrderId, OrderIdError, Price, PriceError, Qty,
    QtyError,
};
use crate::domain::text::{decimal, digit, signed_decimal};

verus! {

broadcast use group_newtypes;

/// Every positive number of ticks is a price and no other is.
pub proof fn prices_are_positive(ticks: i64)
    ensures
        ticks > 0 <==> Price::checked(ticks) is Ok,
        ticks > 0 <==> Price::legal(ticks),
        Price::checked(ticks) matches Ok(p) ==> p@ == ticks,
        Price::checked(ticks) matches Err(e) ==> e == PriceError::NonPositive,
{
}

/// Every number of lots but zero is a quantity.
pub proof fn quantities_are_not_zero(lots: u64)
    ensures
        lots != 0 <==> Qty::checked(lots) is Ok,
        lots != 0 <==> Qty::legal(lots),
        Qty::checked(lots) matches Ok(q) ==> q@ == lots,
        Qty::checked(lots) matches Err(e) ==> e == QtyError::Zero,
{
}

/// Every number but zero is an order id, and every number but zero an
/// account.
pub proof fn ids_are_not_zero(order: u64, account: u32)
    ensures
        order != 0 <==> OrderId::checked(order) is Ok,
        OrderId::checked(order) matches Ok(x) ==> x@ == order,
        OrderId::checked(order) matches Err(e) ==> e == OrderIdError::Zero,
        account != 0 <==> AccountId::checked(account) is Ok,
        AccountId::checked(account) matches Ok(x) ==> x@ == account,
        AccountId::checked(account) matches Err(e) ==> e == AccountIdError::Zero,
{
}

/// The number that a run of decimal digits spells.
pub open spec fn spelled(s: Seq<char>) -> int
    decreases s.len(),
{
    if s.len() == 0 {
        0
    } else {
        10 * spelled(s.drop_last()) + (s.last() as int - '0' as int)
    }
}

/// A number is shown by decimal digits that spell it, the first of which is
/// zero only for the number zero.
pub proof fn decimal_spells_the_number(n: nat)
    ensures
        decimal(n).len() > 0,
        spelled(decimal(n)) == n,
        forall|i: int| 0 <= i < decimal(n).len() ==> '0' <= #[trigger] decimal(n)[i] <= '9',
        decimal(n)[0] == '0' <==> n == 0,
    decreases n,
{
    let s = decimal(n);
    if n < 10 {
        assert(s.drop_last() =~= Seq::<char>::empty());
        assert(spelled(s.drop_last()) == 0);
    } else {
        decimal_spells_the_number(n / 10);
        assert(s.drop_last() =~= decimal(n / 10));
        assert(s.last() == digit(n % 10));
    }
}

/// A negative number is shown by a minus sign before its magnitude.
pub proof fn signed_decimal_shows_the_sign(v: int)
    ensures
        v >= 0 ==> signed_decimal(v) == decimal(v as nat),
        v < 0 ==> signed_decimal(v)[0] == '-' && signed_decimal(v).skip(1) == decimal((-v) as nat),
{
    if v < 0 {
        assert(signed_decimal(v).skip(1) =~= decimal((-v) as nat));
    }
}

} // verus!
