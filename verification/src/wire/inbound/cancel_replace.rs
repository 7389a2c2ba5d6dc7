//! `CancelReplace` message.

use vstd::prelude::*;

use crate::domain::{
    group_newtypes, AccountId, ClientTs, DomainError, OrderId, OrderKey, Price, Qty,
};
use crate::wire::codec::{
    field_determined, fields_round_trip, find_nonzero, get_i64, get_u32, get_u64, i64_at,
    i64_bytes, nonzero, pad, put_i64, put_pad, put_u32, put_u64, u32_at, u32_bytes, u64_at,
    u64_bytes, zero_is_pad,
};
use crate::wire::error::WireError;

verus! {

broadcast use group_newtypes;

/// Amends one resting order.
#[derive(Debug, Clone, Copy, PartialEq, Eq, Structural)]
pub struct CancelReplace {
    /// Client-supplied timestamp.
    pub client_ts: ClientTs,
    /// Order to amend.
    pub order_id: OrderId,
    /// Account that asks.
    pub account_id: AccountId,
    /// Limit price from now on.
    pub new_price: Price,
    /// Quantity from now on.
    pub new_qty: Qty,
}

impl CancelReplace {
    /// What the order in question is known by.
    #[verifier::allow_in_spec]
    pub fn key(&self) -> OrderKey
        returns
            (OrderKey { account_id: self.account_id, order_id: self.order_id }),
    {
        OrderKey { account_id: self.account_id, order_id: self.order_id }
    }
}

/// Payload size in bytes.
pub const SIZE: usize = 40;

/// Every field is within its domain.
pub open spec fn valid(m: CancelReplace) -> bool {
    &&& m.order_id@ > 0
    &&& m.account_id@ > 0
    &&& Price::legal(m.new_price@)
    &&& Qty::legal(m.new_qty@)
}

/// The payload of a message.
pub open spec fn bytes(m: CancelReplace) -> Seq<u8> {
    i64_bytes(m.client_ts@) + u64_bytes(m.order_id@) + u32_bytes(m.account_id@) + pad(4)
        + i64_bytes(m.new_price@) + u64_bytes(m.new_qty@)
}

/// The message that a payload stands for. Padding is checked first, then
/// the fields in the order in which they stand.
pub open spec fn parsed(p: Seq<u8>) -> Result<CancelReplace, WireError> {
    if p.len() != SIZE {
        Err(WireError::PayloadSize)
    } else if let Some(at) = nonzero(p, 20, 24) {
        Err(WireError::NonZeroPad(at))
    } else if let Err(e) = OrderId::checked(u64_at(p, 8)) {
        Err(WireError::Domain(DomainError::OrderId(e)))
    } else if let Err(e) = AccountId::checked(u32_at(p, 16)) {
        Err(WireError::Domain(DomainError::AccountId(e)))
    } else if let Err(e) = Price::checked(i64_at(p, 24)) {
        Err(WireError::Domain(DomainError::Price(e)))
    } else if let Err(e) = Qty::checked(u64_at(p, 32)) {
        Err(WireError::Domain(DomainError::Qty(e)))
    } else {
        Ok(
            CancelReplace {
                client_ts: ClientTs::of(i64_at(p, 0)),
                order_id: OrderId::of(u64_at(p, 8)),
                account_id: AccountId::of(u32_at(p, 16)),
                new_price: Price::of(i64_at(p, 24)),
                new_qty: Qty::of(u64_at(p, 32)),
            },
        )
    }
}

/// Appends the payload of a message.
pub fn encode(msg: &CancelReplace, out: &mut Vec<u8>)
    ensures
        final(out)@ == old(out)@ + bytes(*msg),
{
    put_i64(out, msg.client_ts.as_nanos());
    put_u64(out, msg.order_id.as_raw());
    put_u32(out, msg.account_id.as_raw());
    put_pad(out, 4);
    put_i64(out, msg.new_price.as_ticks());
    put_u64(out, msg.new_qty.as_lots());
    proof {
        assert(out@ =~= old(out)@ + bytes(*msg));
    }
}

/// Reads a payload.
pub fn decode(p: &[u8]) -> (r: Result<CancelReplace, WireError>)
    ensures
        r == parsed(p@),
{
    if p.len() != SIZE {
        return Err(WireError::PayloadSize);
    }
    if let Some(at) = find_nonzero(p, 20, 24) {
        return Err(WireError::NonZeroPad(at));
    }
    let client_ts = ClientTs::new(get_i64(p, 0));
    let order_id = match OrderId::new(get_u64(p, 8)) {
        Ok(v) => v,
        Err(e) => return Err(WireError::Domain(DomainError::OrderId(e))),
    };
    let account_id = match AccountId::new(get_u32(p, 16)) {
        Ok(v) => v,
        Err(e) => return Err(WireError::Domain(DomainError::AccountId(e))),
    };
    let new_price = match Price::new(get_i64(p, 24)) {
        Ok(v) => v,
        Err(e) => return Err(WireError::Domain(DomainError::Price(e))),
    };
    let new_qty = match Qty::new(get_u64(p, 32)) {
        Ok(v) => v,
        Err(e) => return Err(WireError::Domain(DomainError::Qty(e))),
    };
    Ok(CancelReplace { client_ts, order_id, account_id, new_price, new_qty })
}

/// Decoding undoes encoding.
pub proof fn decode_undoes_encode(m: CancelReplace)
    requires
        valid(m),
    ensures
        bytes(m).len() == SIZE,
        parsed(bytes(m)) == Ok::<CancelReplace, WireError>(m),
{
    fields_round_trip();
    let p = bytes(m);
    assert(p.subrange(0, 8) =~= i64_bytes(m.client_ts@));
    assert(p.subrange(8, 16) =~= u64_bytes(m.order_id@));
    assert(p.subrange(16, 20) =~= u32_bytes(m.account_id@));
    assert(p.subrange(20, 24) =~= pad(4));
    zero_is_pad(p, 20, 24);
    assert(p.subrange(24, 32) =~= i64_bytes(m.new_price@));
    assert(p.subrange(32, 40) =~= u64_bytes(m.new_qty@));
}

/// Only the encoding of a message decodes to it.
pub proof fn encoding_unique(p: Seq<u8>)
    ensures
        parsed(p) matches Ok(m) ==> p == bytes(m),
{
    if let Ok(m) = parsed(p) {
        fields_round_trip();
        field_determined(p, 0);
        assert(p.subrange(0, 8) == i64_bytes(m.client_ts@));
        field_determined(p, 8);
        assert(p.subrange(8, 16) == u64_bytes(m.order_id@));
        field_determined(p, 16);
        assert(p.subrange(16, 20) == u32_bytes(m.account_id@));
        zero_is_pad(p, 20, 24);
        assert(p.subrange(20, 24) == pad(4));
        field_determined(p, 24);
        assert(p.subrange(24, 32) == i64_bytes(m.new_price@));
        field_determined(p, 32);
        assert(p.subrange(32, 40) == u64_bytes(m.new_qty@));
        assert(p =~= p.subrange(0, 8) + p.subrange(8, 16) + p.subrange(16, 20)
            + p.subrange(20, 24) + p.subrange(24, 32) + p.subrange(32, 40));
    }
}

} // verus!
