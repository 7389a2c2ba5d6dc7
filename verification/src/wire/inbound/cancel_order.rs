//! `CancelOrder` message.

use vstd::prelude::*;

use crate::domain::{group_newtypes, AccountId, ClientTs, DomainError, OrderId, OrderKey};
use crate::wire::codec::{
    field_determined, fields_round_trip, find_nonzero, get_i64, get_u32, get_u64, i64_at,
    i64_bytes, nonzero, pad, put_i64, put_pad, put_u32, put_u64, u32_at, u32_bytes, u64_at,
    u64_bytes, zero_is_pad,
};
use crate::wire::error::WireError;

verus! {

broadcast use group_newtypes;

/// Cancels one resting order.
#[derive(Debug, Clone, Copy, PartialEq, Eq, Structural)]
pub struct CancelOrder {
    /// Client-supplied timestamp.
    pub client_ts: ClientTs,
    /// Order to cancel.
    pub order_id: OrderId,
    /// Account that asks.
    pub account_id: AccountId,
}

impl CancelOrder {
    /// What the order in question is known by.
    #[verifier::allow_in_spec]
    pub fn key(&self) -> OrderKey
        returns
            (OrderKey { account_id: self.account_id, order_id: self.order_id }),
    {
        OrderKey { account_id: self.account_id, order_id: self.order_id }
    }
}

/// Payload size in bytes.
pub const SIZE: usize = 24;

/// Every field is within its domain.
pub open spec fn valid(m: CancelOrder) -> bool {
    &&& m.order_id@ > 0
    &&& m.account_id@ > 0
}

/// The payload of a message.
pub open spec fn bytes(m: CancelOrder) -> Seq<u8> {
    i64_bytes(m.client_ts@) + u64_bytes(m.order_id@) + u32_bytes(m.account_id@) + pad(4)
}

/// The message that a payload stands for. Padding is checked first, then
/// the fields in the order in which they stand.
pub open spec fn parsed(p: Seq<u8>) -> Result<CancelOrder, WireError> {
    if p.len() != SIZE {
        Err(WireError::PayloadSize)
    } else if let Some(at) = nonzero(p, 20, 24) {
        Err(WireError::NonZeroPad(at))
    } else if let Err(e) = OrderId::checked(u64_at(p, 8)) {
        Err(WireError::Domain(DomainError::OrderId(e)))
    } else if let Err(e) = AccountId::checked(u32_at(p, 16)) {
        Err(WireError::Domain(DomainError::AccountId(e)))
    } else {
        Ok(
            CancelOrder {
                client_ts: ClientTs::of(i64_at(p, 0)),
                order_id: OrderId::of(u64_at(p, 8)),
                account_id: AccountId::of(u32_at(p, 16)),
            },
        )
    }
}

/// Appends the payload of a message.
pub fn encode(msg: &CancelOrder, out: &mut Vec<u8>)
    ensures
        final(out)@ == old(out)@ + bytes(*msg),
{
    put_i64(out, msg.client_ts.as_nanos());
    put_u64(out, msg.order_id.as_raw());
    put_u32(out, msg.account_id.as_raw());
    put_pad(out, 4);
    proof {
        assert(out@ =~= old(out)@ + bytes(*msg));
    }
}

/// Reads a payload.
pub fn decode(p: &[u8]) -> (r: Result<CancelOrder, WireError>)
    ensures
        r == parsed(p@),
{
    if p.len() != SIZE {
        return Err(WireError::PayloadSize);
    }
    if let Some(at) = find_nonzero(p, 20, 24) {
        return Err(WireError::NonZeroPad(at));
    }
    let client_ts = ClientTs::new(get_i64(p, 0));
    let order_id = match OrderId::new(get_u64(p, 8)) {
        Ok(v) => v,
        Err(e) => return Err(WireError::Domain(DomainError::OrderId(e))),
    };
    let account_id = match AccountId::new(get_u32(p, 16)) {
        Ok(v) => v,
        Err(e) => return Err(WireError::Domain(DomainError::AccountId(e))),
    };
    Ok(CancelOrder { client_ts, order_id, account_id })
}

/// Decoding undoes encoding.
pub proof fn decode_undoes_encode(m: CancelOrder)
    requires
        valid(m),
    ensures
        bytes(m).len() == SIZE,
        parsed(bytes(m)) == Ok::<CancelOrder, WireError>(m),
{
    fields_round_trip();
    let p = bytes(m);
    assert(p.subrange(0, 8) =~= i64_bytes(m.client_ts@));
    assert(p.subrange(8, 16) =~= u64_bytes(m.order_id@));
    assert(p.subrange(16, 20) =~= u32_bytes(m.account_id@));
    assert(p.subrange(20, 24) =~= pad(4));
    zero_is_pad(p, 20, 24);
}

/// Only the encoding of a message decodes to it.
pub proof fn encoding_unique(p: Seq<u8>)
    ensures
        parsed(p) matches Ok(m) ==> p == bytes(m),
{
    if let Ok(m) = parsed(p) {
        fields_round_trip();
        field_determined(p, 0);
        assert(p.subrange(0, 8) == i64_bytes(m.client_ts@));
        field_determined(p, 8);
        assert(p.subrange(8, 16) == u64_bytes(m.order_id@));
        field_determined(p, 16);
        assert(p.subrange(16, 20) == u32_bytes(m.account_id@));
        zero_is_pad(p, 20, 24);
        assert(p.subrange(20, 24) == pad(4));
        assert(p =~= p.subrange(0, 8) + p.subrange(8, 16) + p.subrange(16, 20)
            + p.subrange(20, 24));
    }
}

} // verus!
