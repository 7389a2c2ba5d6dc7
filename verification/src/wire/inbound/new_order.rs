//! `NewOrder` message.

use vstd::prelude::*;

use crate::domain::{
    group_newtypes, AccountId, ClientTs, DomainError, OrderId, OrderKey, OrderType, OrderTypeError,
    Price, PriceError, Qty, Side, Tif, TifError,
};
use crate::wire::codec::{
    field_determined, fields_round_trip, find_nonzero, get_i64, get_u32, get_u64, i64_at,
    i64_bytes, nonzero, pad, put_i64, put_pad, put_u32, put_u64, u32_at, u32_bytes, u64_at,
    u64_bytes, zero_is_pad,
};
use crate::wire::error::WireError;
use crate::wire::fields::{price_raw, price_valid, raw_price};

verus! {

broadcast use group_newtypes;

/// Limit or market order entry.
#[derive(Debug, Clone, Copy, PartialEq, Eq, Structural)]
pub struct NewOrder {
    /// Client-supplied timestamp.
    pub client_ts: ClientTs,
    /// Client-assigned id.
    pub order_id: OrderId,
    /// Owner.
    pub account_id: AccountId,
    /// Side of the order.
    pub side: Side,
    /// Limit or market.
    pub order_type: OrderType,
    /// Time in force.
    pub tif: Tif,
    /// Limit price; `None` for a market order.
    pub price: Option<Price>,
    /// Quantity.
    pub qty: Qty,
}

impl NewOrder {
    /// What the order is known by.
    #[verifier::allow_in_spec]
    pub fn key(&self) -> OrderKey
        returns
            (OrderKey { account_id: self.account_id, order_id: self.order_id }),
    {
        OrderKey { account_id: self.account_id, order_id: self.order_id }
    }
}

/// The limit that a raw field stands for: none for a market order, else a
/// legal price.
pub open spec fn limit_field(order_type: OrderType, raw: i64) -> Result<Option<Price>, PriceError> {
    match order_type {
        OrderType::Market => Ok(None),
        OrderType::Limit => match Price::checked(raw) {
            Ok(p) => Ok(Some(p)),
            Err(e) => Err(e),
        },
    }
}

/// Reads a limit.
fn read_limit(order_type: OrderType, raw: i64) -> (r: Result<Option<Price>, PriceError>)
    ensures
        r == limit_field(order_type, raw),
{
    match order_type {
        OrderType::Market => Ok(None),
        OrderType::Limit => match Price::new(raw) {
            Ok(p) => Ok(Some(p)),
            Err(e) => Err(e),
        },
    }
}

/// Payload size in bytes.
pub const SIZE: usize = 40;

/// Every field is within its domain, and exactly a market order has no
/// price and is immediate-or-cancel.
pub open spec fn valid(m: NewOrder) -> bool {
    &&& m.order_id@ > 0
    &&& m.account_id@ > 0
    &&& price_valid(m.price)
    &&& Qty::legal(m.qty@)
    &&& m.order_type == OrderType::Market <==> m.price is None
    &&& m.order_type == OrderType::Market ==> m.tif == Tif::Ioc
}

/// The payload of a message.
pub open spec fn bytes(m: NewOrder) -> Seq<u8> {
    i64_bytes(m.client_ts@) + u64_bytes(m.order_id@) + u32_bytes(m.account_id@)
        + seq![m.side.code()] + seq![m.order_type.code()] + seq![m.tif.code()] + pad(1)
        + i64_bytes(price_raw(m.price)) + u64_bytes(m.qty@)
}

/// The message that a payload stands for. Padding is checked first, then
/// the fields in the order in which they stand.
pub open spec fn parsed(p: Seq<u8>) -> Result<NewOrder, WireError> {
    if p.len() != SIZE {
        Err(WireError::PayloadSize)
    } else if let Some(at) = nonzero(p, 23, 24) {
        Err(WireError::NonZeroPad(at))
    } else if let Err(e) = OrderId::checked(u64_at(p, 8)) {
        Err(WireError::Domain(DomainError::OrderId(e)))
    } else if let Err(e) = AccountId::checked(u32_at(p, 16)) {
        Err(WireError::Domain(DomainError::AccountId(e)))
    } else if let Err(e) = Side::from_code(p[20]) {
        Err(WireError::Domain(DomainError::Side(e)))
    } else if let Err(e) = OrderType::from_code(p[21]) {
        Err(WireError::Domain(DomainError::OrderType(e)))
    } else if let Err(e) = Tif::from_code(p[22]) {
        Err(WireError::Domain(DomainError::Tif(e)))
    } else if OrderType::from_code(p[21]) == Ok::<OrderType, OrderTypeError>(OrderType::Market) && (
    i64_at(p, 24) != 0 || Tif::from_code(p[22]) != Ok::<Tif, TifError>(Tif::Ioc)) {
        Err(WireError::MarketTerms)
    } else if let Err(e) = limit_field(OrderType::from_code(p[21])->Ok_0, i64_at(p, 24)) {
        Err(WireError::Domain(DomainError::Price(e)))
    } else if let Err(e) = Qty::checked(u64_at(p, 32)) {
        Err(WireError::Domain(DomainError::Qty(e)))
    } else {
        Ok(
            NewOrder {
                client_ts: ClientTs::of(i64_at(p, 0)),
                order_id: OrderId::of(u64_at(p, 8)),
                account_id: AccountId::of(u32_at(p, 16)),
                side: Side::from_code(p[20])->Ok_0,
                order_type: OrderType::from_code(p[21])->Ok_0,
                tif: Tif::from_code(p[22])->Ok_0,
                price: limit_field(OrderType::from_code(p[21])->Ok_0, i64_at(p, 24))->Ok_0,
                qty: Qty::of(u64_at(p, 32)),
            },
        )
    }
}

/// Appends the payload of a message.
pub fn encode(msg: &NewOrder, out: &mut Vec<u8>)
    ensures
        final(out)@ == old(out)@ + bytes(*msg),
{
    put_i64(out, msg.client_ts.as_nanos());
    put_u64(out, msg.order_id.as_raw());
    put_u32(out, msg.account_id.as_raw());
    out.push(msg.side.as_u8());
    out.push(msg.order_type.as_u8());
    out.push(msg.tif.as_u8());
    put_pad(out, 1);
    put_i64(out, raw_price(msg.price));
    put_u64(out, msg.qty.as_lots());
    proof {
        assert(out@ =~= old(out)@ + bytes(*msg));
    }
}

/// Reads a payload.
pub fn decode(p: &[u8]) -> (r: Result<NewOrder, WireError>)
    ensures
        r == parsed(p@),
{
    if p.len() != SIZE {
        return Err(WireError::PayloadSize);
    }
    if let Some(at) = find_nonzero(p, 23, 24) {
        return Err(WireError::NonZeroPad(at));
    }
    let client_ts = ClientTs::new(get_i64(p, 0));
    let order_id = match OrderId::new(get_u64(p, 8)) {
        Ok(v) => v,
        Err(e) => return Err(WireError::Domain(DomainError::OrderId(e))),
    };
    let account_id = match AccountId::new(get_u32(p, 16)) {
        Ok(v) => v,
        Err(e) => return Err(WireError::Domain(DomainError::AccountId(e))),
    };
    let side = match Side::try_from(p[20]) {
        Ok(v) => v,
        Err(e) => return Err(WireError::Domain(DomainError::Side(e))),
    };
    let order_type = match OrderType::try_from(p[21]) {
        Ok(v) => v,
        Err(e) => return Err(WireError::Domain(DomainError::OrderType(e))),
    };
    let tif = match Tif::try_from(p[22]) {
        Ok(v) => v,
        Err(e) => return Err(WireError::Domain(DomainError::Tif(e))),
    };
    let raw_limit: i64 = get_i64(p, 24);
    if order_type == OrderType::Market && (raw_limit != 0 || tif != Tif::Ioc) {
        return Err(WireError::MarketTerms);
    }
    let price = match read_limit(order_type, raw_limit) {
        Ok(v) => v,
        Err(e) => return Err(WireError::Domain(DomainError::Price(e))),
    };
    let qty = match Qty::new(get_u64(p, 32)) {
        Ok(v) => v,
        Err(e) => return Err(WireError::Domain(DomainError::Qty(e))),
    };
    Ok(NewOrder { client_ts, order_id, account_id, side, order_type, tif, price, qty })
}

/// Decoding undoes encoding.
pub proof fn decode_undoes_encode(m: NewOrder)
    requires
        valid(m),
    ensures
        bytes(m).len() == SIZE,
        parsed(bytes(m)) == Ok::<NewOrder, WireError>(m),
{
    fields_round_trip();
    let p = bytes(m);
    assert(p.subrange(0, 8) =~= i64_bytes(m.client_ts@));
    assert(p.subrange(8, 16) =~= u64_bytes(m.order_id@));
    assert(p.subrange(16, 20) =~= u32_bytes(m.account_id@));
    assert(p[20] == m.side.code());
    assert(p[21] == m.order_type.code());
    assert(p[22] == m.tif.code());
    assert(p.subrange(23, 24) =~= pad(1));
    zero_is_pad(p, 23, 24);
    assert(p.subrange(24, 32) =~= i64_bytes(price_raw(m.price)));
    assert(p.subrange(32, 40) =~= u64_bytes(m.qty@));
}

/// Only the encoding of a message decodes to it.
pub proof fn encoding_unique(p: Seq<u8>)
    ensures
        parsed(p) matches Ok(m) ==> p == bytes(m),
{
    if let Ok(m) = parsed(p) {
        fields_round_trip();
        field_determined(p, 0);
        assert(p.subrange(0, 8) == i64_bytes(m.client_ts@));
        field_determined(p, 8);
        assert(p.subrange(8, 16) == u64_bytes(m.order_id@));
        field_determined(p, 16);
        assert(p.subrange(16, 20) == u32_bytes(m.account_id@));
        assert(p[20] == m.side.code());
        assert(p[21] == m.order_type.code());
        assert(p[22] == m.tif.code());
        zero_is_pad(p, 23, 24);
        assert(p.subrange(23, 24) == pad(1));
        field_determined(p, 24);
        assert(p.subrange(24, 32) == i64_bytes(price_raw(m.price)));
        field_determined(p, 32);
        assert(p.subrange(32, 40) == u64_bytes(m.qty@));
        assert(p =~= p.subrange(0, 8) + p.subrange(8, 16) + p.subrange(16, 20)
            + p.subrange(20, 21) + p.subrange(21, 22) + p.subrange(22, 23) + p.subrange(23, 24)
            + p.subrange(24, 32) + p.subrange(32, 40));
        assert(p.subrange(20, 21) =~= seq![m.side.code()]);
        assert(p.subrange(21, 22) =~= seq![m.order_type.code()]);
        assert(p.subrange(22, 23) =~= seq![m.tif.code()]);
    }
}

} // verus!
