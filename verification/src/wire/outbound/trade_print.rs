//! `TradePrint` message.

use vstd::prelude::*;

use crate::domain::{group_newtypes, DomainError, EngineSeq, Price, Qty, RecvTs, Side, TradeId};
use crate::wire::codec::{
    field_determined, fields_round_trip, find_nonzero, get_i64, get_u64, i64_at, i64_bytes,
    nonzero, pad, put_i64, put_pad, put_u64, u64_at, u64_bytes, zero_is_pad,
};
use crate::wire::error::WireError;

verus! {

broadcast use group_newtypes;

/// Public trade.
#[derive(Debug, Clone, Copy, PartialEq, Eq, Structural)]
pub struct TradePrint {
    /// Sequence number.
    pub engine_seq: EngineSeq,
    /// Id of the trade.
    pub trade_id: TradeId,
    /// Price.
    pub price: Price,
    /// Quantity.
    pub qty: Qty,
    /// Side of the taker.
    pub aggressor_side: Side,
    /// When the print went out.
    pub emit_ts: RecvTs,
}

/// Payload size in bytes.
pub const SIZE: usize = 48;

/// Every field is within its domain.
pub open spec fn valid(m: TradePrint) -> bool {
    &&& Price::legal(m.price@)
    &&& Qty::legal(m.qty@)
}

/// The payload of a message.
pub open spec fn bytes(m: TradePrint) -> Seq<u8> {
    u64_bytes(m.engine_seq@) + u64_bytes(m.trade_id@) + i64_bytes(m.price@) + u64_bytes(m.qty@)
        + seq![m.aggressor_side.code()] + pad(7) + i64_bytes(m.emit_ts@)
}

/// The message that a payload stands for. Padding is checked first, then
/// the fields in the order in which they stand.
pub open spec fn parsed(p: Seq<u8>) -> Result<TradePrint, WireError> {
    if p.len() != SIZE {
        Err(WireError::PayloadSize)
    } else if let Some(at) = nonzero(p, 33, 40) {
        Err(WireError::NonZeroPad(at))
    } else if let Err(e) = Price::checked(i64_at(p, 16)) {
        Err(WireError::Domain(DomainError::Price(e)))
    } else if let Err(e) = Qty::checked(u64_at(p, 24)) {
        Err(WireError::Domain(DomainError::Qty(e)))
    } else if let Err(e) = Side::from_code(p[32]) {
        Err(WireError::Domain(DomainError::Side(e)))
    } else {
        Ok(
            TradePrint {
                engine_seq: EngineSeq::of(u64_at(p, 0)),
                trade_id: TradeId::of(u64_at(p, 8)),
                price: Price::of(i64_at(p, 16)),
                qty: Qty::of(u64_at(p, 24)),
                aggressor_side: Side::from_code(p[32])->Ok_0,
                emit_ts: RecvTs::of(i64_at(p, 40)),
            },
        )
    }
}

/// Appends the payload of a message.
pub fn encode(msg: &TradePrint, out: &mut Vec<u8>)
    ensures
        final(out)@ == old(out)@ + bytes(*msg),
{
    put_u64(out, msg.engine_seq.as_raw());
    put_u64(out, msg.trade_id.as_raw());
    put_i64(out, msg.price.as_ticks());
    put_u64(out, msg.qty.as_lots());
    out.push(msg.aggressor_side.as_u8());
    put_pad(out, 7);
    put_i64(out, msg.emit_ts.as_nanos());
    proof {
        assert(out@ =~= old(out)@ + bytes(*msg));
    }
}

/// Reads a payload.
pub fn decode(p: &[u8]) -> (r: Result<TradePrint, WireError>)
    ensures
        r == parsed(p@),
{
    if p.len() != SIZE {
        return Err(WireError::PayloadSize);
    }
    if let Some(at) = find_nonzero(p, 33, 40) {
        return Err(WireError::NonZeroPad(at));
    }
    let engine_seq = EngineSeq::new(get_u64(p, 0));
    let trade_id = TradeId::new(get_u64(p, 8));
    let price = match Price::new(get_i64(p, 16)) {
        Ok(v) => v,
        Err(e) => return Err(WireError::Domain(DomainError::Price(e))),
    };
    let qty = match Qty::new(get_u64(p, 24)) {
        Ok(v) => v,
        Err(e) => return Err(WireError::Domain(DomainError::Qty(e))),
    };
    let aggressor_side = match Side::try_from(p[32]) {
        Ok(v) => v,
        Err(e) => return Err(WireError::Domain(DomainError::Side(e))),
    };
    let emit_ts = RecvTs::new(get_i64(p, 40));
    Ok(TradePrint { engine_seq, trade_id, price, qty, aggressor_side, emit_ts })
}

/// Decoding undoes encoding.
pub proof fn decode_undoes_encode(m: TradePrint)
    requires
        valid(m),
    ensures
        bytes(m).len() == SIZE,
        parsed(bytes(m)) == Ok::<TradePrint, WireError>(m),
{
    fields_round_trip();
    let p = bytes(m);
    assert(p.subrange(0, 8) =~= u64_bytes(m.engine_seq@));
    assert(p.subrange(8, 16) =~= u64_bytes(m.trade_id@));
    assert(p.subrange(16, 24) =~= i64_bytes(m.price@));
    assert(p.subrange(24, 32) =~= u64_bytes(m.qty@));
    assert(p[32] == m.aggressor_side.code());
    assert(p.subrange(33, 40) =~= pad(7));
    zero_is_pad(p, 33, 40);
    assert(p.subrange(40, 48) =~= i64_bytes(m.emit_ts@));
}

/// Only the encoding of a message decodes to it.
pub proof fn encoding_unique(p: Seq<u8>)
    ensures
        parsed(p) matches Ok(m) ==> p == bytes(m),
{
    if let Ok(m) = parsed(p) {
        fields_round_trip();
        field_determined(p, 0);
        assert(p.subrange(0, 8) == u64_bytes(m.engine_seq@));
        field_determined(p, 8);
        assert(p.subrange(8, 16) == u64_bytes(m.trade_id@));
        field_determined(p, 16);
        assert(p.subrange(16, 24) == i64_bytes(m.price@));
        field_determined(p, 24);
        assert(p.subrange(24, 32) == u64_bytes(m.qty@));
        assert(p[32] == m.aggressor_side.code());
        zero_is_pad(p, 33, 40);
        assert(p.subrange(33, 40) == pad(7));
        field_determined(p, 40);
        assert(p.subrange(40, 48) == i64_bytes(m.emit_ts@));
        assert(p =~= p.subrange(0, 8) + p.subrange(8, 16) + p.subrange(16, 24)
            + p.subrange(24, 32) + p.subrange(32, 33) + p.subrange(33, 40)
            + p.subrange(40, 48));
        assert(p.subrange(32, 33) =~= seq![m.aggressor_side.code()]);
    }
}

} // verus!
