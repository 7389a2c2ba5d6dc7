//! `BookUpdateL2Delta` message.

use vstd::prelude::*;

use crate::domain::{group_newtypes, DomainError, EngineSeq, Price, Qty, RecvTs, Side};
use crate::wire::codec::{
    field_determined, fields_round_trip, find_nonzero, get_i64, get_u64, i64_at, i64_bytes,
    nonzero, pad, put_i64, put_pad, put_u64, u64_at, u64_bytes, zero_is_pad,
};
use crate::wire::error::WireError;
use crate::wire::fields::{qty_field, qty_raw, qty_valid, raw_qty, read_qty};

verus! {

broadcast use group_newtypes;

/// Change of one price level.
#[derive(Debug, Clone, Copy, PartialEq, Eq, Structural)]
pub struct BookUpdateL2Delta {
    /// Sequence number.
    pub engine_seq: EngineSeq,
    /// Price of the level.
    pub price: Price,
    /// Quantity now at the level; `None` once it is gone.
    pub new_qty: Option<Qty>,
    /// Side of the level.
    pub side: Side,
    /// When the update went out.
    pub emit_ts: RecvTs,
}

/// Payload size in bytes.
pub const SIZE: usize = 40;

/// Every field is within its domain.
pub open spec fn valid(m: BookUpdateL2Delta) -> bool {
    &&& Price::legal(m.price@)
    &&& qty_valid(m.new_qty)
}

/// The payload of a message.
pub open spec fn bytes(m: BookUpdateL2Delta) -> Seq<u8> {
    u64_bytes(m.engine_seq@) + i64_bytes(m.price@) + u64_bytes(qty_raw(m.new_qty))
        + seq![m.side.code()] + pad(7) + i64_bytes(m.emit_ts@)
}

/// The message that a payload stands for. Padding is checked first, then
/// the fields in the order in which they stand.
pub open spec fn parsed(p: Seq<u8>) -> Result<BookUpdateL2Delta, WireError> {
    if p.len() != SIZE {
        Err(WireError::PayloadSize)
    } else if let Some(at) = nonzero(p, 25, 32) {
        Err(WireError::NonZeroPad(at))
    } else if let Err(e) = Price::checked(i64_at(p, 8)) {
        Err(WireError::Domain(DomainError::Price(e)))
    } else if let Err(e) = qty_field(u64_at(p, 16)) {
        Err(WireError::Domain(DomainError::Qty(e)))
    } else if let Err(e) = Side::from_code(p[24]) {
        Err(WireError::Domain(DomainError::Side(e)))
    } else {
        Ok(
            BookUpdateL2Delta {
                engine_seq: EngineSeq::of(u64_at(p, 0)),
                price: Price::of(i64_at(p, 8)),
                new_qty: qty_field(u64_at(p, 16))->Ok_0,
                side: Side::from_code(p[24])->Ok_0,
                emit_ts: RecvTs::of(i64_at(p, 32)),
            },
        )
    }
}

/// Appends the payload of a message.
pub fn encode(msg: &BookUpdateL2Delta, out: &mut Vec<u8>)
    ensures
        final(out)@ == old(out)@ + bytes(*msg),
{
    put_u64(out, msg.engine_seq.as_raw());
    put_i64(out, msg.price.as_ticks());
    put_u64(out, raw_qty(msg.new_qty));
    out.push(msg.side.as_u8());
    put_pad(out, 7);
    put_i64(out, msg.emit_ts.as_nanos());
    proof {
        assert(out@ =~= old(out)@ + bytes(*msg));
    }
}

/// Reads a payload.
pub fn decode(p: &[u8]) -> (r: Result<BookUpdateL2Delta, WireError>)
    ensures
        r == parsed(p@),
{
    if p.len() != SIZE {
        return Err(WireError::PayloadSize);
    }
    if let Some(at) = find_nonzero(p, 25, 32) {
        return Err(WireError::NonZeroPad(at));
    }
    let engine_seq = EngineSeq::new(get_u64(p, 0));
    let price = match Price::new(get_i64(p, 8)) {
        Ok(v) => v,
        Err(e) => return Err(WireError::Domain(DomainError::Price(e))),
    };
    let new_qty = match read_qty(get_u64(p, 16)) {
        Ok(v) => v,
        Err(e) => return Err(WireError::Domain(DomainError::Qty(e))),
    };
    let side = match Side::try_from(p[24]) {
        Ok(v) => v,
        Err(e) => return Err(WireError::Domain(DomainError::Side(e))),
    };
    let emit_ts = RecvTs::new(get_i64(p, 32));
    Ok(BookUpdateL2Delta { engine_seq, price, new_qty, side, emit_ts })
}

/// Decoding undoes encoding.
pub proof fn decode_undoes_encode(m: BookUpdateL2Delta)
    requires
        valid(m),
    ensures
        bytes(m).len() == SIZE,
        parsed(bytes(m)) == Ok::<BookUpdateL2Delta, WireError>(m),
{
    fields_round_trip();
    let p = bytes(m);
    assert(p.subrange(0, 8) =~= u64_bytes(m.engine_seq@));
    assert(p.subrange(8, 16) =~= i64_bytes(m.price@));
    assert(p.subrange(16, 24) =~= u64_bytes(qty_raw(m.new_qty)));
    assert(p[24] == m.side.code());
    assert(p.subrange(25, 32) =~= pad(7));
    zero_is_pad(p, 25, 32);
    assert(p.subrange(32, 40) =~= i64_bytes(m.emit_ts@));
}

/// Only the encoding of a message decodes to it.
pub proof fn encoding_unique(p: Seq<u8>)
    ensures
        parsed(p) matches Ok(m) ==> p == bytes(m),
{
    if let Ok(m) = parsed(p) {
        fields_round_trip();
        field_determined(p, 0);
        assert(p.subrange(0, 8) == u64_bytes(m.engine_seq@));
        field_determined(p, 8);
        assert(p.subrange(8, 16) == i64_bytes(m.price@));
        field_determined(p, 16);
        assert(p.subrange(16, 24) == u64_bytes(qty_raw(m.new_qty)));
        assert(p[24] == m.side.code());
        zero_is_pad(p, 25, 32);
        assert(p.subrange(25, 32) == pad(7));
        field_determined(p, 32);
        assert(p.subrange(32, 40) == i64_bytes(m.emit_ts@));
        assert(p =~= p.subrange(0, 8) + p.subrange(8, 16) + p.subrange(16, 24)
            + p.subrange(24, 25) + p.subrange(25, 32) + p.subrange(32, 40));
        assert(p.subrange(24, 25) =~= seq![m.side.code()]);
    }
}

} // verus!
