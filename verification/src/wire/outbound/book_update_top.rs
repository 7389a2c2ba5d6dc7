//! `BookUpdateTop` message.

use vstd::prelude::*;

use crate::domain::{group_newtypes, DomainError, EngineSeq, Price, Qty, RecvTs};
use crate::wire::codec::{
    field_determined, fields_round_trip, get_i64, get_u64, i64_at, i64_bytes, put_i64, put_u64,
    u64_at, u64_bytes,
};
use crate::wire::error::WireError;

verus! {

broadcast use group_newtypes;

/// Top of book after a step.
#[derive(Debug, Clone, Copy, PartialEq, Eq)]
pub struct BookUpdateTop {
    /// Sequence number.
    pub engine_seq: EngineSeq,
    /// Best bid, with the quantity that rests at it.
    pub bid: Option<(Price, Qty)>,
    /// Best ask, with the quantity that rests at it.
    pub ask: Option<(Price, Qty)>,
    /// When the update went out.
    pub emit_ts: RecvTs,
}

/// Payload size in bytes.
pub const SIZE: usize = 48;

/// Both prices and both quantities are within their domain.
pub open spec fn valid(m: BookUpdateTop) -> bool {
    &&& m.bid is Some ==> Price::legal((m.bid->0).0@) && Qty::legal((m.bid->0).1@)
    &&& m.ask is Some ==> Price::legal((m.ask->0).0@) && Qty::legal((m.ask->0).1@)
}

/// Wire form of one side: price and quantity, both zero for an empty side.
pub open spec fn side_bytes(side: Option<(Price, Qty)>) -> Seq<u8> {
    match side {
        Some((p, q)) => i64_bytes(p@) + u64_bytes(q@),
        None => i64_bytes(0) + u64_bytes(0),
    }
}

/// The side that a pair of raw fields stands for.
pub open spec fn side_field(ticks: i64, lots: u64) -> Result<Option<(Price, Qty)>, DomainError> {
    if ticks == 0 && lots == 0 {
        Ok(None)
    } else {
        match Price::checked(ticks) {
            Err(e) => Err(DomainError::Price(e)),
            Ok(p) => match Qty::checked(lots) {
                Err(e) => Err(DomainError::Qty(e)),
                Ok(q) => Ok(Some((p, q))),
            },
        }
    }
}

/// The payload of a message.
pub open spec fn bytes(m: BookUpdateTop) -> Seq<u8> {
    u64_bytes(m.engine_seq@) + side_bytes(m.bid) + side_bytes(m.ask) + i64_bytes(m.emit_ts@)
}

/// The message that a payload stands for.
pub open spec fn parsed(p: Seq<u8>) -> Result<BookUpdateTop, WireError> {
    if p.len() != SIZE {
        Err(WireError::PayloadSize)
    } else if let Err(e) = side_field(i64_at(p, 8), u64_at(p, 16)) {
        Err(WireError::Domain(e))
    } else if let Err(e) = side_field(i64_at(p, 24), u64_at(p, 32)) {
        Err(WireError::Domain(e))
    } else {
        Ok(
            BookUpdateTop {
                engine_seq: EngineSeq::of(u64_at(p, 0)),
                bid: side_field(i64_at(p, 8), u64_at(p, 16))->Ok_0,
                ask: side_field(i64_at(p, 24), u64_at(p, 32))->Ok_0,
                emit_ts: RecvTs::of(i64_at(p, 40)),
            },
        )
    }
}

/// Appends the wire form of one side.
fn put_side(out: &mut Vec<u8>, side: Option<(Price, Qty)>)
    ensures
        final(out)@ == old(out)@ + side_bytes(side),
{
    match side {
        Some((p, q)) => {
            put_i64(out, p.as_ticks());
            put_u64(out, q.as_lots());
        },
        None => {
            put_i64(out, 0);
            put_u64(out, 0);
        },
    }
    proof {
        assert(out@ =~= old(out)@ + side_bytes(side));
    }
}

/// Reads one side.
fn read_side(ticks: i64, lots: u64) -> (r: Result<Option<(Price, Qty)>, DomainError>)
    ensures
        r == side_field(ticks, lots),
{
    if ticks == 0 && lots == 0 {
        return Ok(None);
    }
    let p = match Price::new(ticks) {
        Ok(v) => v,
        Err(e) => return Err(DomainError::Price(e)),
    };
    let q = match Qty::new(lots) {
        Ok(v) => v,
        Err(e) => return Err(DomainError::Qty(e)),
    };
    Ok(Some((p, q)))
}

/// Appends the payload of a message.
pub fn encode(msg: &BookUpdateTop, out: &mut Vec<u8>)
    ensures
        final(out)@ == old(out)@ + bytes(*msg),
{
    put_u64(out, msg.engine_seq.as_raw());
    put_side(out, msg.bid);
    put_side(out, msg.ask);
    put_i64(out, msg.emit_ts.as_nanos());
    proof {
        assert(out@ =~= old(out)@ + bytes(*msg));
    }
}

/// Reads a payload.
pub fn decode(p: &[u8]) -> (r: Result<BookUpdateTop, WireError>)
    ensures
        r == parsed(p@),
{
    if p.len() != SIZE {
        return Err(WireError::PayloadSize);
    }
    let engine_seq = EngineSeq::new(get_u64(p, 0));
    let bid = match read_side(get_i64(p, 8), get_u64(p, 16)) {
        Ok(v) => v,
        Err(e) => return Err(WireError::Domain(e)),
    };
    let ask = match read_side(get_i64(p, 24), get_u64(p, 32)) {
        Ok(v) => v,
        Err(e) => return Err(WireError::Domain(e)),
    };
    let emit_ts = RecvTs::new(get_i64(p, 40));
    Ok(BookUpdateTop { engine_seq, bid, ask, emit_ts })
}

/// The two fields of one side, cut out of a payload.
proof fn side_cut(p: Seq<u8>, at: int, side: Option<(Price, Qty)>)
    requires
        0 <= at,
        at + 16 <= p.len(),
        p.subrange(at, at + 16) == side_bytes(side),
        side is Some ==> Price::legal((side->0).0@) && Qty::legal((side->0).1@),
    ensures
        side_field(i64_at(p, at), u64_at(p, at + 8)) == Ok::<Option<(Price, Qty)>, DomainError>(
            side,
        ),
{
    fields_round_trip();
    let s = side_bytes(side);
    let ticks = match side {
        Some((p, q)) => p@,
        None => 0,
    };
    let lots = match side {
        Some((p, q)) => q@,
        None => 0,
    };
    assert(s == i64_bytes(ticks) + u64_bytes(lots));
    assert(p.subrange(at, at + 8) =~= s.subrange(0, 8));
    assert(s.subrange(0, 8) =~= i64_bytes(ticks));
    assert(p.subrange(at + 8, at + 16) =~= s.subrange(8, 16));
    assert(s.subrange(8, 16) =~= u64_bytes(lots));
}

/// The wire form of a side that was read.
proof fn side_read(p: Seq<u8>, at: int)
    requires
        0 <= at,
        at + 16 <= p.len(),
    ensures
        side_field(i64_at(p, at), u64_at(p, at + 8)) matches Ok(side) ==> p.subrange(at, at + 16)
            == side_bytes(side),
{
    if let Ok(side) = side_field(i64_at(p, at), u64_at(p, at + 8)) {
        fields_round_trip();
        field_determined(p, at);
        field_determined(p, at + 8);
        assert(p.subrange(at, at + 16) =~= p.subrange(at, at + 8) + p.subrange(at + 8, at + 16));
    }
}

/// Decoding undoes encoding.
pub proof fn decode_undoes_encode(m: BookUpdateTop)
    requires
        valid(m),
    ensures
        bytes(m).len() == SIZE,
        parsed(bytes(m)) == Ok::<BookUpdateTop, WireError>(m),
{
    fields_round_trip();
    let p = bytes(m);
    assert(p.subrange(0, 8) =~= u64_bytes(m.engine_seq@));
    assert(p.subrange(8, 24) =~= side_bytes(m.bid));
    side_cut(p, 8, m.bid);
    assert(p.subrange(24, 40) =~= side_bytes(m.ask));
    side_cut(p, 24, m.ask);
    assert(p.subrange(40, 48) =~= i64_bytes(m.emit_ts@));
}

/// Only the encoding of a message decodes to it.
pub proof fn encoding_unique(p: Seq<u8>)
    ensures
        parsed(p) matches Ok(m) ==> p == bytes(m),
{
    if let Ok(m) = parsed(p) {
        field_determined(p, 0);
        side_read(p, 8);
        side_read(p, 24);
        field_determined(p, 40);
        assert(p =~= p.subrange(0, 8) + p.subrange(8, 24) + p.subrange(24, 40) + p.subrange(
            40,
            48,
        ));
    }
}

} // verus!
