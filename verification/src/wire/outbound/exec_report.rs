//! `ExecReport` message.

use vstd::prelude::*;

use crate::domain::{
    group_newtypes, AccountId, CancelReason, DomainError, EngineSeq, ExecState, OrderId, Price,
    Qty, RecvTs, RejectReason,
};
use crate::wire::codec::{
    field_determined, fields_round_trip, find_nonzero, get_i64, get_u32, get_u64, i64_at,
    i64_bytes, nonzero, pad, put_i64, put_pad, put_u32, put_u64, u32_at, u32_bytes, u64_at,
    u64_bytes, zero_is_pad,
};
use crate::wire::error::WireError;
use crate::wire::fields::{
    cancel_field, cancel_raw, price_field, price_raw, price_valid, qty_field, qty_raw, qty_valid,
    raw_cancel, raw_price, raw_qty, raw_reject, read_cancel, read_price, read_qty, read_reject,
    reject_field, reject_raw,
};

verus! {

broadcast use group_newtypes;

/// Order lifecycle transition.
#[derive(Debug, Clone, Copy, PartialEq, Eq, Structural)]
pub struct ExecReport {
    /// Sequence number.
    pub engine_seq: EngineSeq,
    /// The order.
    pub order_id: OrderId,
    /// Its owner.
    pub account_id: AccountId,
    /// State that the order is in.
    pub state: ExecState,
    /// Price of the fill, on a fill.
    pub fill_price: Option<Price>,
    /// Quantity of the fill, on a fill.
    pub fill_qty: Option<Qty>,
    /// What is left open.
    pub leaves_qty: Option<Qty>,
    /// Why it was refused.
    pub reject_reason: Option<RejectReason>,
    /// Why it was cancelled.
    pub cancel_reason: Option<CancelReason>,
    /// When the command came in.
    pub recv_ts: RecvTs,
    /// When the report went out.
    pub emit_ts: RecvTs,
}

/// Payload size in bytes.
pub const SIZE: usize = 64;

/// Every field is within its domain.
pub open spec fn valid(m: ExecReport) -> bool {
    &&& m.order_id@ > 0
    &&& m.account_id@ > 0
    &&& price_valid(m.fill_price)
    &&& qty_valid(m.fill_qty)
    &&& qty_valid(m.leaves_qty)
}

/// The payload of a message.
pub open spec fn bytes(m: ExecReport) -> Seq<u8> {
    u64_bytes(m.engine_seq@) + u64_bytes(m.order_id@) + u32_bytes(m.account_id@)
        + seq![m.state.code()] + seq![reject_raw(m.reject_reason)]
        + seq![cancel_raw(m.cancel_reason)] + pad(1) + i64_bytes(price_raw(m.fill_price))
        + u64_bytes(qty_raw(m.fill_qty)) + u64_bytes(qty_raw(m.leaves_qty))
        + i64_bytes(m.recv_ts@) + i64_bytes(m.emit_ts@)
}

/// The message that a payload stands for. Padding is checked first, then
/// the fields in the order in which they stand.
pub open spec fn parsed(p: Seq<u8>) -> Result<ExecReport, WireError> {
    if p.len() != SIZE {
        Err(WireError::PayloadSize)
    } else if let Some(at) = nonzero(p, 23, 24) {
        Err(WireError::NonZeroPad(at))
    } else if let Err(e) = OrderId::checked(u64_at(p, 8)) {
        Err(WireError::Domain(DomainError::OrderId(e)))
    } else if let Err(e) = AccountId::checked(u32_at(p, 16)) {
        Err(WireError::Domain(DomainError::AccountId(e)))
    } else if let Err(e) = ExecState::from_code(p[20]) {
        Err(WireError::Domain(DomainError::ExecState(e)))
    } else if let Err(e) = reject_field(p[21]) {
        Err(WireError::Domain(DomainError::RejectReason(e)))
    } else if let Err(e) = cancel_field(p[22]) {
        Err(WireError::Domain(DomainError::CancelReason(e)))
    } else if let Err(e) = price_field(i64_at(p, 24)) {
        Err(WireError::Domain(DomainError::Price(e)))
    } else if let Err(e) = qty_field(u64_at(p, 32)) {
        Err(WireError::Domain(DomainError::Qty(e)))
    } else if let Err(e) = qty_field(u64_at(p, 40)) {
        Err(WireError::Domain(DomainError::Qty(e)))
    } else {
        Ok(
            ExecReport {
                engine_seq: EngineSeq::of(u64_at(p, 0)),
                order_id: OrderId::of(u64_at(p, 8)),
                account_id: AccountId::of(u32_at(p, 16)),
                state: ExecState::from_code(p[20])->Ok_0,
                reject_reason: reject_field(p[21])->Ok_0,
                cancel_reason: cancel_field(p[22])->Ok_0,
                fill_price: price_field(i64_at(p, 24))->Ok_0,
                fill_qty: qty_field(u64_at(p, 32))->Ok_0,
                leaves_qty: qty_field(u64_at(p, 40))->Ok_0,
                recv_ts: RecvTs::of(i64_at(p, 48)),
                emit_ts: RecvTs::of(i64_at(p, 56)),
            },
        )
    }
}

/// Appends the payload of a message.
pub fn encode(msg: &ExecReport, out: &mut Vec<u8>)
    ensures
        final(out)@ == old(out)@ + bytes(*msg),
{
    put_u64(out, msg.engine_seq.as_raw());
    put_u64(out, msg.order_id.as_raw());
    put_u32(out, msg.account_id.as_raw());
    out.push(msg.state.as_u8());
    out.push(raw_reject(msg.reject_reason));
    out.push(raw_cancel(msg.cancel_reason));
    put_pad(out, 1);
    put_i64(out, raw_price(msg.fill_price));
    put_u64(out, raw_qty(msg.fill_qty));
    put_u64(out, raw_qty(msg.leaves_qty));
    put_i64(out, msg.recv_ts.as_nanos());
    put_i64(out, msg.emit_ts.as_nanos());
    proof {
        assert(out@ =~= old(out)@ + bytes(*msg));
    }
}

/// Reads a payload.
pub fn decode(p: &[u8]) -> (r: Result<ExecReport, WireError>)
    ensures
        r == parsed(p@),
{
    if p.len() != SIZE {
        return Err(WireError::PayloadSize);
    }
    if let Some(at) = find_nonzero(p, 23, 24) {
        return Err(WireError::NonZeroPad(at));
    }
    let engine_seq = EngineSeq::new(get_u64(p, 0));
    let order_id = match OrderId::new(get_u64(p, 8)) {
        Ok(v) => v,
        Err(e) => return Err(WireError::Domain(DomainError::OrderId(e))),
    };
    let account_id = match AccountId::new(get_u32(p, 16)) {
        Ok(v) => v,
        Err(e) => return Err(WireError::Domain(DomainError::AccountId(e))),
    };
    let state = match ExecState::try_from(p[20]) {
        Ok(v) => v,
        Err(e) => return Err(WireError::Domain(DomainError::ExecState(e))),
    };
    let reject_reason = match read_reject(p[21]) {
        Ok(v) => v,
        Err(e) => return Err(WireError::Domain(DomainError::RejectReason(e))),
    };
    let cancel_reason = match read_cancel(p[22]) {
        Ok(v) => v,
        Err(e) => return Err(WireError::Domain(DomainError::CancelReason(e))),
    };
    let fill_price = match read_price(get_i64(p, 24)) {
        Ok(v) => v,
        Err(e) => return Err(WireError::Domain(DomainError::Price(e))),
    };
    let fill_qty = match read_qty(get_u64(p, 32)) {
        Ok(v) => v,
        Err(e) => return Err(WireError::Domain(DomainError::Qty(e))),
    };
    let leaves_qty = match read_qty(get_u64(p, 40)) {
        Ok(v) => v,
        Err(e) => return Err(WireError::Domain(DomainError::Qty(e))),
    };
    let recv_ts = RecvTs::new(get_i64(p, 48));
    let emit_ts = RecvTs::new(get_i64(p, 56));
    Ok(ExecReport { engine_seq, order_id, account_id, state, reject_reason, cancel_reason, fill_price, fill_qty, leaves_qty, recv_ts, emit_ts })
}

/// Decoding undoes encoding.
pub proof fn decode_undoes_encode(m: ExecReport)
    requires
        valid(m),
    ensures
        bytes(m).len() == SIZE,
        parsed(bytes(m)) == Ok::<ExecReport, WireError>(m),
{
    fields_round_trip();
    let p = bytes(m);
    assert(p.subrange(0, 8) =~= u64_bytes(m.engine_seq@));
    assert(p.subrange(8, 16) =~= u64_bytes(m.order_id@));
    assert(p.subrange(16, 20) =~= u32_bytes(m.account_id@));
    assert(p[20] == m.state.code());
    assert(p[21] == reject_raw(m.reject_reason));
    assert(p[22] == cancel_raw(m.cancel_reason));
    assert(p.subrange(23, 24) =~= pad(1));
    zero_is_pad(p, 23, 24);
    assert(p.subrange(24, 32) =~= i64_bytes(price_raw(m.fill_price)));
    assert(p.subrange(32, 40) =~= u64_bytes(qty_raw(m.fill_qty)));
    assert(p.subrange(40, 48) =~= u64_bytes(qty_raw(m.leaves_qty)));
    assert(p.subrange(48, 56) =~= i64_bytes(m.recv_ts@));
    assert(p.subrange(56, 64) =~= i64_bytes(m.emit_ts@));
}

/// Only the encoding of a message decodes to it.
pub proof fn encoding_unique(p: Seq<u8>)
    ensures
        parsed(p) matches Ok(m) ==> p == bytes(m),
{
    if let Ok(m) = parsed(p) {
        fields_round_trip();
        field_determined(p, 0);
        assert(p.subrange(0, 8) == u64_bytes(m.engine_seq@));
        field_determined(p, 8);
        assert(p.subrange(8, 16) == u64_bytes(m.order_id@));
        field_determined(p, 16);
        assert(p.subrange(16, 20) == u32_bytes(m.account_id@));
        assert(p[20] == m.state.code());
        assert(p[21] == reject_raw(m.reject_reason));
        assert(p[22] == cancel_raw(m.cancel_reason));
        zero_is_pad(p, 23, 24);
        assert(p.subrange(23, 24) == pad(1));
        field_determined(p, 24);
        assert(p.subrange(24, 32) == i64_bytes(price_raw(m.fill_price)));
        field_determined(p, 32);
        assert(p.subrange(32, 40) == u64_bytes(qty_raw(m.fill_qty)));
        field_determined(p, 40);
        assert(p.subrange(40, 48) == u64_bytes(qty_raw(m.leaves_qty)));
        field_determined(p, 48);
        assert(p.subrange(48, 56) == i64_bytes(m.recv_ts@));
        field_determined(p, 56);
        assert(p.subrange(56, 64) == i64_bytes(m.emit_ts@));
        assert(p =~= p.subrange(0, 8) + p.subrange(8, 16) + p.subrange(16, 20)
            + p.subrange(20, 21) + p.subrange(21, 22) + p.subrange(22, 23) + p.subrange(23, 24)
            + p.subrange(24, 32) + p.subrange(32, 40) + p.subrange(40, 48) + p.subrange(48, 56)
            + p.subrange(56, 64));
        assert(p.subrange(20, 21) =~= seq![m.state.code()]);
        assert(p.subrange(21, 22) =~= seq![reject_raw(m.reject_reason)]);
        assert(p.subrange(22, 23) =~= seq![cancel_raw(m.cancel_reason)]);
    }
}

} // verus!
