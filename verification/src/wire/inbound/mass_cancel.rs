//! `MassCancel` message.

use vstd::prelude::*;

use crate::domain::{group_newtypes, AccountId, ClientTs, DomainError};
use crate::wire::codec::{
    field_determined, fields_round_trip, find_nonzero, get_i64, get_u32, i64_at, i64_bytes,
    nonzero, pad, put_i64, put_pad, put_u32, u32_at, u32_bytes, zero_is_pad,
};
use crate::wire::error::WireError;

verus! {

broadcast use group_newtypes;

/// Cancels every resting order of an account.
#[derive(Debug, Clone, Copy, PartialEq, Eq, Structural)]
pub struct MassCancel {
    /// Client-supplied timestamp.
    pub client_ts: ClientTs,
    /// Account to clear.
    pub account_id: AccountId,
}

/// Payload size in bytes.
pub const SIZE: usize = 16;

/// Every field is within its domain.
pub open spec fn valid(m: MassCancel) -> bool {
    &&& m.account_id@ > 0
}

/// The payload of a message.
pub open spec fn bytes(m: MassCancel) -> Seq<u8> {
    i64_bytes(m.client_ts@) + u32_bytes(m.account_id@) + pad(4)
}

/// The message that a payload stands for. Padding is checked first, then
/// the fields in the order in which they stand.
pub open spec fn parsed(p: Seq<u8>) -> Result<MassCancel, WireError> {
    if p.len() != SIZE {
        Err(WireError::PayloadSize)
    } else if let Some(at) = nonzero(p, 12, 16) {
        Err(WireError::NonZeroPad(at))
    } else if let Err(e) = AccountId::checked(u32_at(p, 8)) {
        Err(WireError::Domain(DomainError::AccountId(e)))
    } else {
        Ok(
            MassCancel {
                client_ts: ClientTs::of(i64_at(p, 0)),
                account_id: AccountId::of(u32_at(p, 8)),
            },
        )
    }
}

/// Appends the payload of a message.
pub fn encode(msg: &MassCancel, out: &mut Vec<u8>)
    ensures
        final(out)@ == old(out)@ + bytes(*msg),
{
    put_i64(out, msg.client_ts.as_nanos());
    put_u32(out, msg.account_id.as_raw());
    put_pad(out, 4);
    proof {
        assert(out@ =~= old(out)@ + bytes(*msg));
    }
}

/// Reads a payload.
pub fn decode(p: &[u8]) -> (r: Result<MassCancel, WireError>)
    ensures
        r == parsed(p@),
{
    if p.len() != SIZE {
        return Err(WireError::PayloadSize);
    }
    if let Some(at) = find_nonzero(p, 12, 16) {
        return Err(WireError::NonZeroPad(at));
    }
    let client_ts = ClientTs::new(get_i64(p, 0));
    let account_id = match AccountId::new(get_u32(p, 8)) {
        Ok(v) => v,
        Err(e) => return Err(WireError::Domain(DomainError::AccountId(e))),
    };
    Ok(MassCancel { client_ts, account_id })
}

/// Decoding undoes encoding.
pub proof fn decode_undoes_encode(m: MassCancel)
    requires
        valid(m),
    ensures
        bytes(m).len() == SIZE,
        parsed(bytes(m)) == Ok::<MassCancel, WireError>(m),
{
    fields_round_trip();
    let p = bytes(m);
    assert(p.subrange(0, 8) =~= i64_bytes(m.client_ts@));
    assert(p.subrange(8, 12) =~= u32_bytes(m.account_id@));
    assert(p.subrange(12, 16) =~= pad(4));
    zero_is_pad(p, 12, 16);
}

/// Only the encoding of a message decodes to it.
pub proof fn encoding_unique(p: Seq<u8>)
    ensures
        parsed(p) matches Ok(m) ==> p == bytes(m),
{
    if let Ok(m) = parsed(p) {
        fields_round_trip();
        field_determined(p, 0);
        assert(p.subrange(0, 8) == i64_bytes(m.client_ts@));
        field_determined(p, 8);
        assert(p.subrange(8, 12) == u32_bytes(m.account_id@));
        zero_is_pad(p, 12, 16);
        assert(p.subrange(12, 16) == pad(4));
        assert(p =~= p.subrange(0, 8) + p.subrange(8, 12) + p.subrange(12, 16));
    }
}

} // verus!
