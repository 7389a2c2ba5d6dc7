//! `SnapshotRequest` message.

use vstd::prelude::*;

use crate::wire::codec::{
    field_determined, fields_round_trip, find_nonzero, get_u64, nonzero, pad, put_pad, put_u64,
    u64_at, u64_bytes, zero_is_pad,
};
use crate::wire::error::WireError;

verus! {

/// Asks for a dump of the book.
#[derive(Debug, Clone, Copy, PartialEq, Eq, Structural)]
pub struct SnapshotRequest {
    /// Echoed in the response.
    pub request_id: u64,
}

/// Payload size in bytes.
pub const SIZE: usize = 16;

/// The payload of a message.
pub open spec fn bytes(m: SnapshotRequest) -> Seq<u8> {
    u64_bytes(m.request_id) + pad(8)
}

/// The message that a payload stands for. Padding is checked first, then
/// the fields in the order in which they stand.
pub open spec fn parsed(p: Seq<u8>) -> Result<SnapshotRequest, WireError> {
    if p.len() != SIZE {
        Err(WireError::PayloadSize)
    } else if let Some(at) = nonzero(p, 8, 16) {
        Err(WireError::NonZeroPad(at))
    } else {
        Ok(
            SnapshotRequest {
                request_id: u64_at(p, 0),
            },
        )
    }
}

/// Appends the payload of a message.
pub fn encode(msg: &SnapshotRequest, out: &mut Vec<u8>)
    ensures
        final(out)@ == old(out)@ + bytes(*msg),
{
    put_u64(out, msg.request_id);
    put_pad(out, 8);
    proof {
        assert(out@ =~= old(out)@ + bytes(*msg));
    }
}

/// Reads a payload.
pub fn decode(p: &[u8]) -> (r: Result<SnapshotRequest, WireError>)
    ensures
        r == parsed(p@),
{
    if p.len() != SIZE {
        return Err(WireError::PayloadSize);
    }
    if let Some(at) = find_nonzero(p, 8, 16) {
        return Err(WireError::NonZeroPad(at));
    }
    let request_id: u64 = get_u64(p, 0);
    Ok(SnapshotRequest { request_id })
}

/// Decoding undoes encoding.
pub proof fn decode_undoes_encode(m: SnapshotRequest)
    ensures
        bytes(m).len() == SIZE,
        parsed(bytes(m)) == Ok::<SnapshotRequest, WireError>(m),
{
    fields_round_trip();
    let p = bytes(m);
    assert(p.subrange(0, 8) =~= u64_bytes(m.request_id));
    assert(p.subrange(8, 16) =~= pad(8));
    zero_is_pad(p, 8, 16);
}

/// Only the encoding of a message decodes to it.
pub proof fn encoding_unique(p: Seq<u8>)
    ensures
        parsed(p) matches Ok(m) ==> p == bytes(m),
{
    if let Ok(m) = parsed(p) {
        fields_round_trip();
        field_determined(p, 0);
        assert(p.subrange(0, 8) == u64_bytes(m.request_id));
        zero_is_pad(p, 8, 16);
        assert(p.subrange(8, 16) == pad(8));
        assert(p =~= p.subrange(0, 8) + p.subrange(8, 16));
    }
}

} // verus!
