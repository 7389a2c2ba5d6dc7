//! `KillSwitchSet` message.

use vstd::prelude::*;

use crate::domain::{group_newtypes, ClientTs};
use crate::wire::codec::{
    field_determined, fields_round_trip, find_nonzero, get_i64, get_u64, i64_at, i64_bytes,
    nonzero, pad, put_i64, put_pad, put_u64, u64_at, u64_bytes, zero_is_pad,
};
use crate::wire::error::WireError;

verus! {

broadcast use group_newtypes;

/// Position of the kill switch.
#[derive(Debug, Clone, Copy, PartialEq, Eq, Structural)]
pub enum KillSwitchState {
    /// Refuse every client command.
    Halt,
    /// Take client commands again.
    Resume,
}

impl KillSwitchState {
    /// The wire code of each position.
    pub open spec fn code(self) -> u8 {
        match self {
            KillSwitchState::Halt => 1,
            KillSwitchState::Resume => 2,
        }
    }

    /// The position with wire code `v`, if the code is assigned.
    pub open spec fn from_code(v: u8) -> Option<KillSwitchState> {
        match v {
            1 => Some(KillSwitchState::Halt),
            2 => Some(KillSwitchState::Resume),
            _ => None,
        }
    }

    /// Wire code.
    pub fn as_u8(self) -> (r: u8)
        ensures
            r == self.code(),
    {
        match self {
            KillSwitchState::Halt => 1,
            KillSwitchState::Resume => 2,
        }
    }

    /// Reads a wire code.
    pub fn of_code(v: u8) -> (r: Option<KillSwitchState>)
        ensures
            r == KillSwitchState::from_code(v),
    {
        match v {
            1 => Some(KillSwitchState::Halt),
            2 => Some(KillSwitchState::Resume),
            _ => None,
        }
    }
}

/// Operator halt or resume.
#[derive(Debug, Clone, Copy, PartialEq, Eq, Structural)]
pub struct KillSwitchSet {
    /// Client-supplied timestamp.
    pub client_ts: ClientTs,
    /// Position to put the switch in.
    pub state: KillSwitchState,
    /// Operator credential; carried, not checked here.
    pub admin_token: u64,
}

/// Payload size in bytes.
pub const SIZE: usize = 24;

/// The payload of a message.
pub open spec fn bytes(m: KillSwitchSet) -> Seq<u8> {
    i64_bytes(m.client_ts@) + seq![m.state.code()] + pad(7) + u64_bytes(m.admin_token)
}

/// The message that a payload stands for. Padding is checked first, then
/// the fields in the order in which they stand.
pub open spec fn parsed(p: Seq<u8>) -> Result<KillSwitchSet, WireError> {
    if p.len() != SIZE {
        Err(WireError::PayloadSize)
    } else if let Some(at) = nonzero(p, 9, 16) {
        Err(WireError::NonZeroPad(at))
    } else if KillSwitchState::from_code(p[8]) is None {
        Err(WireError::UnknownKillSwitchState(p[8]))
    } else {
        Ok(
            KillSwitchSet {
                client_ts: ClientTs::of(i64_at(p, 0)),
                state: KillSwitchState::from_code(p[8])->0,
                admin_token: u64_at(p, 16),
            },
        )
    }
}

/// Appends the payload of a message.
pub fn encode(msg: &KillSwitchSet, out: &mut Vec<u8>)
    ensures
        final(out)@ == old(out)@ + bytes(*msg),
{
    put_i64(out, msg.client_ts.as_nanos());
    out.push(msg.state.as_u8());
    put_pad(out, 7);
    put_u64(out, msg.admin_token);
    proof {
        assert(out@ =~= old(out)@ + bytes(*msg));
    }
}

/// Reads a payload.
pub fn decode(p: &[u8]) -> (r: Result<KillSwitchSet, WireError>)
    ensures
        r == parsed(p@),
{
    if p.len() != SIZE {
        return Err(WireError::PayloadSize);
    }
    if let Some(at) = find_nonzero(p, 9, 16) {
        return Err(WireError::NonZeroPad(at));
    }
    let client_ts = ClientTs::new(get_i64(p, 0));
    let state = match KillSwitchState::of_code(p[8]) {
        Some(v) => v,
        None => return Err(WireError::UnknownKillSwitchState(p[8])),
    };
    let admin_token: u64 = get_u64(p, 16);
    Ok(KillSwitchSet { client_ts, state, admin_token })
}

/// Decoding undoes encoding.
pub proof fn decode_undoes_encode(m: KillSwitchSet)
    ensures
        bytes(m).len() == SIZE,
        parsed(bytes(m)) == Ok::<KillSwitchSet, WireError>(m),
{
    fields_round_trip();
    let p = bytes(m);
    assert(p.subrange(0, 8) =~= i64_bytes(m.client_ts@));
    assert(p[8] == m.state.code());
    assert(p.subrange(9, 16) =~= pad(7));
    zero_is_pad(p, 9, 16);
    assert(p.subrange(16, 24) =~= u64_bytes(m.admin_token));
}

/// Only the encoding of a message decodes to it.
pub proof fn encoding_unique(p: Seq<u8>)
    ensures
        parsed(p) matches Ok(m) ==> p == bytes(m),
{
    if let Ok(m) = parsed(p) {
        fields_round_trip();
        field_determined(p, 0);
        assert(p.subrange(0, 8) == i64_bytes(m.client_ts@));
        assert(p[8] == m.state.code());
        zero_is_pad(p, 9, 16);
        assert(p.subrange(9, 16) == pad(7));
        field_determined(p, 16);
        assert(p.subrange(16, 24) == u64_bytes(m.admin_token));
        assert(p =~= p.subrange(0, 8) + p.subrange(8, 9) + p.subrange(9, 16) + p.subrange(16, 24));
        assert(p.subrange(8, 9) =~= seq![m.state.code()]);
    }
}

} // verus!
