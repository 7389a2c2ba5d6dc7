//! The client's side of the wire.

use vstd::prelude::*;

use crate::marketdata::encoder::{decode, decoded};
use crate::wire::error::WireError;
use crate::wire::inbound::{encode_frame, framed, Inbound};
use crate::wire::outbound::Outbound;

verus! {

/// How long a client waits for a message by default, in milliseconds.
pub const DEFAULT_RECV_TIMEOUT_MILLIS: u64 = 500;

/// What a client finds at the front of its receive buffer.
#[derive(Debug, PartialEq, Eq)]
pub enum Received {
    /// A message, which takes `total` bytes.
    Message {
        /// The message.
        msg: Outbound,
        /// Size of its frame.
        total: usize,
    },
    /// Not yet a whole frame.
    NeedMore,
    /// Bytes that are no outbound message.
    Failed(WireError),
}

/// The bytes that a client sends for a command.
pub fn request(msg: &Inbound) -> (r: Vec<u8>)
    ensures
        r@ == framed(*msg),
{
    let mut out: Vec<u8> = Vec::with_capacity(64);
    encode_frame(msg, &mut out);
    proof {
        assert(out@ =~= framed(*msg));
    }
    out
}

/// Looks at the front of a receive buffer. Only a frame that is not there
/// as a whole is worth waiting for.
pub fn poll(buf: &[u8]) -> (r: Received)
    ensures
        match decoded(buf@) {
            Ok((m, n)) => r matches Received::Message { msg, total } && msg@ == m && total == n,
            Err(WireError::Truncated) => r is NeedMore,
            Err(e) => r matches Received::Failed(f) && f == e,
        },
{
    match decode(buf) {
        Ok((msg, total)) => Received::Message { msg, total },
        Err(WireError::Truncated) => Received::NeedMore,
        Err(e) => Received::Failed(e),
    }
}

/// Why a client's wait for a message ended without one.
#[derive(Debug, Clone, Copy, PartialEq, Eq, Structural)]
pub enum RecvFault {
    /// The bytes are no outbound message.
    Wire(WireError),
    /// Time ran out.
    Timeout,
}

/// What a waiting client does next.
#[derive(Debug, PartialEq, Eq)]
pub enum RecvStep {
    /// Drop `total` bytes from the buffer and hand the message out.
    Deliver {
        /// The message.
        msg: Outbound,
        /// Size of its frame.
        total: usize,
    },
    /// Read more bytes.
    Read,
    /// Give up.
    Fail(RecvFault),
}

/// Decides what a waiting client does next. A message that has already
/// arrived is handed out even if time has run out.
pub fn recv_step(buf: &[u8], expired: bool) -> (r: RecvStep)
    ensures
        match decoded(buf@) {
            Ok((m, n)) => r matches RecvStep::Deliver { msg, total } && msg@ == m && total == n,
            Err(WireError::Truncated) => if expired {
                r matches RecvStep::Fail(f) && f == RecvFault::Timeout
            } else {
                r is Read
            },
            Err(e) => r matches RecvStep::Fail(f) && f == RecvFault::Wire(e),
        },
{
    match poll(buf) {
        Received::Message { msg, total } => RecvStep::Deliver { msg, total },
        Received::Failed(e) => RecvStep::Fail(RecvFault::Wire(e)),
        Received::NeedMore => if expired {
            RecvStep::Fail(RecvFault::Timeout)
        } else {
            RecvStep::Read
        },
    }
}

/// Whether a client that drains messages asks for another one.
pub fn wants_more(collected: usize, max: usize, expired: bool) -> (r: bool)
    ensures
        r == (collected < max && !expired),
{
    collected < max && !expired
}

} // verus!
