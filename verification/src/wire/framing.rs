//! Length-prefixed frames.
//!
//! ```text
//! | len: u32 LE | kind: u8 | payload: [u8; len - 1] |
//! ```
//!
//! `len` counts the kind byte and the payload, so a frame takes `4 + len`
//! bytes.

use vstd::prelude::*;

use crate::wire::codec::{fields_round_trip, get_u32, put_u32, u32_at, u32_bytes};
use crate::wire::error::WireError;

verus! {

/// Version of the message layouts.
pub const WIRE_VERSION: u16 = 1;

/// Size of the length prefix.
pub const FRAME_LEN_BYTES: usize = 4;

/// Size of the length prefix and the kind byte.
pub const FRAME_HEADER_BYTES: usize = 5;

/// Kind of a message. The codes are stable.
#[derive(Debug, Clone, Copy, PartialEq, Eq, Structural)]
pub enum MessageKind {
    /// Inbound: order entry.
    NewOrder,
    /// Inbound: cancel one order.
    CancelOrder,
    /// Inbound: amend one order.
    CancelReplace,
    /// Inbound: cancel all orders of an account.
    MassCancel,
    /// Inbound: halt or resume.
    KillSwitchSet,
    /// Inbound: dump the book.
    SnapshotRequest,
    /// Outbound: order lifecycle transition.
    ExecReport,
    /// Outbound: public trade.
    TradePrint,
    /// Outbound: top of book.
    BookUpdateTop,
    /// Outbound: change of one price level.
    BookUpdateL2Delta,
    /// Outbound: dump of the book.
    SnapshotResponse,
}

impl MessageKind {
    /// The wire code of each kind.
    pub open spec fn code(self) -> u8 {
        match self {
            MessageKind::NewOrder => 1,
            MessageKind::CancelOrder => 2,
            MessageKind::CancelReplace => 3,
            MessageKind::MassCancel => 4,
            MessageKind::KillSwitchSet => 5,
            MessageKind::SnapshotRequest => 6,
            MessageKind::ExecReport => 101,
            MessageKind::TradePrint => 102,
            MessageKind::BookUpdateTop => 103,
            MessageKind::BookUpdateL2Delta => 104,
            MessageKind::SnapshotResponse => 105,
        }
    }

    /// The kind with wire code `v`, if the code is assigned.
    pub open spec fn from_code(v: u8) -> Option<MessageKind> {
        match v {
            1 => Some(MessageKind::NewOrder),
            2 => Some(MessageKind::CancelOrder),
            3 => Some(MessageKind::CancelReplace),
            4 => Some(MessageKind::MassCancel),
            5 => Some(MessageKind::KillSwitchSet),
            6 => Some(MessageKind::SnapshotRequest),
            101 => Some(MessageKind::ExecReport),
            102 => Some(MessageKind::TradePrint),
            103 => Some(MessageKind::BookUpdateTop),
            104 => Some(MessageKind::BookUpdateL2Delta),
            105 => Some(MessageKind::SnapshotResponse),
            _ => None,
        }
    }

    /// Wire code.
    pub fn as_u8(self) -> (r: u8)
        ensures
            r == self.code(),
    {
        match self {
            MessageKind::NewOrder => 1,
            MessageKind::CancelOrder => 2,
            MessageKind::CancelReplace => 3,
            MessageKind::MassCancel => 4,
            MessageKind::KillSwitchSet => 5,
            MessageKind::SnapshotRequest => 6,
            MessageKind::ExecReport => 101,
            MessageKind::TradePrint => 102,
            MessageKind::BookUpdateTop => 103,
            MessageKind::BookUpdateL2Delta => 104,
            MessageKind::SnapshotResponse => 105,
        }
    }

    /// Reads a wire code.
    pub fn of_code(v: u8) -> (r: Option<MessageKind>)
        ensures
            r == MessageKind::from_code(v),
    {
        match v {
            1 => Some(MessageKind::NewOrder),
            2 => Some(MessageKind::CancelOrder),
            3 => Some(MessageKind::CancelReplace),
            4 => Some(MessageKind::MassCancel),
            5 => Some(MessageKind::KillSwitchSet),
            6 => Some(MessageKind::SnapshotRequest),
            101 => Some(MessageKind::ExecReport),
            102 => Some(MessageKind::TradePrint),
            103 => Some(MessageKind::BookUpdateTop),
            104 => Some(MessageKind::BookUpdateL2Delta),
            105 => Some(MessageKind::SnapshotResponse),
            _ => None,
        }
    }
}

/// One frame, borrowed from a buffer.
#[derive(Debug, Clone, Copy, PartialEq, Eq)]
pub struct Frame<'a> {
    /// Kind of the message.
    pub kind: MessageKind,
    /// Payload.
    pub payload: &'a [u8],
}

/// What stands at the front of a buffer.
#[derive(Debug, Clone, Copy, PartialEq, Eq)]
pub enum ParseOutcome<'a> {
    /// A frame of a known kind.
    Frame(Frame<'a>),
    /// A complete frame whose kind byte is not assigned.
    UnknownKind(u8),
}

/// The bytes of a frame.
pub open spec fn frame_bytes(kind: MessageKind, payload: Seq<u8>) -> Seq<u8> {
    u32_bytes((payload.len() + 1) as u32) + seq![kind.code()] + payload
}

/// The buffer holds as many bytes as the length prefix at its front
/// declares.
pub open spec fn whole(buf: Seq<u8>) -> bool {
    buf.len() >= FRAME_LEN_BYTES && buf.len() >= FRAME_LEN_BYTES + u32_at(buf, 0)
}

/// A complete frame stands at the front of the buffer: its length prefix
/// counts at least the kind byte, and the buffer holds that many bytes.
pub open spec fn complete(buf: Seq<u8>) -> bool {
    whole(buf) && u32_at(buf, 0) >= 1
}

/// Why there is no complete frame at the front of the buffer: bytes are
/// missing, or the frame is there but declares a length of zero.
pub open spec fn incomplete(buf: Seq<u8>) -> WireError {
    if whole(buf) {
        WireError::EmptyFrame
    } else {
        WireError::Truncated
    }
}

/// Size of the frame at the front of the buffer.
pub open spec fn frame_size(buf: Seq<u8>) -> nat {
    (FRAME_LEN_BYTES + u32_at(buf, 0)) as nat
}

/// Payload of the frame at the front of the buffer.
pub open spec fn frame_payload(buf: Seq<u8>) -> Seq<u8> {
    buf.subrange(FRAME_HEADER_BYTES as int, frame_size(buf) as int)
}

impl<'a> Frame<'a> {
    /// Reads the frame at the front of a buffer, and how many bytes it
    /// takes.
    pub fn parse(buf: &'a [u8]) -> (r: Result<(Frame<'a>, usize), WireError>)
        ensures
            match r {
                Ok((frame, total)) => {
                    &&& complete(buf@)
                    &&& total == frame_size(buf@)
                    &&& MessageKind::from_code(buf@[4]) == Some(frame.kind)
                    &&& frame.payload@ == frame_payload(buf@)
                },
                Err(WireError::UnknownKind(byte)) => {
                    &&& complete(buf@)
                    &&& byte == buf@[4]
                    &&& MessageKind::from_code(byte) is None
                },
                Err(e) => !complete(buf@) && e == incomplete(buf@),
            },
    {
        match Frame::parse_or_skip(buf) {
            Ok((ParseOutcome::Frame(frame), total)) => Ok((frame, total)),
            Ok((ParseOutcome::UnknownKind(byte), _total)) => Err(WireError::UnknownKind(byte)),
            Err(e) => Err(e),
        }
    }

    /// Like [`Frame::parse`], but an unknown kind is no error: the caller
    /// learns how many bytes to skip.
    pub fn parse_or_skip(buf: &'a [u8]) -> (r: Result<(ParseOutcome<'a>, usize), WireError>)
        ensures
            match r {
                Ok((ParseOutcome::Frame(frame), total)) => {
                    &&& complete(buf@)
                    &&& total == frame_size(buf@)
                    &&& MessageKind::from_code(buf@[4]) == Some(frame.kind)
                    &&& frame.payload@ == frame_payload(buf@)
                },
                Ok((ParseOutcome::UnknownKind(byte), total)) => {
                    &&& complete(buf@)
                    &&& total == frame_size(buf@)
                    &&& byte == buf@[4]
                    &&& MessageKind::from_code(byte) is None
                },
                Err(e) => !complete(buf@) && e == incomplete(buf@),
            },
    {
        let avail: usize = buf.len();
        if avail < FRAME_LEN_BYTES {
            return Err(WireError::Truncated);
        }
        let len: u32 = get_u32(buf, 0);
        if (avail as u64) < FRAME_LEN_BYTES as u64 + len as u64 {
            return Err(WireError::Truncated);
        }
        if len < 1 {
            return Err(WireError::EmptyFrame);
        }
        let total: usize = FRAME_LEN_BYTES + len as usize;
        let byte: u8 = buf[FRAME_LEN_BYTES];
        match MessageKind::of_code(byte) {
            Some(kind) => {
                let payload = &buf[FRAME_HEADER_BYTES..total];
                Ok((ParseOutcome::Frame(Frame { kind, payload }), total))
            },
            None => Ok((ParseOutcome::UnknownKind(byte), total)),
        }
    }

    /// Appends a frame.
    pub fn write(kind: MessageKind, payload: &[u8], out: &mut Vec<u8>) -> (r: Result<(), WireError>)
        ensures
            r == (if payload@.len() < u32::MAX {
                Ok::<(), WireError>(())
            } else {
                Err::<(), WireError>(WireError::PayloadTooLarge)
            }),
            final(out)@ == (if r is Ok {
                old(out)@ + frame_bytes(kind, payload@)
            } else {
                old(out)@
            }),
    {
        let n: usize = payload.len();
        if n as u64 >= u32::MAX as u64 {
            return Err(WireError::PayloadTooLarge);
        }
        put_u32(out, n as u32 + 1);
        out.push(kind.as_u8());
        out.extend_from_slice(payload);
        proof {
            assert(out@ =~= old(out)@ + frame_bytes(kind, payload@));
        }
        Ok(())
    }
}

/// A frame that was written is read back, whatever follows it.
pub proof fn parse_undoes_write(kind: MessageKind, payload: Seq<u8>, rest: Seq<u8>)
    requires
        payload.len() < u32::MAX,
    ensures
        ({
            let buf = frame_bytes(kind, payload) + rest;
            &&& complete(buf)
            &&& frame_size(buf) == frame_bytes(kind, payload).len()
            &&& MessageKind::from_code(buf[4]) == Some(kind)
            &&& frame_payload(buf) == payload
            &&& frame_bytes(kind, payload).len() == payload.len() + FRAME_HEADER_BYTES
        }),
{
    fields_round_trip();
    let buf = frame_bytes(kind, payload) + rest;
    assert(buf.subrange(0, 4) =~= u32_bytes((payload.len() + 1) as u32));
    assert(frame_payload(buf) =~= payload);
}

} // verus!
