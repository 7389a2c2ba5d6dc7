//! What a session does with the bytes that it has.

use vstd::prelude::*;

use crate::domain::{
    group_newtypes, AccountId, EngineSeq, ExecState, OrderId, RecvTs, RejectReason,
};
use crate::marketdata::encoder::{self, decode_undoes_encode, decoded};
use crate::wire::codec::u32_at;
use crate::wire::error::WireError;
use crate::wire::framing::{
    complete, frame_payload, frame_size, whole, Frame, MessageKind, ParseOutcome, FRAME_LEN_BYTES,
};
use crate::wire::inbound::{framed, parse_frame, parse_undoes_encode, parsed, valid, Inbound};
use crate::wire::outbound::{self, ExecReport, Outbound, OutboundView};

verus! {

broadcast use group_newtypes;

/// Default capacity of a session's read buffer.
pub const DEFAULT_READ_BUFFER: usize = 4096;

/// What stands at the front of a session's read buffer.
#[derive(Debug, Clone, Copy, PartialEq, Eq, Structural)]
pub enum DecodeStep {
    /// A message, which takes `total` bytes.
    Decoded {
        /// The message.
        msg: Inbound,
        /// Size of its frame.
        total: usize,
    },
    /// A frame that holds no valid message: its payload is not that of its
    /// kind, its kind has no place on the inbound stream, or it is empty.
    Malformed {
        /// What is wrong with it.
        err: WireError,
        /// Size of the frame.
        total: usize,
    },
    /// A frame of an unassigned kind.
    Skipped {
        /// The kind byte.
        byte: u8,
        /// Size of the frame.
        total: usize,
    },
    /// Not yet a whole frame.
    NeedMore,
}

/// What stands at the front of a buffer.
pub open spec fn front(buf: Seq<u8>) -> DecodeStep {
    let total = frame_size(buf) as usize;
    if !whole(buf) {
        DecodeStep::NeedMore
    } else if !complete(buf) {
        DecodeStep::Malformed { err: WireError::EmptyFrame, total }
    } else {
        match MessageKind::from_code(buf[4]) {
            None => DecodeStep::Skipped { byte: buf[4], total },
            Some(kind) => match parsed(kind, frame_payload(buf)) {
                Ok(msg) => DecodeStep::Decoded { msg, total },
                Err(err) => DecodeStep::Malformed { err, total },
            },
        }
    }
}

/// Tries to decode one message at the front of a buffer.
pub fn try_decode(buf: &[u8]) -> (r: DecodeStep)
    ensures
        r == front(buf@),
        r matches DecodeStep::Decoded { total, .. } ==> total <= buf@.len(),
{
    match Frame::parse_or_skip(buf) {
        Ok((ParseOutcome::Frame(frame), total)) => match parse_frame(frame) {
            Ok(msg) => DecodeStep::Decoded { msg, total },
            Err(err) => DecodeStep::Malformed { err, total },
        },
        Ok((ParseOutcome::UnknownKind(byte), total)) => DecodeStep::Skipped { byte, total },
        Err(WireError::EmptyFrame) => DecodeStep::Malformed {
            err: WireError::EmptyFrame,
            total: FRAME_LEN_BYTES,
        },
        Err(_) => DecodeStep::NeedMore,
    }
}

/// What has just happened to a session.
#[derive(Debug, Clone, Copy, PartialEq, Eq, Structural)]
pub enum SessionEvent {
    /// Bytes came in, or the last message was handed on.
    Buffered,
    /// The engine's queue has no room for the last message.
    QueueFull,
    /// The peer closed the connection.
    PeerClosed,
    /// Reading failed.
    ReadFailed,
}

/// Why a session ends.
#[derive(Debug, Clone, Copy, PartialEq, Eq, Structural)]
pub enum CloseReason {
    /// The engine's queue has no room.
    QueueFull,
    /// The peer closed the connection.
    PeerClosed,
    /// Reading failed.
    ReadFailed,
    /// The peer sent a frame that holds no valid message.
    Malformed(WireError),
    /// The peer sent a frame of an unassigned kind.
    UnknownKind(u8),
}

/// What a session does next.
#[derive(Debug, Clone, Copy, PartialEq, Eq, Structural)]
pub enum SessionAction {
    /// Drop `total` bytes from the buffer and hand the message on.
    Forward {
        /// The message.
        msg: Inbound,
        /// Size of its frame.
        total: usize,
    },
    /// Read more bytes.
    Read,
    /// End the session.
    Close(CloseReason),
}

/// What a session does next, given what happened and what it has buffered.
/// It never blocks on the engine and never skips over bytes that it cannot
/// read: in both cases it ends.
pub open spec fn next_action(event: SessionEvent, buf: Seq<u8>) -> SessionAction {
    match event {
        SessionEvent::QueueFull => SessionAction::Close(CloseReason::QueueFull),
        SessionEvent::PeerClosed => SessionAction::Close(CloseReason::PeerClosed),
        SessionEvent::ReadFailed => SessionAction::Close(CloseReason::ReadFailed),
        SessionEvent::Buffered => match front(buf) {
            DecodeStep::Decoded { msg, total } => SessionAction::Forward { msg, total },
            DecodeStep::Malformed { err, .. } => SessionAction::Close(CloseReason::Malformed(err)),
            DecodeStep::Skipped { byte, .. } => SessionAction::Close(
                CloseReason::UnknownKind(byte),
            ),
            DecodeStep::NeedMore => SessionAction::Read,
        },
    }
}

/// Decides what a session does next.
pub fn decide(event: SessionEvent, buf: &[u8]) -> (r: SessionAction)
    ensures
        r == next_action(event, buf@),
        r matches SessionAction::Forward { total, .. } ==> total <= buf@.len(),
{
    match event {
        SessionEvent::QueueFull => SessionAction::Close(CloseReason::QueueFull),
        SessionEvent::PeerClosed => SessionAction::Close(CloseReason::PeerClosed),
        SessionEvent::ReadFailed => SessionAction::Close(CloseReason::ReadFailed),
        SessionEvent::Buffered => match try_decode(buf) {
            DecodeStep::Decoded { msg, total } => SessionAction::Forward { msg, total },
            DecodeStep::Malformed { err, total: _ } => SessionAction::Close(
                CloseReason::Malformed(err),
            ),
            DecodeStep::Skipped { byte, total: _ } => SessionAction::Close(
                CloseReason::UnknownKind(byte),
            ),
            DecodeStep::NeedMore => SessionAction::Read,
        },
    }
}

/// The report that answers bytes which hold no command. They name no order
/// and no account, so the report carries id 1 for both; it is not part of
/// the engine's stream, whose numbers start at 1, so its own number is 0.
pub open spec fn malformed_report(now: RecvTs) -> ExecReport {
    ExecReport {
        engine_seq: EngineSeq::of(0),
        order_id: OrderId::of(1),
        account_id: AccountId::of(1),
        state: ExecState::Rejected,
        fill_price: None,
        fill_qty: None,
        leaves_qty: None,
        reject_reason: Some(RejectReason::MalformedMessage),
        cancel_reason: None,
        recv_ts: now,
        emit_ts: now,
    }
}

/// What a session sends before it ends: a peer that sent bytes which hold
/// no command is told so, any other gets nothing.
pub open spec fn last_words(reason: CloseReason, now: RecvTs) -> Seq<u8> {
    match reason {
        CloseReason::Malformed(_) | CloseReason::UnknownKind(_) => outbound::framed(
            OutboundView::ExecReport(malformed_report(now)),
        ),
        CloseReason::QueueFull | CloseReason::PeerClosed | CloseReason::ReadFailed => Seq::empty(),
    }
}

/// The bytes that a session sends before it ends.
pub fn closing_reply(reason: CloseReason, now: RecvTs) -> (r: Vec<u8>)
    ensures
        r@ == last_words(reason, now),
{
    let mut out: Vec<u8> = Vec::new();
    match reason {
        CloseReason::Malformed(_) | CloseReason::UnknownKind(_) => {
            let report = ExecReport {
                engine_seq: EngineSeq::new(0),
                order_id: OrderId::new(1).unwrap(),
                account_id: AccountId::new(1).unwrap(),
                state: ExecState::Rejected,
                fill_price: None,
                fill_qty: None,
                leaves_qty: None,
                reject_reason: Some(RejectReason::MalformedMessage),
                cancel_reason: None,
                recv_ts: now,
                emit_ts: now,
            };
            let _fits = encoder::encode(&Outbound::ExecReport(report), &mut out);
        },
        CloseReason::QueueFull | CloseReason::PeerClosed | CloseReason::ReadFailed => {},
    }
    proof {
        assert(out@ =~= last_words(reason, now));
    }
    out
}

/// A client reads the answer to bytes that hold no command as a
/// `Rejected{MalformedMessage}` report.
pub proof fn malformed_is_answered(reason: CloseReason, now: RecvTs)
    requires
        reason is Malformed || reason is UnknownKind,
    ensures
        ({
            let msg = OutboundView::ExecReport(malformed_report(now));
            decoded(last_words(reason, now)) == Ok::<(OutboundView, nat), WireError>(
                (msg, last_words(reason, now).len()),
            )
        }),
{
    let msg = OutboundView::ExecReport(malformed_report(now));
    decode_undoes_encode(msg, Seq::empty());
    assert(outbound::framed(msg) + Seq::<u8>::empty() =~= outbound::framed(msg));
}

/// A session waits only for bytes that are missing. Whenever the bytes that
/// the length prefix declares are there, they are a message or end the
/// session, and what follows them does not matter.
pub proof fn waits_only_for_missing_bytes(buf: Seq<u8>, rest: Seq<u8>)
    requires
        buf.len() <= usize::MAX,
    ensures
        front(buf) is NeedMore <==> buf.len() < FRAME_LEN_BYTES || buf.len() < FRAME_LEN_BYTES
            + u32_at(buf, 0),
        match front(buf) {
            DecodeStep::Decoded { total, .. } => total == FRAME_LEN_BYTES + u32_at(buf, 0),
            DecodeStep::Malformed { total, .. } => total == FRAME_LEN_BYTES + u32_at(buf, 0),
            DecodeStep::Skipped { total, .. } => total == FRAME_LEN_BYTES + u32_at(buf, 0),
            DecodeStep::NeedMore => true,
        },
        whole(buf) ==> front(buf + rest) == front(buf),
        whole(buf) ==> next_action(SessionEvent::Buffered, buf) !is Read,
{
    if whole(buf) {
        assert((buf + rest).subrange(0, 4) =~= buf.subrange(0, 4));
        assert(u32_at(buf + rest, 0) == u32_at(buf, 0));
        if complete(buf) {
            assert(frame_payload(buf + rest) =~= frame_payload(buf));
        }
    }
}

/// A message that a client framed is handed on, whatever follows it in the
/// buffer, and exactly its own bytes are dropped.
pub proof fn framed_message_is_forwarded(msg: Inbound, rest: Seq<u8>)
    requires
        valid(msg),
    ensures
        next_action(SessionEvent::Buffered, framed(msg) + rest) == (SessionAction::Forward {
            msg,
            total: framed(msg).len() as usize,
        }),
{
    parse_undoes_encode(msg, rest);
}

} // verus!
