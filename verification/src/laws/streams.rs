//! What a session, a client and a recording make of their bytes.

use vstd::prelude::*;

use crate::domain::{group_newtypes, RecvTs};
use crate::gateway::recorder::{record_bytes, records, RecordError, RecordView};
use crate::gateway::session::{
    front, last_words, malformed_report, next_action, CloseReason, DecodeStep, SessionAction,
    SessionEvent,
};
use crate::laws::bytes::{le32, le64, le64_signed, numbers_agree};
use crate::laws::codes::{kind_code, kind_codes};
use crate::laws::framing::{frame_is_read, frame_is_written, message_is_framed};
use crate::laws::wire_messages::exec_report_is_written;
use crate::marketdata::encoder::decoded;
use crate::wire::codec::{fields_round_trip, i64_bytes};
use crate::wire::error::WireError;
use crate::wire::framing::MessageKind;
use crate::wire::inbound;
use crate::wire::outbound::{self, exec_report, ExecReport, OutboundView};

verus! {

broadcast use group_newtypes;

/// A buffer that holds fewer bytes than its first four declare holds no
/// whole frame yet. A frame of length zero is malformed. A frame whose kind
/// has no code is skipped. Any other frame holds the command that its kind
/// and payload say, or is malformed as they say. It takes four bytes more
/// than its length.
pub proof fn session_reads_frames(buf: Seq<u8>, kind: MessageKind)
    requires
        buf.len() <= usize::MAX,
    ensures
        buf.len() < 4 || buf.len() < 4 + le32(buf, 0) <==> front(buf) is NeedMore,
        buf.len() >= 4 && le32(buf, 0) == 0 ==> front(buf) == (DecodeStep::Malformed {
            err: WireError::EmptyFrame,
            total: 4,
        }),
        buf.len() >= 4 && buf.len() >= 4 + le32(buf, 0) && le32(buf, 0) > 0 ==> {
            let total = (4 + le32(buf, 0)) as usize;
            let p = buf.subrange(5, 4 + le32(buf, 0));
            &&& buf[4] == 0 || (6 < buf[4] && buf[4] < 101) || buf[4] > 105 ==> front(buf) == (
            DecodeStep::Skipped { byte: buf[4], total })
            &&& buf[4] == kind_code(kind) ==> front(buf) == (match inbound::parsed(kind, p) {
                Ok(msg) => DecodeStep::Decoded { msg, total },
                Err(err) => DecodeStep::Malformed { err, total },
            })
        },
{
    frame_is_read(buf);
    if buf.len() >= 4 && buf.len() >= 4 + le32(buf, 0) && le32(buf, 0) > 0 {
        kind_codes(kind, buf[4]);
    }
}

/// A session ends when its queue is full, its peer is gone, reading failed,
/// or its buffer starts with a frame that is malformed or of no known kind.
/// It hands on the command that its buffer starts with, and reads on where
/// there is no whole frame.
pub proof fn session_acts_on_what_it_has(buf: Seq<u8>)
    ensures
        next_action(SessionEvent::QueueFull, buf) == SessionAction::Close(CloseReason::QueueFull),
        next_action(SessionEvent::PeerClosed, buf) == SessionAction::Close(CloseReason::PeerClosed),
        next_action(SessionEvent::ReadFailed, buf) == SessionAction::Close(CloseReason::ReadFailed),
        match front(buf) {
            DecodeStep::NeedMore => next_action(SessionEvent::Buffered, buf) is Read,
            DecodeStep::Decoded { msg, total } => next_action(SessionEvent::Buffered, buf) == (
            SessionAction::Forward { msg, total }),
            DecodeStep::Malformed { err, .. } => next_action(SessionEvent::Buffered, buf)
                == SessionAction::Close(CloseReason::Malformed(err)),
            DecodeStep::Skipped { byte, .. } => next_action(SessionEvent::Buffered, buf)
                == SessionAction::Close(CloseReason::UnknownKind(byte)),
        },
{
}

/// A peer that sent bytes which hold no command gets one report: number 0,
/// order 1 of account 1, rejected as malformed, with nothing filled and
/// nothing left, received and sent at the time of the answer. A session that
/// ends for another reason sends nothing.
#[verifier::spinoff_prover]
pub proof fn bad_bytes_are_answered(reason: CloseReason, now: RecvTs)
    ensures
        ({
            let r = last_words(reason, now);
            if reason is Malformed || reason is UnknownKind {
                &&& r.len() == 69
                &&& le32(r, 0) == 65
                &&& r[4] == 101
                &&& le64(r, 5) == 0
                &&& le64(r, 13) == 1
                &&& le32(r, 21) == 1
                &&& r[25] == 2
                &&& r[26] == 15
                &&& r[27] == 0
                &&& le64_signed(r, 29) == 0
                &&& le64(r, 37) == 0
                &&& le64(r, 45) == 0
                &&& le64_signed(r, 53) == now@
                &&& le64_signed(r, 61) == now@
            } else {
                r.len() == 0
            }
        }),
{
    if reason is Malformed || reason is UnknownKind {
        let m = malformed_report(now);
        let p = exec_report::bytes(m);
        exec_report_is_written(m);
        message_is_framed(OutboundView::ExecReport(m));
        frame_is_written(MessageKind::ExecReport, p);
        shifted_report(p, last_words(reason, now));
    }
}

/// Where the fields of a report stand in its frame.
proof fn shifted_report(p: Seq<u8>, f: Seq<u8>)
    requires
        p.len() == 64,
        forall|i: int| 0 <= i < p.len() ==> f[i + 5] == #[trigger] p[i],
    ensures
        le64(f, 5) == le64(p, 0),
        le64(f, 13) == le64(p, 8),
        le32(f, 21) == le32(p, 16),
        f[25] == p[20],
        f[26] == p[21],
        f[27] == p[22],
        le64_signed(f, 29) == le64_signed(p, 24),
        le64(f, 37) == le64(p, 32),
        le64(f, 45) == le64(p, 40),
        le64_signed(f, 53) == le64_signed(p, 48),
        le64_signed(f, 61) == le64_signed(p, 56),
{
    shifted(p, f, 0);
    shifted(p, f, 8);
    shifted(p, f, 16);
    shifted(p, f, 24);
    shifted(p, f, 32);
    shifted(p, f, 40);
    shifted(p, f, 48);
    shifted(p, f, 56);
}

/// Numbers in a payload stand five bytes later in its frame.
proof fn shifted(p: Seq<u8>, f: Seq<u8>, at: int)
    requires
        0 <= at,
        at + 8 <= p.len(),
        forall|i: int| 0 <= i < p.len() ==> f[i + 5] == #[trigger] p[i],
    ensures
        le32(f, at + 5) == le32(p, at),
        le64(f, at + 5) == le64(p, at),
        le64_signed(f, at + 5) == le64_signed(p, at),
{
    reveal(le32);
    reveal(le64);
    reveal(le64_signed);
    assert(f[at + 5] == p[at]);
    assert(f[at + 1 + 5] == p[at + 1]);
    assert(f[at + 2 + 5] == p[at + 2]);
    assert(f[at + 3 + 5] == p[at + 3]);
    assert(f[at + 4 + 5] == p[at + 4]);
    assert(f[at + 5 + 5] == p[at + 5]);
    assert(f[at + 6 + 5] == p[at + 6]);
    assert(f[at + 7 + 5] == p[at + 7]);
}

/// A client finds no message in a buffer that holds fewer bytes than its
/// first four declare, nor in an empty frame, nor in one whose kind has no
/// code. Any other frame is read as its kind and payload say, and takes four
/// bytes more than its length.
pub proof fn client_reads_frames(buf: Seq<u8>, kind: MessageKind)
    ensures
        ({
            let r = decoded(buf);
            let total = (4 + le32(buf, 0)) as nat;
            let p = buf.subrange(5, 4 + le32(buf, 0));
            if buf.len() < 4 || buf.len() < 4 + le32(buf, 0) {
                r == Err::<(OutboundView, nat), WireError>(WireError::Truncated)
            } else if le32(buf, 0) == 0 {
                r == Err::<(OutboundView, nat), WireError>(WireError::EmptyFrame)
            } else if buf[4] == 0 || (6 < buf[4] && buf[4] < 101) || buf[4] > 105 {
                r == Err::<(OutboundView, nat), WireError>(WireError::UnknownKind(buf[4]))
            } else {
                buf[4] == kind_code(kind) ==> r == (match outbound::parsed(kind, p) {
                    Ok(m) => Ok::<(OutboundView, nat), WireError>((m, total)),
                    Err(e) => Err(e),
                })
            }
        }),
{
    frame_is_read(buf);
    if buf.len() >= 4 && buf.len() >= 4 + le32(buf, 0) && le32(buf, 0) > 0 {
        kind_codes(kind, buf[4]);
    }
}

/// A record is its frame and then the time at which it came in.
pub proof fn record_is_written(r: RecordView)
    ensures
        record_bytes(r).len() == r.frame.len() + 8,
        forall|i: int| 0 <= i < r.frame.len() ==> #[trigger] record_bytes(r)[i] == r.frame[i],
        le64_signed(record_bytes(r), r.frame.len() as int) == r.recv_ts@,
{
    let b = record_bytes(r);
    let n = r.frame.len() as int;
    fields_round_trip();
    assert(b.subrange(n, n + 8) =~= i64_bytes(r.recv_ts@));
    numbers_agree(b, n);
}

/// A recording is read record by record. Fewer than four bytes, or fewer
/// than the frame that they declare and eight more, are an incomplete last
/// record and only counted. A frame that declares a length of zero makes the
/// recording unreadable.
pub proof fn recording_is_read(bytes: Seq<u8>)
    ensures
        ({
            let r = records(bytes);
            let end = 4 + le32(bytes, 0);
            if bytes.len() < 4 {
                r == Ok::<(Seq<RecordView>, nat), RecordError>((Seq::empty(), bytes.len()))
            } else if le32(bytes, 0) == 0 {
                r == Err::<(Seq<RecordView>, nat), RecordError>(RecordError::ZeroLengthFrame)
            } else if bytes.len() < end + 8 {
                r == Ok::<(Seq<RecordView>, nat), RecordError>((Seq::empty(), bytes.len()))
            } else {
                match records(bytes.skip(end + 8)) {
                    Err(e) => r == Err::<(Seq<RecordView>, nat), RecordError>(e),
                    Ok((rest, trailing)) => {
                        &&& r is Ok
                        &&& r->Ok_0.1 == trailing
                        &&& r->Ok_0.0.len() == rest.len() + 1
                        &&& r->Ok_0.0[0].frame == bytes.take(end)
                        &&& r->Ok_0.0[0].recv_ts@ == le64_signed(bytes, end)
                        &&& r->Ok_0.0.skip(1) == rest
                    },
                }
            }
        }),
{
    numbers_agree(bytes, 0);
    let end = 4 + le32(bytes, 0);
    if bytes.len() >= 4 && le32(bytes, 0) > 0 && bytes.len() >= end + 8 {
        numbers_agree(bytes, end);
        assert(bytes.subrange(0, end) =~= bytes.take(end));
    }
}

} // verus!
