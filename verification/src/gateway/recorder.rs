//! Recording of the inbound stream.
//!
//! A recording is a run of records, each a wire frame exactly as it came
//! in, followed by the time at which it came in:
//!
//! ```text
//! | len: u32 LE | kind: u8 | payload: [u8; len - 1] | recv_ts: u64 LE |
//! ```
//!
//! A recording that was cut off in the middle of a record is read up to
//! the last complete one.

use vstd::prelude::*;

use crate::domain::{group_newtypes, RecvTs};
use crate::wire::codec::{fields_round_trip, get_i64, get_u32, i64_at, i64_bytes, put_i64, u32_at};
use crate::wire::framing::FRAME_LEN_BYTES;

verus! {

broadcast use group_newtypes;

/// Size of the timestamp after each recorded frame.
pub const RECV_TS_BYTES: usize = 8;

/// One record, borrowed from a recording.
#[derive(Debug, Clone, Copy, PartialEq, Eq)]
pub struct Record<'a> {
    /// The frame exactly as it came in.
    pub frame: &'a [u8],
    /// When it came in.
    pub recv_ts: RecvTs,
}

/// What a [`Record`] says.
pub struct RecordView {
    /// The frame exactly as it came in.
    pub frame: Seq<u8>,
    /// When it came in.
    pub recv_ts: RecvTs,
}

impl<'a> View for Record<'a> {
    type V = RecordView;

    open spec fn view(&self) -> RecordView {
        RecordView { frame: self.frame@, recv_ts: self.recv_ts }
    }
}

/// What a list of records says.
pub open spec fn record_views(s: Seq<Record<'_>>) -> Seq<RecordView> {
    Seq::new(s.len(), |i: int| s[i]@)
}

/// Class of a recording error.
#[derive(Debug, Clone, Copy, PartialEq, Eq, Structural)]
pub enum RecordErrorKind {
    /// The recording is corrupt.
    InvalidData,
}

/// Why a recording cannot be read.
#[derive(Debug, Clone, Copy, PartialEq, Eq, Structural)]
pub enum RecordError {
    /// A frame declares a length of zero, which does not even hold a kind.
    ZeroLengthFrame,
}

impl RecordError {
    /// Class of the error.
    pub fn kind(&self) -> (r: RecordErrorKind)
        ensures
            r == RecordErrorKind::InvalidData,
    {
        RecordErrorKind::InvalidData
    }
}

/// Size of the record at the front of a recording.
pub open spec fn record_size(bytes: Seq<u8>) -> nat {
    (FRAME_LEN_BYTES + u32_at(bytes, 0) + RECV_TS_BYTES) as nat
}

/// The record at the front of a recording.
pub open spec fn first_record(bytes: Seq<u8>) -> RecordView {
    let end = FRAME_LEN_BYTES + u32_at(bytes, 0);
    RecordView { frame: bytes.subrange(0, end), recv_ts: RecvTs::of(i64_at(bytes, end)) }
}

/// The records of a recording, and the number of bytes of an incomplete
/// last one.
pub open spec fn records(bytes: Seq<u8>) -> Result<(Seq<RecordView>, nat), RecordError>
    decreases bytes.len(),
{
    if bytes.len() < FRAME_LEN_BYTES {
        Ok((Seq::empty(), bytes.len()))
    } else if u32_at(bytes, 0) < 1 {
        Err(RecordError::ZeroLengthFrame)
    } else if bytes.len() < record_size(bytes) {
        Ok((Seq::empty(), bytes.len()))
    } else {
        match records(bytes.skip(record_size(bytes) as int)) {
            Err(e) => Err(e),
            Ok((rest, trailing)) => Ok((seq![first_record(bytes)] + rest, trailing)),
        }
    }
}

/// The bytes of one record.
pub open spec fn record_bytes(r: RecordView) -> Seq<u8> {
    r.frame + i64_bytes(r.recv_ts@)
}

/// The bytes of a run of records.
pub open spec fn recording(rs: Seq<RecordView>) -> Seq<u8>
    decreases rs.len(),
{
    if rs.len() == 0 {
        Seq::empty()
    } else {
        record_bytes(rs[0]) + recording(rs.drop_first())
    }
}

/// Appends one record. `frame` is the whole frame, header and all.
pub fn append_record(frame: &[u8], recv_ts: RecvTs, out: &mut Vec<u8>)
    ensures
        final(out)@ == old(out)@ + record_bytes(RecordView { frame: frame@, recv_ts }),
{
    out.extend_from_slice(frame);
    proof {
        assert(out@ =~= old(out)@ + frame@);
    }
    put_i64(out, recv_ts.as_nanos());
    proof {
        assert(out@ =~= old(out)@ + record_bytes(RecordView { frame: frame@, recv_ts }));
    }
}

/// Reads every record of a recording. Also returns the number of bytes of
/// an incomplete last record, which is left out.
pub fn read_records(bytes: &[u8]) -> (r: Result<(Vec<Record<'_>>, usize), RecordError>)
    ensures
        match r {
            Ok((v, trailing)) => records(bytes@) == Ok::<(Seq<RecordView>, nat), RecordError>(
                (record_views(v@), trailing as nat),
            ),
            Err(e) => records(bytes@) == Err::<(Seq<RecordView>, nat), RecordError>(e),
        },
{
    let len: usize = bytes.len();
    let mut out: Vec<Record<'_>> = Vec::new();
    let mut cursor: usize = 0;
    let ghost all = records(bytes@);
    proof {
        assert(bytes@.skip(0) =~= bytes@);
        assert(record_views(out@) =~= Seq::<RecordView>::empty());
        if let Ok((rest, trailing)) = all {
            assert(Seq::<RecordView>::empty() + rest =~= rest);
        }
    }
    loop
        invariant
            len == bytes@.len(),
            cursor <= len,
            all == records(bytes@),
            match records(bytes@.skip(cursor as int)) {
                Ok((rest, trailing)) => all == Ok::<(Seq<RecordView>, nat), RecordError>(
                    (record_views(out@) + rest, trailing),
                ),
                Err(e) => all == Err::<(Seq<RecordView>, nat), RecordError>(e),
            },
        ensures
            all == Ok::<(Seq<RecordView>, nat), RecordError>(
                (record_views(out@), (len - cursor) as nat),
            ),
        decreases len - cursor,
    {
        let ghost tail = bytes@.skip(cursor as int);
        proof {
            assert(record_views(out@) + Seq::<RecordView>::empty() =~= record_views(out@));
        }
        if len - cursor < FRAME_LEN_BYTES {
            break;
        }
        proof {
            assert(bytes@.subrange(cursor as int, cursor + 4) =~= tail.subrange(0, 4));
        }
        let frame_len: u32 = get_u32(bytes, cursor);
        if frame_len < 1 {
            return Err(RecordError::ZeroLengthFrame);
        }
        if ((len - cursor) as u64) < FRAME_LEN_BYTES as u64 + frame_len as u64 + RECV_TS_BYTES as u64
        {
            break;
        }
        let end: usize = cursor + FRAME_LEN_BYTES + frame_len as usize;
        let frame = &bytes[cursor..end];
        let recv_ts = RecvTs::new(get_i64(bytes, end));
        let record = Record { frame, recv_ts };
        let ghost before = out@;
        proof {
            assert(frame@ =~= tail.subrange(0, FRAME_LEN_BYTES + frame_len));
            assert(bytes@.subrange(end as int, end + 8) =~= tail.subrange(
                end - cursor,
                end - cursor + 8,
            ));
            assert(record@ == first_record(tail));
            assert(tail.skip(record_size(tail) as int) =~= bytes@.skip(end + RECV_TS_BYTES));
        }
        out.push(record);
        proof {
            assert(record_views(out@) =~= record_views(before).push(record@));
            if let Ok((rest, trailing)) = records(bytes@.skip(end + RECV_TS_BYTES)) {
                assert(record_views(before) + (seq![record@] + rest) =~= record_views(out@) + rest);
            }
        }
        cursor = end + RECV_TS_BYTES;
    }
    Ok((out, len - cursor))
}

/// The frame's length prefix says how long it is, and it holds a kind.
pub open spec fn whole_frame(frame: Seq<u8>) -> bool {
    frame.len() > FRAME_LEN_BYTES && u32_at(frame, 0) == frame.len() - FRAME_LEN_BYTES
}

/// A recording that breaks off: too short for the record that it starts.
pub open spec fn broken_off(tail: Seq<u8>) -> bool {
    tail.len() < FRAME_LEN_BYTES || (u32_at(tail, 0) >= 1 && tail.len() < record_size(tail))
}

/// Reading gives back every record that was written, and tells how much of
/// a broken-off last record there is.
pub proof fn read_undoes_record(rs: Seq<RecordView>, tail: Seq<u8>)
    requires
        forall|i: int| 0 <= i < rs.len() ==> whole_frame((#[trigger] rs[i]).frame),
        broken_off(tail),
    ensures
        records(recording(rs) + tail) == Ok::<(Seq<RecordView>, nat), RecordError>(
            (rs, tail.len()),
        ),
    decreases rs.len(),
{
    fields_round_trip();
    let bytes = recording(rs) + tail;
    if rs.len() == 0 {
        assert(bytes =~= tail);
        assert(rs =~= Seq::<RecordView>::empty());
    } else {
        let r = rs[0];
        let rest = recording(rs.drop_first()) + tail;
        let n = r.frame.len() as int;
        assert(whole_frame(r.frame));
        assert(bytes =~= r.frame + i64_bytes(r.recv_ts@) + rest);
        assert(bytes.subrange(0, 4) =~= r.frame.subrange(0, 4));
        assert(bytes.subrange(n, n + 8) =~= i64_bytes(r.recv_ts@));
        assert(first_record(bytes).frame =~= r.frame);
        assert(bytes.skip(record_size(bytes) as int) =~= rest);
        assert forall|i: int| 0 <= i < rs.drop_first().len() implies whole_frame(
            (#[trigger] rs.drop_first()[i]).frame,
        ) by {
            assert(rs.drop_first()[i] == rs[i + 1]);
        }
        read_undoes_record(rs.drop_first(), tail);
        assert(seq![r] + rs.drop_first() =~= rs);
    }
}

} // verus!
