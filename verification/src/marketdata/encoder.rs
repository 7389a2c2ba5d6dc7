//! Outbound messages as framed bytes, and back.

use vstd::prelude::*;

use crate::wire::error::WireError;
use crate::wire::framing::{
    complete, frame_payload, frame_size, incomplete, Frame, MessageKind,
    FRAME_HEADER_BYTES as HEADER_BYTES,
};
use crate::wire::outbound::{
    book_update_l2_delta, book_update_top, exec_report, fits, framed, parse_frame,
    parse_undoes_encode, parsed, payload, payload_size, snapshot_response, trade_print, valid,
    Outbound, OutboundView,
};

verus! {

/// Size of a frame header: length prefix and kind byte.
pub const FRAME_HEADER_BYTES: usize = HEADER_BYTES;

/// What stands at the front of a buffer of outbound frames, and how many
/// bytes it takes.
pub open spec fn decoded(buf: Seq<u8>) -> Result<(OutboundView, nat), WireError> {
    if !complete(buf) {
        Err(incomplete(buf))
    } else {
        match MessageKind::from_code(buf[4]) {
            None => Err(WireError::UnknownKind(buf[4])),
            Some(kind) => match parsed(kind, frame_payload(buf)) {
                Err(e) => Err(e),
                Ok(m) => Ok((m, frame_size(buf))),
            },
        }
    }
}

/// Appends a message as a frame. Only a snapshot can be too large for one.
pub fn encode(msg: &Outbound, out: &mut Vec<u8>) -> (r: Result<(), WireError>)
    ensures
        r == (if fits(msg@) {
            Ok::<(), WireError>(())
        } else {
            Err::<(), WireError>(WireError::PayloadTooLarge)
        }),
        final(out)@ == (if r is Ok {
            old(out)@ + framed(msg@)
        } else {
            old(out)@
        }),
{
    let mut body: Vec<u8> = Vec::with_capacity(64);
    let kind = match msg {
        Outbound::ExecReport(m) => {
            exec_report::encode(m, &mut body);
            MessageKind::ExecReport
        },
        Outbound::TradePrint(m) => {
            trade_print::encode(m, &mut body);
            MessageKind::TradePrint
        },
        Outbound::BookUpdateTop(m) => {
            book_update_top::encode(m, &mut body);
            MessageKind::BookUpdateTop
        },
        Outbound::BookUpdateL2Delta(m) => {
            book_update_l2_delta::encode(m, &mut body);
            MessageKind::BookUpdateL2Delta
        },
        Outbound::SnapshotResponse(m) => {
            let n_bid: u64 = m.bids.len() as u64;
            let n_ask: u64 = m.asks.len() as u64;
            let bytes: u128 = snapshot_response::HEADER as u128 + snapshot_response::LEVEL as u128
                * (n_bid as u128 + n_ask as u128);
            if bytes >= u32::MAX as u128 {
                return Err(WireError::PayloadTooLarge);
            }
            snapshot_response::encode(m, &mut body);
            MessageKind::SnapshotResponse
        },
    };
    proof {
        assert(body@ =~= payload(msg@));
        payload_size(msg@);
    }
    Frame::write(kind, body.as_slice(), out)
}

/// Reads the message at the front of a buffer, and how many bytes it takes.
pub fn decode(buf: &[u8]) -> (r: Result<(Outbound, usize), WireError>)
    ensures
        match r {
            Ok((m, total)) => decoded(buf@) == Ok::<(OutboundView, nat), WireError>(
                (m@, total as nat),
            ),
            Err(e) => decoded(buf@) == Err::<(OutboundView, nat), WireError>(e),
        },
{
    let (frame, total) = match Frame::parse(buf) {
        Ok(v) => v,
        Err(e) => return Err(e),
    };
    match parse_frame(frame) {
        Ok(msg) => Ok((msg, total)),
        Err(e) => Err(e),
    }
}

/// Decoding undoes encoding, whatever follows in the buffer.
pub proof fn decode_undoes_encode(msg: OutboundView, rest: Seq<u8>)
    requires
        valid(msg),
        fits(msg),
    ensures
        decoded(framed(msg) + rest) == Ok::<(OutboundView, nat), WireError>(
            (msg, framed(msg).len()),
        ),
{
    parse_undoes_encode(msg, rest);
}

} // verus!
