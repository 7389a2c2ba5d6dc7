//! Messages from the engine to clients.

use vstd::prelude::*;

pub mod book_update_l2_delta;
pub mod book_update_top;
pub mod exec_report;
pub mod snapshot_response;
pub mod trade_print;

pub use book_update_l2_delta::BookUpdateL2Delta;
pub use book_update_top::BookUpdateTop;
pub use exec_report::ExecReport;
pub use snapshot_response::{SnapshotResponse, SnapshotView};
pub use trade_print::TradePrint;

use crate::wire::codec::fields_round_trip;
use crate::wire::error::WireError;
use crate::wire::framing::{
    complete, frame_bytes, frame_payload, frame_size, parse_undoes_write, Frame, MessageKind,
};

verus! {

/// Any message to a client.
#[derive(Debug, Clone, PartialEq, Eq)]
pub enum Outbound {
    /// Order lifecycle transition.
    ExecReport(ExecReport),
    /// Public trade.
    TradePrint(TradePrint),
    /// Top of book.
    BookUpdateTop(BookUpdateTop),
    /// Change of one price level.
    BookUpdateL2Delta(BookUpdateL2Delta),
    /// Dump of the book.
    SnapshotResponse(SnapshotResponse),
}

/// What an [`Outbound`] says.
pub enum OutboundView {
    /// Order lifecycle transition.
    ExecReport(ExecReport),
    /// Public trade.
    TradePrint(TradePrint),
    /// Top of book.
    BookUpdateTop(BookUpdateTop),
    /// Change of one price level.
    BookUpdateL2Delta(BookUpdateL2Delta),
    /// Dump of the book.
    SnapshotResponse(SnapshotView),
}

impl View for Outbound {
    type V = OutboundView;

    open spec fn view(&self) -> OutboundView {
        match *self {
            Outbound::ExecReport(m) => OutboundView::ExecReport(m),
            Outbound::TradePrint(m) => OutboundView::TradePrint(m),
            Outbound::BookUpdateTop(m) => OutboundView::BookUpdateTop(m),
            Outbound::BookUpdateL2Delta(m) => OutboundView::BookUpdateL2Delta(m),
            Outbound::SnapshotResponse(m) => OutboundView::SnapshotResponse(m@),
        }
    }
}

/// Kind of a message.
pub open spec fn kind_of(msg: OutboundView) -> MessageKind {
    match msg {
        OutboundView::ExecReport(_) => MessageKind::ExecReport,
        OutboundView::TradePrint(_) => MessageKind::TradePrint,
        OutboundView::BookUpdateTop(_) => MessageKind::BookUpdateTop,
        OutboundView::BookUpdateL2Delta(_) => MessageKind::BookUpdateL2Delta,
        OutboundView::SnapshotResponse(_) => MessageKind::SnapshotResponse,
    }
}

/// Payload of a message.
pub open spec fn payload(msg: OutboundView) -> Seq<u8> {
    match msg {
        OutboundView::ExecReport(m) => exec_report::bytes(m),
        OutboundView::TradePrint(m) => trade_print::bytes(m),
        OutboundView::BookUpdateTop(m) => book_update_top::bytes(m),
        OutboundView::BookUpdateL2Delta(m) => book_update_l2_delta::bytes(m),
        OutboundView::SnapshotResponse(m) => snapshot_response::bytes(m),
    }
}

/// Payload size of a message.
pub open spec fn size(msg: OutboundView) -> nat {
    match msg {
        OutboundView::ExecReport(_) => exec_report::SIZE as nat,
        OutboundView::TradePrint(_) => trade_print::SIZE as nat,
        OutboundView::BookUpdateTop(_) => book_update_top::SIZE as nat,
        OutboundView::BookUpdateL2Delta(_) => book_update_l2_delta::SIZE as nat,
        OutboundView::SnapshotResponse(m) => snapshot_response::size(m),
    }
}

/// A message as a frame.
pub open spec fn framed(msg: OutboundView) -> Seq<u8> {
    frame_bytes(kind_of(msg), payload(msg))
}

/// The message fits a frame.
pub open spec fn fits(msg: OutboundView) -> bool {
    size(msg) < u32::MAX
}

/// Every field of the message is within its domain.
pub open spec fn valid(msg: OutboundView) -> bool {
    match msg {
        OutboundView::ExecReport(m) => exec_report::valid(m),
        OutboundView::TradePrint(m) => trade_print::valid(m),
        OutboundView::BookUpdateTop(m) => book_update_top::valid(m),
        OutboundView::BookUpdateL2Delta(m) => book_update_l2_delta::valid(m),
        OutboundView::SnapshotResponse(m) => snapshot_response::levels_valid(m.bids)
            && snapshot_response::levels_valid(m.asks),
    }
}

/// The message that a frame stands for. An inbound kind has no place on
/// the outbound stream.
pub open spec fn parsed(kind: MessageKind, p: Seq<u8>) -> Result<OutboundView, WireError> {
    match kind {
        MessageKind::ExecReport => match exec_report::parsed(p) {
            Ok(m) => Ok(OutboundView::ExecReport(m)),
            Err(e) => Err(e),
        },
        MessageKind::TradePrint => match trade_print::parsed(p) {
            Ok(m) => Ok(OutboundView::TradePrint(m)),
            Err(e) => Err(e),
        },
        MessageKind::BookUpdateTop => match book_update_top::parsed(p) {
            Ok(m) => Ok(OutboundView::BookUpdateTop(m)),
            Err(e) => Err(e),
        },
        MessageKind::BookUpdateL2Delta => match book_update_l2_delta::parsed(p) {
            Ok(m) => Ok(OutboundView::BookUpdateL2Delta(m)),
            Err(e) => Err(e),
        },
        MessageKind::SnapshotResponse => match snapshot_response::parsed(p) {
            Ok(m) => Ok(OutboundView::SnapshotResponse(m)),
            Err(e) => Err(e),
        },
        _ => Err(WireError::UnknownKind(kind.code())),
    }
}

/// Reads the message of a frame.
pub fn parse_frame(frame: Frame<'_>) -> (r: Result<Outbound, WireError>)
    ensures
        match r {
            Ok(m) => parsed(frame.kind, frame.payload@) == Ok::<OutboundView, WireError>(m@),
            Err(e) => parsed(frame.kind, frame.payload@) == Err::<OutboundView, WireError>(e),
        },
{
    match frame.kind {
        MessageKind::ExecReport => match exec_report::decode(frame.payload) {
            Ok(m) => Ok(Outbound::ExecReport(m)),
            Err(e) => Err(e),
        },
        MessageKind::TradePrint => match trade_print::decode(frame.payload) {
            Ok(m) => Ok(Outbound::TradePrint(m)),
            Err(e) => Err(e),
        },
        MessageKind::BookUpdateTop => match book_update_top::decode(frame.payload) {
            Ok(m) => Ok(Outbound::BookUpdateTop(m)),
            Err(e) => Err(e),
        },
        MessageKind::BookUpdateL2Delta => match book_update_l2_delta::decode(frame.payload) {
            Ok(m) => Ok(Outbound::BookUpdateL2Delta(m)),
            Err(e) => Err(e),
        },
        MessageKind::SnapshotResponse => match snapshot_response::decode(frame.payload) {
            Ok(m) => Ok(Outbound::SnapshotResponse(m)),
            Err(e) => Err(e),
        },
        _ => Err(WireError::UnknownKind(frame.kind.as_u8())),
    }
}

/// A payload has the size that its kind asks for.
pub proof fn payload_size(msg: OutboundView)
    ensures
        payload(msg).len() == size(msg),
{
    fields_round_trip();
    if let OutboundView::SnapshotResponse(m) = msg {
        snapshot_response::levels_size(m.bids);
        snapshot_response::levels_size(m.asks);
    }
}

/// A message that was framed is read back, whatever follows it.
pub proof fn parse_undoes_encode(msg: OutboundView, rest: Seq<u8>)
    requires
        valid(msg),
        fits(msg),
    ensures
        ({
            let buf = framed(msg) + rest;
            &&& complete(buf)
            &&& frame_size(buf) == framed(msg).len()
            &&& MessageKind::from_code(buf[4]) == Some(kind_of(msg))
            &&& parsed(kind_of(msg), frame_payload(buf)) == Ok::<OutboundView, WireError>(msg)
        }),
{
    match msg {
        OutboundView::ExecReport(m) => exec_report::decode_undoes_encode(m),
        OutboundView::TradePrint(m) => trade_print::decode_undoes_encode(m),
        OutboundView::BookUpdateTop(m) => book_update_top::decode_undoes_encode(m),
        OutboundView::BookUpdateL2Delta(m) => book_update_l2_delta::decode_undoes_encode(m),
        OutboundView::SnapshotResponse(m) => snapshot_response::decode_undoes_encode(m),
    }
    payload_size(msg);
    parse_undoes_write(kind_of(msg), payload(msg), rest);
}

/// Only the payload of a message is read as that message.
pub proof fn encoding_unique(kind: MessageKind, p: Seq<u8>)
    ensures
        parsed(kind, p) matches Ok(msg) ==> kind == kind_of(msg) && p == payload(msg),
{
    exec_report::encoding_unique(p);
    trade_print::encoding_unique(p);
    book_update_top::encoding_unique(p);
    book_update_l2_delta::encoding_unique(p);
    snapshot_response::encoding_unique(p);
}

} // verus!
