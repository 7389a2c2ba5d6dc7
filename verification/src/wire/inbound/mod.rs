//! Messages from clients to the engine.

use vstd::prelude::*;

pub mod cancel_order;
pub mod cancel_replace;
pub mod kill_switch;
pub mod mass_cancel;
pub mod new_order;
pub mod snapshot_request;

pub use cancel_order::CancelOrder;
pub use cancel_replace::CancelReplace;
pub use kill_switch::{KillSwitchSet, KillSwitchState};
pub use mass_cancel::MassCancel;
pub use new_order::NewOrder;
pub use snapshot_request::SnapshotRequest;

use crate::wire::codec::fields_round_trip;
use crate::wire::error::WireError;
use crate::wire::framing::{
    complete, frame_bytes, frame_payload, frame_size, parse_undoes_write, Frame, MessageKind,
};

verus! {

/// Any message from a client.
#[derive(Debug, Clone, Copy, PartialEq, Eq, Structural)]
pub enum Inbound {
    /// Order entry.
    NewOrder(NewOrder),
    /// Cancel one order.
    CancelOrder(CancelOrder),
    /// Amend one order.
    CancelReplace(CancelReplace),
    /// Cancel all orders of an account.
    MassCancel(MassCancel),
    /// Halt or resume.
    KillSwitchSet(KillSwitchSet),
    /// Dump the book.
    SnapshotRequest(SnapshotRequest),
}

/// Kind of a message.
pub open spec fn kind_of(msg: Inbound) -> MessageKind {
    match msg {
        Inbound::NewOrder(_) => MessageKind::NewOrder,
        Inbound::CancelOrder(_) => MessageKind::CancelOrder,
        Inbound::CancelReplace(_) => MessageKind::CancelReplace,
        Inbound::MassCancel(_) => MessageKind::MassCancel,
        Inbound::KillSwitchSet(_) => MessageKind::KillSwitchSet,
        Inbound::SnapshotRequest(_) => MessageKind::SnapshotRequest,
    }
}

/// Payload of a message.
pub open spec fn payload(msg: Inbound) -> Seq<u8> {
    match msg {
        Inbound::NewOrder(m) => new_order::bytes(m),
        Inbound::CancelOrder(m) => cancel_order::bytes(m),
        Inbound::CancelReplace(m) => cancel_replace::bytes(m),
        Inbound::MassCancel(m) => mass_cancel::bytes(m),
        Inbound::KillSwitchSet(m) => kill_switch::bytes(m),
        Inbound::SnapshotRequest(m) => snapshot_request::bytes(m),
    }
}

/// A message as a frame.
pub open spec fn framed(msg: Inbound) -> Seq<u8> {
    frame_bytes(kind_of(msg), payload(msg))
}

/// Every field of the message is within its domain.
pub open spec fn valid(msg: Inbound) -> bool {
    match msg {
        Inbound::NewOrder(m) => new_order::valid(m),
        Inbound::CancelOrder(m) => cancel_order::valid(m),
        Inbound::CancelReplace(m) => cancel_replace::valid(m),
        Inbound::MassCancel(m) => mass_cancel::valid(m),
        Inbound::KillSwitchSet(_) => true,
        Inbound::SnapshotRequest(_) => true,
    }
}

/// The message that a frame stands for. An outbound kind has no place on
/// the inbound stream.
pub open spec fn parsed(kind: MessageKind, p: Seq<u8>) -> Result<Inbound, WireError> {
    match kind {
        MessageKind::NewOrder => match new_order::parsed(p) {
            Ok(m) => Ok(Inbound::NewOrder(m)),
            Err(e) => Err(e),
        },
        MessageKind::CancelOrder => match cancel_order::parsed(p) {
            Ok(m) => Ok(Inbound::CancelOrder(m)),
            Err(e) => Err(e),
        },
        MessageKind::CancelReplace => match cancel_replace::parsed(p) {
            Ok(m) => Ok(Inbound::CancelReplace(m)),
            Err(e) => Err(e),
        },
        MessageKind::MassCancel => match mass_cancel::parsed(p) {
            Ok(m) => Ok(Inbound::MassCancel(m)),
            Err(e) => Err(e),
        },
        MessageKind::KillSwitchSet => match kill_switch::parsed(p) {
            Ok(m) => Ok(Inbound::KillSwitchSet(m)),
            Err(e) => Err(e),
        },
        MessageKind::SnapshotRequest => match snapshot_request::parsed(p) {
            Ok(m) => Ok(Inbound::SnapshotRequest(m)),
            Err(e) => Err(e),
        },
        _ => Err(WireError::UnknownKind(kind.code())),
    }
}

/// Reads the message of a frame.
pub fn parse_frame(frame: Frame<'_>) -> (r: Result<Inbound, WireError>)
    ensures
        r == parsed(frame.kind, frame.payload@),
{
    match frame.kind {
        MessageKind::NewOrder => match new_order::decode(frame.payload) {
            Ok(m) => Ok(Inbound::NewOrder(m)),
            Err(e) => Err(e),
        },
        MessageKind::CancelOrder => match cancel_order::decode(frame.payload) {
            Ok(m) => Ok(Inbound::CancelOrder(m)),
            Err(e) => Err(e),
        },
        MessageKind::CancelReplace => match cancel_replace::decode(frame.payload) {
            Ok(m) => Ok(Inbound::CancelReplace(m)),
            Err(e) => Err(e),
        },
        MessageKind::MassCancel => match mass_cancel::decode(frame.payload) {
            Ok(m) => Ok(Inbound::MassCancel(m)),
            Err(e) => Err(e),
        },
        MessageKind::KillSwitchSet => match kill_switch::decode(frame.payload) {
            Ok(m) => Ok(Inbound::KillSwitchSet(m)),
            Err(e) => Err(e),
        },
        MessageKind::SnapshotRequest => match snapshot_request::decode(frame.payload) {
            Ok(m) => Ok(Inbound::SnapshotRequest(m)),
            Err(e) => Err(e),
        },
        _ => Err(WireError::UnknownKind(frame.kind.as_u8())),
    }
}

/// Appends a message as a frame.
pub fn encode_frame(msg: &Inbound, out: &mut Vec<u8>)
    ensures
        final(out)@ == old(out)@ + framed(*msg),
{
    let mut body: Vec<u8> = Vec::with_capacity(64);
    let kind = match msg {
        Inbound::NewOrder(m) => {
            new_order::encode(m, &mut body);
            MessageKind::NewOrder
        },
        Inbound::CancelOrder(m) => {
            cancel_order::encode(m, &mut body);
            MessageKind::CancelOrder
        },
        Inbound::CancelReplace(m) => {
            cancel_replace::encode(m, &mut body);
            MessageKind::CancelReplace
        },
        Inbound::MassCancel(m) => {
            mass_cancel::encode(m, &mut body);
            MessageKind::MassCancel
        },
        Inbound::KillSwitchSet(m) => {
            kill_switch::encode(m, &mut body);
            MessageKind::KillSwitchSet
        },
        Inbound::SnapshotRequest(m) => {
            snapshot_request::encode(m, &mut body);
            MessageKind::SnapshotRequest
        },
    };
    proof {
        fields_round_trip();
        assert(body@ =~= payload(*msg));
        assert(body@.len() <= 40);
    }
    let _fits = Frame::write(kind, body.as_slice(), out);
}

/// A message that was framed is read back, whatever follows it.
pub proof fn parse_undoes_encode(msg: Inbound, rest: Seq<u8>)
    requires
        valid(msg),
    ensures
        ({
            let buf = framed(msg) + rest;
            &&& complete(buf)
            &&& frame_size(buf) == framed(msg).len()
            &&& framed(msg).len() <= 45
            &&& MessageKind::from_code(buf[4]) == Some(kind_of(msg))
            &&& parsed(kind_of(msg), frame_payload(buf)) == Ok::<Inbound, WireError>(msg)
        }),
{
    match msg {
        Inbound::NewOrder(m) => new_order::decode_undoes_encode(m),
        Inbound::CancelOrder(m) => cancel_order::decode_undoes_encode(m),
        Inbound::CancelReplace(m) => cancel_replace::decode_undoes_encode(m),
        Inbound::MassCancel(m) => mass_cancel::decode_undoes_encode(m),
        Inbound::KillSwitchSet(m) => kill_switch::decode_undoes_encode(m),
        Inbound::SnapshotRequest(m) => snapshot_request::decode_undoes_encode(m),
    }
    parse_undoes_write(kind_of(msg), payload(msg), rest);
}

/// Only the payload of a message is read as that message.
pub proof fn encoding_unique(kind: MessageKind, p: Seq<u8>)
    ensures
        parsed(kind, p) matches Ok(msg) ==> kind == kind_of(msg) && p == payload(msg),
{
    new_order::encoding_unique(p);
    cancel_order::encoding_unique(p);
    cancel_replace::encoding_unique(p);
    mass_cancel::encoding_unique(p);
    kill_switch::encoding_unique(p);
    snapshot_request::encoding_unique(p);
}

} // verus!
