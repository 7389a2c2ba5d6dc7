//! Frames, and which message each holds.

use vstd::prelude::*;

use crate::domain::{DomainError, PriceError, QtyError};
use crate::laws::bytes::{le32, le64, le64_signed, numbers_agree};
use crate::laws::codes::{kind_code, kind_codes};
use crate::matching::types::Level;
use crate::wire::codec::{fields_round_trip, i64_bytes, u32_bytes, u64_bytes};
use crate::wire::error::WireError;
use crate::wire::framing::{
    complete, frame_bytes, frame_payload, frame_size, incomplete, parse_undoes_write, whole,
    MessageKind,
};
use crate::wire::inbound::{
    self, cancel_order, cancel_replace, kill_switch, mass_cancel, new_order, snapshot_request,
    Inbound,
};
use crate::wire::outbound::{
    self, book_update_l2_delta, book_update_top, exec_report, trade_print, OutboundView,
    SnapshotView,
};
use crate::wire::outbound::snapshot_response::{self, levels_bytes, levels_field, levels_size};

verus! {

/// A frame is the length of what follows it in four bytes, the code of its
/// kind, and the payload.
pub proof fn frame_is_written(kind: MessageKind, payload: Seq<u8>)
    requires
        payload.len() < 0xffff_ffff,
    ensures
        ({
            let f = frame_bytes(kind, payload);
            &&& f.len() == payload.len() + 5
            &&& le32(f, 0) == payload.len() + 1
            &&& f[4] == kind_code(kind)
            &&& forall|i: int| 0 <= i < payload.len() ==> f[i + 5] == #[trigger] payload[i]
        }),
{
    let f = frame_bytes(kind, payload);
    fields_round_trip();
    parse_undoes_write(kind, payload, Seq::empty());
    assert(f + Seq::<u8>::empty() =~= f);
    numbers_agree(f, 0);
    kind_codes(kind, f[4]);
}

/// A frame can be read once its four bytes of length are there and as many
/// bytes as they say, which must be at least one. Its payload is what follows
/// the kind. A buffer that holds all bytes of a frame of length zero holds an
/// empty frame; any other holds too little.
pub proof fn frame_is_read(buf: Seq<u8>)
    ensures
        whole(buf) <==> buf.len() >= 4 && buf.len() >= 4 + le32(buf, 0),
        complete(buf) <==> buf.len() >= 4 && buf.len() >= 4 + le32(buf, 0) && le32(buf, 0) > 0,
        !complete(buf) ==> incomplete(buf) == (if buf.len() >= 4 && le32(buf, 0) == 0 {
            WireError::EmptyFrame
        } else {
            WireError::Truncated
        }),
        buf.len() >= 4 ==> frame_size(buf) == 4 + le32(buf, 0),
        complete(buf) ==> frame_payload(buf).len() == le32(buf, 0) - 1,
        complete(buf) ==> forall|i: int|
            0 <= i < frame_payload(buf).len() ==> #[trigger] frame_payload(buf)[i] == buf[i + 5],
{
    numbers_agree(buf, 0);
}

/// The frame of a command carries the code of its kind and its own payload.
pub proof fn command_is_framed(msg: Inbound)
    ensures
        match msg {
            Inbound::NewOrder(m) => inbound::framed(msg) == frame_bytes(
                MessageKind::NewOrder,
                new_order::bytes(m),
            ),
            Inbound::CancelOrder(m) => inbound::framed(msg) == frame_bytes(
                MessageKind::CancelOrder,
                cancel_order::bytes(m),
            ),
            Inbound::CancelReplace(m) => inbound::framed(msg) == frame_bytes(
                MessageKind::CancelReplace,
                cancel_replace::bytes(m),
            ),
            Inbound::MassCancel(m) => inbound::framed(msg) == frame_bytes(
                MessageKind::MassCancel,
                mass_cancel::bytes(m),
            ),
            Inbound::KillSwitchSet(m) => inbound::framed(msg) == frame_bytes(
                MessageKind::KillSwitchSet,
                kill_switch::bytes(m),
            ),
            Inbound::SnapshotRequest(m) => inbound::framed(msg) == frame_bytes(
                MessageKind::SnapshotRequest,
                snapshot_request::bytes(m),
            ),
        },
{
}

/// A payload is read as its kind says. A kind that goes out is no command.
pub proof fn command_is_told_by_its_kind(kind: MessageKind, p: Seq<u8>)
    ensures
        match inbound::parsed(kind, p) {
            Ok(Inbound::NewOrder(m)) => {
                &&& kind_code(kind) == 1
                &&& new_order::parsed(p) matches Ok(x) && x == m
            },
            Ok(Inbound::CancelOrder(m)) => {
                &&& kind_code(kind) == 2
                &&& cancel_order::parsed(p) matches Ok(x) && x == m
            },
            Ok(Inbound::CancelReplace(m)) => {
                &&& kind_code(kind) == 3
                &&& cancel_replace::parsed(p) matches Ok(x) && x == m
            },
            Ok(Inbound::MassCancel(m)) => {
                &&& kind_code(kind) == 4
                &&& mass_cancel::parsed(p) matches Ok(x) && x == m
            },
            Ok(Inbound::KillSwitchSet(m)) => {
                &&& kind_code(kind) == 5
                &&& kill_switch::parsed(p) matches Ok(x) && x == m
            },
            Ok(Inbound::SnapshotRequest(m)) => {
                &&& kind_code(kind) == 6
                &&& snapshot_request::parsed(p) matches Ok(x) && x == m
            },
            Err(e) => {
                ||| kind_code(kind) == 1 && (new_order::parsed(p) matches Err(x) && x == e)
                ||| kind_code(kind) == 2 && (cancel_order::parsed(p) matches Err(x) && x == e)
                ||| kind_code(kind) == 3 && (cancel_replace::parsed(p) matches Err(x) && x == e)
                ||| kind_code(kind) == 4 && (mass_cancel::parsed(p) matches Err(x) && x == e)
                ||| kind_code(kind) == 5 && (kill_switch::parsed(p) matches Err(x) && x == e)
                ||| kind_code(kind) == 6 && (snapshot_request::parsed(p) matches Err(x) && x == e)
                ||| kind_code(kind) > 100 && e == WireError::UnknownKind(kind_code(kind))
            },
        },
{
}

/// The frame of a message that goes out carries the code of its kind and
/// its own payload.
pub proof fn message_is_framed(msg: OutboundView)
    ensures
        match msg {
            OutboundView::ExecReport(m) => outbound::framed(msg) == frame_bytes(
                MessageKind::ExecReport,
                exec_report::bytes(m),
            ),
            OutboundView::TradePrint(m) => outbound::framed(msg) == frame_bytes(
                MessageKind::TradePrint,
                trade_print::bytes(m),
            ),
            OutboundView::BookUpdateTop(m) => outbound::framed(msg) == frame_bytes(
                MessageKind::BookUpdateTop,
                book_update_top::bytes(m),
            ),
            OutboundView::BookUpdateL2Delta(m) => outbound::framed(msg) == frame_bytes(
                MessageKind::BookUpdateL2Delta,
                book_update_l2_delta::bytes(m),
            ),
            OutboundView::SnapshotResponse(m) => outbound::framed(msg) == frame_bytes(
                MessageKind::SnapshotResponse,
                snapshot_response::bytes(m),
            ),
        },
{
}

/// A payload is read as its kind says. A command is no message that goes
/// out.
pub proof fn message_is_told_by_its_kind(kind: MessageKind, p: Seq<u8>)
    ensures
        match outbound::parsed(kind, p) {
            Ok(OutboundView::ExecReport(m)) => {
                &&& kind_code(kind) == 101
                &&& exec_report::parsed(p) matches Ok(x) && x == m
            },
            Ok(OutboundView::TradePrint(m)) => {
                &&& kind_code(kind) == 102
                &&& trade_print::parsed(p) matches Ok(x) && x == m
            },
            Ok(OutboundView::BookUpdateTop(m)) => {
                &&& kind_code(kind) == 103
                &&& book_update_top::parsed(p) matches Ok(x) && x == m
            },
            Ok(OutboundView::BookUpdateL2Delta(m)) => {
                &&& kind_code(kind) == 104
                &&& book_update_l2_delta::parsed(p) matches Ok(x) && x == m
            },
            Ok(OutboundView::SnapshotResponse(m)) => {
                &&& kind_code(kind) == 105
                &&& snapshot_response::parsed(p) matches Ok(x) && x == m
            },
            Err(e) => {
                ||| kind_code(kind) == 101 && (exec_report::parsed(p) matches Err(x) && x == e)
                ||| kind_code(kind) == 102 && (trade_print::parsed(p) matches Err(x) && x == e)
                ||| kind_code(kind) == 103 && (book_update_top::parsed(p) matches Err(x) && x == e)
                ||| kind_code(kind) == 104 && (book_update_l2_delta::parsed(p) matches Err(x)
                    && x == e)
                ||| kind_code(kind) == 105 && (snapshot_response::parsed(p) matches Err(x)
                    && x == e)
                ||| kind_code(kind) < 7 && e == WireError::UnknownKind(kind_code(kind))
            },
        },
{
}

/// Where the fields of a level stand in a list of levels.
proof fn level_stands(s: Seq<Level>, i: int)
    requires
        0 <= i < s.len(),
    ensures
        levels_bytes(s).len() == 16 * s.len(),
        s[i].price@ == le64_signed(levels_bytes(s), 16 * i),
        s[i].qty@ == le64(levels_bytes(s), 16 * i + 8),
    decreases s.len(),
{
    fields_round_trip();
    levels_size(s);
    levels_size(s.drop_first());
    let b = levels_bytes(s);
    let rest = levels_bytes(s.drop_first());
    if i == 0 {
        let price = b.subrange(0, 8);
        let qty = b.subrange(8, 16);
        assert(price =~= i64_bytes(s[0].price@));
        assert(qty =~= u64_bytes(s[0].qty@));
        numbers_agree(b, 0);
        numbers_agree(b, 8);
    } else {
        level_stands(s.drop_first(), i - 1);
        assert forall|k: int| 0 <= k < 8 implies #[trigger] rest[16 * (i - 1) + k] == b[16 * i
            + k] && rest[16 * (i - 1) + 8 + k] == b[16 * i + 8 + k] by {}
        assert forall|k: int| 0 <= k < 8 implies #[trigger] rest[16 * (i - 1) + 8 + k] == b[16 * i
            + 8 + k] by {}
        same_numbers(rest, 16 * (i - 1), b, 16 * i);
        same_numbers(rest, 16 * (i - 1) + 8, b, 16 * i + 8);
    }
}

/// Where each field of a snapshot stands: the number of bids and of asks
/// after its four numbers, then the bids, then the asks, sixteen bytes each.
pub proof fn snapshot_is_written(m: SnapshotView, i: int)
    requires
        m.bids.len() <= 0xffff_ffff,
        m.asks.len() <= 0xffff_ffff,
    ensures
        ({
            let p = snapshot_response::bytes(m);
            let asks_at = 40 + 16 * m.bids.len();
            &&& p.len() == asks_at + 16 * m.asks.len()
            &&& m.engine_seq@ == le64(p, 0)
            &&& m.request_id == le64(p, 8)
            &&& m.recv_ts@ == le64_signed(p, 16)
            &&& m.emit_ts@ == le64_signed(p, 24)
            &&& m.bids.len() == le32(p, 32)
            &&& m.asks.len() == le32(p, 36)
            &&& 0 <= i < m.bids.len() ==> m.bids[i].price@ == le64_signed(p, 40 + 16 * i)
                && m.bids[i].qty@ == le64(p, 48 + 16 * i)
            &&& 0 <= i < m.asks.len() ==> m.asks[i].price@ == le64_signed(p, asks_at + 16 * i)
                && m.asks[i].qty@ == le64(p, asks_at + 8 + 16 * i)
        }),
{
    fields_round_trip();
    levels_size(m.bids);
    levels_size(m.asks);
    let p = snapshot_response::bytes(m);
    let b = levels_bytes(m.bids);
    let a = levels_bytes(m.asks);
    let end = 40 + 16 * m.bids.len();
    assert(p.subrange(0, 8) =~= u64_bytes(m.engine_seq@));
    assert(p.subrange(8, 16) =~= u64_bytes(m.request_id));
    assert(p.subrange(16, 24) =~= i64_bytes(m.recv_ts@));
    assert(p.subrange(24, 32) =~= i64_bytes(m.emit_ts@));
    assert(p.subrange(32, 36) =~= u32_bytes(m.bids.len() as u32));
    assert(p.subrange(36, 40) =~= u32_bytes(m.asks.len() as u32));
    numbers_agree(p, 0);
    numbers_agree(p, 8);
    numbers_agree(p, 16);
    numbers_agree(p, 24);
    numbers_agree(p, 32);
    numbers_agree(p, 36);
    if 0 <= i < m.bids.len() {
        level_stands(m.bids, i);
        same_numbers(b, 16 * i, p, 40 + 16 * i);
        same_numbers(b, 16 * i + 8, p, 48 + 16 * i);
    }
    if 0 <= i < m.asks.len() {
        level_stands(m.asks, i);
        same_numbers(a, 16 * i, p, end + 16 * i);
        same_numbers(a, 16 * i + 8, p, end + 8 + 16 * i);
    }
}

/// A level with a positive price and a quantity stands at an offset.
pub open spec fn level_at(p: Seq<u8>, at: int) -> bool {
    le64_signed(p, at) > 0 && le64(p, at + 8) > 0
}

/// What is wrong with the level at an offset.
pub open spec fn fault_at(p: Seq<u8>, at: int) -> DomainError {
    if le64_signed(p, at) <= 0 {
        DomainError::Price(PriceError::NonPositive)
    } else {
        DomainError::Qty(QtyError::Zero)
    }
}

/// Reading a list of levels.
proof fn levels_are_read(p: Seq<u8>, at: int, n: nat)
    requires
        0 <= at,
        at + 16 * n <= p.len(),
    ensures
        match levels_field(p, at, n) {
            Ok(_) => forall|i: int| 0 <= i < n ==> #[trigger] level_at(p, at + 16 * i),
            Err(e) => exists|i: int|
                0 <= i < n && !(#[trigger] level_at(p, at + 16 * i)) && e == fault_at(
                    p,
                    at + 16 * i,
                ) && forall|j: int| 0 <= j < i ==> #[trigger] level_at(p, at + 16 * j),
        },
    decreases n,
{
    if n > 0 {
        let next = at + 16;
        numbers_agree(p, at);
        numbers_agree(p, at + 8);
        levels_are_read(p, next, (n - 1) as nat);
        if !level_at(p, at) {
            assert(!level_at(p, at + 16 * 0));
        } else {
            match levels_field(p, next, (n - 1) as nat) {
                Ok(_) => {
                    assert forall|i: int| 0 <= i < n implies #[trigger] level_at(
                        p,
                        at + 16 * i,
                    ) by {
                        if i > 0 {
                            assert(level_at(p, next + 16 * (i - 1)));
                        }
                    }
                },
                Err(e) => {
                    let k = choose|i: int|
                        0 <= i < n - 1 && !(#[trigger] level_at(p, next + 16 * i)) && e == fault_at(
                            p,
                            next + 16 * i,
                        ) && forall|j: int| 0 <= j < i ==> #[trigger] level_at(p, next + 16 * j);
                    assert(next + 16 * k == at + 16 * (k + 1));
                    assert forall|j: int| 0 <= j < k + 1 implies #[trigger] level_at(
                        p,
                        at + 16 * j,
                    ) by {
                        if j > 0 {
                            assert(level_at(p, next + 16 * (j - 1)));
                        }
                    }
                    assert(!level_at(p, at + 16 * (k + 1)));
                },
            }
        }
    }
}

/// Which payloads are snapshots, and what is wrong with any other: its size
/// is not that of as many levels as it declares, or the first level without
/// a positive price or without a quantity is at fault. What a snapshot says
/// is what it would be written as.
pub proof fn snapshot_is_read(p: Seq<u8>)
    ensures
        ({
            let r = snapshot_response::parsed(p);
            let n = le32(p, 32) + le32(p, 36);
            if p.len() < 40 || p.len() != 40 + 16 * n {
                r == Err::<SnapshotView, WireError>(WireError::PayloadSize)
            } else if forall|i: int| 0 <= i < n ==> #[trigger] level_at(p, 40 + 16 * i) {
                &&& r is Ok
                &&& r matches Ok(m) ==> p == snapshot_response::bytes(m)
            } else {
                exists|i: int|
                    0 <= i < n && !(#[trigger] level_at(p, 40 + 16 * i)) && (forall|j: int|
                        0 <= j < i ==> #[trigger] level_at(p, 40 + 16 * j)) && r == Err::<
                        SnapshotView,
                        WireError,
                    >(WireError::Domain(fault_at(p, 40 + 16 * i)))
            }
        }),
{
    if p.len() >= 40 {
        numbers_agree(p, 32);
        numbers_agree(p, 36);
        let b = le32(p, 32);
        let a = le32(p, 36);
        if p.len() == 40 + 16 * (b + a) {
            let end = 40 + 16 * b;
            snapshot_response::encoding_unique(p);
            levels_are_read(p, 40, b as nat);
            levels_are_read(p, end, a as nat);
            if let Err(e) = levels_field(p, 40, b as nat) {
                let i = choose|i: int|
                    0 <= i < b && !(#[trigger] level_at(p, 40 + 16 * i)) && e == fault_at(
                        p,
                        40 + 16 * i,
                    ) && forall|j: int| 0 <= j < i ==> #[trigger] level_at(p, 40 + 16 * j);
                assert(!level_at(p, 40 + 16 * i));
            } else if let Err(e) = levels_field(p, end, a as nat) {
                let i = choose|i: int|
                    0 <= i < a && !(#[trigger] level_at(p, end + 16 * i)) && e == fault_at(
                        p,
                        end + 16 * i,
                    ) && forall|j: int| 0 <= j < i ==> #[trigger] level_at(p, end + 16 * j);
                assert(end + 16 * i == 40 + 16 * (b + i));
                assert forall|j: int| 0 <= j < b + i implies #[trigger] level_at(
                    p,
                    40 + 16 * j,
                ) by {
                    if j >= b {
                        assert(level_at(p, end + 16 * (j - b)));
                    }
                }
                assert(!level_at(p, 40 + 16 * (b + i)));
            } else {
                assert forall|j: int| 0 <= j < b + a implies #[trigger] level_at(
                    p,
                    40 + 16 * j,
                ) by {
                    if j >= b {
                        assert(level_at(p, end + 16 * (j - b)));
                    }
                }
            }
        }
    }
}

/// The same eight bytes spell the same numbers.
proof fn same_numbers(a: Seq<u8>, i: int, b: Seq<u8>, j: int)
    requires
        forall|k: int| 0 <= k < 8 ==> #[trigger] a[i + k] == b[j + k],
    ensures
        le64(a, i) == le64(b, j),
        le64_signed(a, i) == le64_signed(b, j),
{
    reveal(le32);
    reveal(le64);
    reveal(le64_signed);
    assert(a[i + 0] == b[j + 0]);
    assert(a[i + 1] == b[j + 1]);
    assert(a[i + 2] == b[j + 2]);
    assert(a[i + 3] == b[j + 3]);
    assert(a[i + 4] == b[j + 4]);
    assert(a[i + 5] == b[j + 5]);
    assert(a[i + 6] == b[j + 6]);
    assert(a[i + 7] == b[j + 7]);
}

} // verus!
