//! The recording that golden-file tests replay: a few resting orders on
//! each side, two aggressive orders and a cancel.

use vstd::prelude::*;

use crate::domain::{
    group_newtypes, AccountId, ClientTs, OrderId, OrderType, Price, Qty, RecvTs, Side, Tif,
};
use crate::gateway::recorder::{append_record, record_bytes, recording, RecordView};
use crate::wire::inbound::{encode_frame, framed, CancelOrder, Inbound, NewOrder};

verus! {

broadcast use group_newtypes;

/// Record of a resting limit order.
pub open spec fn order_record(
    id: u64,
    account: u32,
    side: Side,
    price: i64,
    qty: u64,
    recv_ts: i64,
) -> RecordView {
    RecordView {
        frame: framed(
            Inbound::NewOrder(
                NewOrder {
                    client_ts: ClientTs::of(0),
                    order_id: OrderId::of(id),
                    account_id: AccountId::of(account),
                    side,
                    order_type: OrderType::Limit,
                    tif: Tif::Gtc,
                    price: Some(Price::of(price)),
                    qty: Qty::of(qty),
                },
            ),
        ),
        recv_ts: RecvTs::of(recv_ts),
    }
}

/// Record of a cancel.
pub open spec fn cancel_record(id: u64, account: u32, recv_ts: i64) -> RecordView {
    RecordView {
        frame: framed(
            Inbound::CancelOrder(
                CancelOrder {
                    client_ts: ClientTs::of(0),
                    order_id: OrderId::of(id),
                    account_id: AccountId::of(account),
                },
            ),
        ),
        recv_ts: RecvTs::of(recv_ts),
    }
}

/// The records of the fixture: account 2 rests asks at 100, 102 and 105,
/// account 7 rests bids at 95 and 97, account 9 takes up to 102 and then
/// offers down to 95, and account 2 cancels its ask at 105.
pub open spec fn fixture_records() -> Seq<RecordView> {
    seq![
        order_record(1, 2, Side::Ask, 100, 5, 1_000),
        order_record(2, 2, Side::Ask, 102, 3, 1_001),
        order_record(3, 2, Side::Ask, 105, 4, 1_002),
        order_record(10, 7, Side::Bid, 95, 4, 1_010),
        order_record(11, 7, Side::Bid, 97, 2, 1_011),
        order_record(100, 9, Side::Bid, 102, 6, 2_000),
        order_record(101, 9, Side::Ask, 95, 3, 2_001),
        cancel_record(3, 2, 2_002),
    ]
}

/// A recording with one more record at its end.
proof fn recording_push(rs: Seq<RecordView>, r: RecordView)
    ensures
        recording(rs.push(r)) == recording(rs) + record_bytes(r),
    decreases rs.len(),
{
    if rs.len() == 0 {
        assert(rs.push(r).drop_first() =~= Seq::<RecordView>::empty());
        assert(recording(rs.push(r).drop_first()) == Seq::<u8>::empty());
        assert(recording(rs.push(r)) =~= recording(rs) + record_bytes(r));
    } else {
        recording_push(rs.drop_first(), r);
        assert(rs.push(r).drop_first() =~= rs.drop_first().push(r));
        assert(recording(rs.push(r)) =~= recording(rs) + record_bytes(r));
    }
}

/// Appends the record of a command.
fn push_record(msg: Inbound, recv_ts: i64, out: &mut Vec<u8>)
    ensures
        final(out)@ == old(out)@ + record_bytes(
            RecordView { frame: framed(msg), recv_ts: RecvTs::of(recv_ts) },
        ),
{
    let mut frame: Vec<u8> = Vec::new();
    encode_frame(&msg, &mut frame);
    proof {
        assert(frame@ =~= framed(msg));
    }
    append_record(frame.as_slice(), RecvTs::new(recv_ts), out);
}

/// Appends the record of a resting limit order.
pub fn push_new_order(
    out: &mut Vec<u8>,
    id: u64,
    account: u32,
    side: Side,
    price: i64,
    qty: u64,
    recv_ts: i64,
)
    requires
        id > 0,
        account > 0,
        Price::legal(price),
        Qty::legal(qty),
    ensures
        final(out)@ == old(out)@ + record_bytes(
            order_record(id, account, side, price, qty, recv_ts),
        ),
{
    let msg = NewOrder {
        client_ts: ClientTs::new(0),
        order_id: OrderId::new(id).unwrap(),
        account_id: AccountId::new(account).unwrap(),
        side,
        order_type: OrderType::Limit,
        tif: Tif::Gtc,
        price: Some(Price::new(price).unwrap()),
        qty: Qty::new(qty).unwrap(),
    };
    push_record(Inbound::NewOrder(msg), recv_ts, out);
}

/// Appends the record of a cancel.
pub fn push_cancel(out: &mut Vec<u8>, id: u64, account: u32, recv_ts: i64)
    requires
        id > 0,
        account > 0,
    ensures
        final(out)@ == old(out)@ + record_bytes(cancel_record(id, account, recv_ts)),
{
    let msg = CancelOrder {
        client_ts: ClientTs::new(0),
        order_id: OrderId::new(id).unwrap(),
        account_id: AccountId::new(account).unwrap(),
    };
    push_record(Inbound::CancelOrder(msg), recv_ts, out);
}

/// The fixture as bytes.
pub fn fixture() -> (out: Vec<u8>)
    ensures
        out@ == recording(fixture_records()),
{
    let mut out: Vec<u8> = Vec::new();
    push_new_order(&mut out, 1, 2, Side::Ask, 100, 5, 1_000);
    push_new_order(&mut out, 2, 2, Side::Ask, 102, 3, 1_001);
    push_new_order(&mut out, 3, 2, Side::Ask, 105, 4, 1_002);
    push_new_order(&mut out, 10, 7, Side::Bid, 95, 4, 1_010);
    push_new_order(&mut out, 11, 7, Side::Bid, 97, 2, 1_011);
    push_new_order(&mut out, 100, 9, Side::Bid, 102, 6, 2_000);
    push_new_order(&mut out, 101, 9, Side::Ask, 95, 3, 2_001);
    push_cancel(&mut out, 3, 2, 2_002);
    proof {
        let rs = fixture_records();
        let none = Seq::<RecordView>::empty();
        recording_push(none, rs[0]);
        recording_push(none.push(rs[0]), rs[1]);
        recording_push(none.push(rs[0]).push(rs[1]), rs[2]);
        recording_push(none.push(rs[0]).push(rs[1]).push(rs[2]), rs[3]);
        let four = none.push(rs[0]).push(rs[1]).push(rs[2]).push(rs[3]);
        recording_push(four, rs[4]);
        recording_push(four.push(rs[4]), rs[5]);
        recording_push(four.push(rs[4]).push(rs[5]), rs[6]);
        recording_push(four.push(rs[4]).push(rs[5]).push(rs[6]), rs[7]);
        assert(rs =~= four.push(rs[4]).push(rs[5]).push(rs[6]).push(rs[7]));
        assert(recording(none) + record_bytes(rs[0]) =~= record_bytes(rs[0]));
    }
    out
}

} // verus!
