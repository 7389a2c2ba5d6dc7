//! The bytes of each command.

use vstd::prelude::*;

use crate::domain::{
    group_newtypes, AccountIdError, DomainError, OrderIdError, OrderTypeError, PriceError, QtyError,
    SideError, TifError,
};
use crate::laws::bytes::{le32, le64, le64_signed, numbers_agree, padding_agrees, zeros};
use crate::laws::codes::{side_code, switch_code, tif_code, type_code};
use crate::wire::codec::{fields_round_trip, i64_bytes, u32_bytes, u64_bytes};
use crate::wire::error::WireError;
use crate::wire::fields::price_raw;
use crate::wire::inbound::{
    cancel_order, cancel_replace, kill_switch, mass_cancel, new_order, snapshot_request,
    CancelOrder, CancelReplace, KillSwitchSet, MassCancel, NewOrder, SnapshotRequest,
};

verus! {

/// Which payloads are new orders, what each says, and what is wrong with
/// any other: the first of these that holds.
pub proof fn new_order_is_read(p: Seq<u8>)
    ensures
        ({
            let r = new_order::parsed(p);
            if p.len() != 40 {
                r == Err::<NewOrder, WireError>(WireError::PayloadSize)
            } else if !zeros(p, 23, 24) {
                r matches Err(WireError::NonZeroPad(at)) && 23 <= at < 24 && p[at as int] != 0
                    && zeros(p, 23, at as int)
            } else if le64(p, 8) == 0 {
                r == Err::<NewOrder, WireError>(
                    WireError::Domain(DomainError::OrderId(OrderIdError::Zero)),
                )
            } else if le32(p, 16) == 0 {
                r == Err::<NewOrder, WireError>(
                    WireError::Domain(DomainError::AccountId(AccountIdError::Zero)),
                )
            } else if p[20] != 1 && p[20] != 2 {
                r == Err::<NewOrder, WireError>(
                    WireError::Domain(DomainError::Side(SideError::Unknown(p[20]))),
                )
            } else if p[21] != 1 && p[21] != 2 {
                r == Err::<NewOrder, WireError>(
                    WireError::Domain(DomainError::OrderType(OrderTypeError::Unknown(p[21]))),
                )
            } else if p[22] == 0 || p[22] > 3 {
                r == Err::<NewOrder, WireError>(
                    WireError::Domain(DomainError::Tif(TifError::Unknown(p[22]))),
                )
            } else if p[21] == 2 && (le64_signed(p, 24) != 0 || p[22] != 2) {
                r == Err::<NewOrder, WireError>(WireError::MarketTerms)
            } else if p[21] == 1 && le64_signed(p, 24) <= 0 {
                r == Err::<NewOrder, WireError>(
                    WireError::Domain(DomainError::Price(PriceError::NonPositive)),
                )
            } else if le64(p, 32) == 0 {
                r == Err::<NewOrder, WireError>(WireError::Domain(DomainError::Qty(QtyError::Zero)))
            } else {
                &&& r is Ok
                &&& r matches Ok(m) ==> {
                    &&& m.client_ts@ == le64_signed(p, 0)
                    &&& m.order_id@ == le64(p, 8)
                    &&& m.account_id@ == le32(p, 16)
                    &&& p[20] == side_code(m.side)
                    &&& p[21] == type_code(m.order_type)
                    &&& p[22] == tif_code(m.tif)
                    &&& m.price is None <==> m.order_type is Market
                    &&& m.price is None ==> le64_signed(p, 24) == 0
                    &&& m.price matches Some(x) ==> x@ == le64_signed(p, 24)
                    &&& m.qty@ == le64(p, 32)
                }
            }
        }),
{
    broadcast use group_newtypes;

    if p.len() == 40 {
        padding_agrees(p, 23, 24);
        numbers_agree(p, 0);
        numbers_agree(p, 8);
        numbers_agree(p, 16);
        numbers_agree(p, 24);
        numbers_agree(p, 32);
    }
}

/// Where each field of a new order stands.
pub proof fn new_order_is_written(m: NewOrder)
    ensures
        ({
            let p = new_order::bytes(m);
            &&& p.len() == 40
            &&& zeros(p, 23, 24)
            &&& m.client_ts@ == le64_signed(p, 0)
            &&& m.order_id@ == le64(p, 8)
            &&& m.account_id@ == le32(p, 16)
            &&& p[20] == side_code(m.side)
            &&& p[21] == type_code(m.order_type)
            &&& p[22] == tif_code(m.tif)
            &&& le64_signed(p, 24) == (match m.price {
                Some(x) => x@ as int,
                None => 0,
            })
            &&& m.qty@ == le64(p, 32)
        }),
{
    let p = new_order::bytes(m);
    fields_round_trip();
    assert(p.subrange(0, 8) =~= i64_bytes(m.client_ts@));
    numbers_agree(p, 0);
    assert(p.subrange(8, 16) =~= u64_bytes(m.order_id@));
    numbers_agree(p, 8);
    assert(p.subrange(16, 20) =~= u32_bytes(m.account_id@));
    numbers_agree(p, 16);
    assert(p.subrange(24, 32) =~= i64_bytes(price_raw(m.price)));
    numbers_agree(p, 24);
    assert(p.subrange(32, 40) =~= u64_bytes(m.qty@));
    numbers_agree(p, 32);
}

/// Which payloads are cancels, what each says, and what is wrong with any
/// other.
pub proof fn cancel_order_is_read(p: Seq<u8>)
    ensures
        ({
            let r = cancel_order::parsed(p);
            if p.len() != 24 {
                r == Err::<CancelOrder, WireError>(WireError::PayloadSize)
            } else if !zeros(p, 20, 24) {
                r matches Err(WireError::NonZeroPad(at)) && 20 <= at < 24 && p[at as int] != 0
                    && zeros(p, 20, at as int)
            } else if le64(p, 8) == 0 {
                r == Err::<CancelOrder, WireError>(
                    WireError::Domain(DomainError::OrderId(OrderIdError::Zero)),
                )
            } else if le32(p, 16) == 0 {
                r == Err::<CancelOrder, WireError>(
                    WireError::Domain(DomainError::AccountId(AccountIdError::Zero)),
                )
            } else {
                &&& r is Ok
                &&& r matches Ok(m) ==> {
                    &&& m.client_ts@ == le64_signed(p, 0)
                    &&& m.order_id@ == le64(p, 8)
                    &&& m.account_id@ == le32(p, 16)
                }
            }
        }),
{
    broadcast use group_newtypes;

    if p.len() == 24 {
        padding_agrees(p, 20, 24);
        numbers_agree(p, 0);
        numbers_agree(p, 8);
        numbers_agree(p, 16);
    }
}

/// Where each field of a cancel stands.
pub proof fn cancel_order_is_written(m: CancelOrder)
    ensures
        ({
            let p = cancel_order::bytes(m);
            &&& p.len() == 24
            &&& zeros(p, 20, 24)
            &&& m.client_ts@ == le64_signed(p, 0)
            &&& m.order_id@ == le64(p, 8)
            &&& m.account_id@ == le32(p, 16)
        }),
{
    let p = cancel_order::bytes(m);
    fields_round_trip();
    assert(p.subrange(0, 8) =~= i64_bytes(m.client_ts@));
    numbers_agree(p, 0);
    assert(p.subrange(8, 16) =~= u64_bytes(m.order_id@));
    numbers_agree(p, 8);
    assert(p.subrange(16, 20) =~= u32_bytes(m.account_id@));
    numbers_agree(p, 16);
}

/// Which payloads are amendments, what each says, and what is wrong with any
/// other.
pub proof fn cancel_replace_is_read(p: Seq<u8>)
    ensures
        ({
            let r = cancel_replace::parsed(p);
            if p.len() != 40 {
                r == Err::<CancelReplace, WireError>(WireError::PayloadSize)
            } else if !zeros(p, 20, 24) {
                r matches Err(WireError::NonZeroPad(at)) && 20 <= at < 24 && p[at as int] != 0
                    && zeros(p, 20, at as int)
            } else if le64(p, 8) == 0 {
                r == Err::<CancelReplace, WireError>(
                    WireError::Domain(DomainError::OrderId(OrderIdError::Zero)),
                )
            } else if le32(p, 16) == 0 {
                r == Err::<CancelReplace, WireError>(
                    WireError::Domain(DomainError::AccountId(AccountIdError::Zero)),
                )
            } else if le64_signed(p, 24) <= 0 {
                r == Err::<CancelReplace, WireError>(
                    WireError::Domain(DomainError::Price(PriceError::NonPositive)),
                )
            } else if le64(p, 32) == 0 {
                r == Err::<CancelReplace, WireError>(
                    WireError::Domain(DomainError::Qty(QtyError::Zero)),
                )
            } else {
                &&& r is Ok
                &&& r matches Ok(m) ==> {
                    &&& m.client_ts@ == le64_signed(p, 0)
                    &&& m.order_id@ == le64(p, 8)
                    &&& m.account_id@ == le32(p, 16)
                    &&& m.new_price@ == le64_signed(p, 24)
                    &&& m.new_qty@ == le64(p, 32)
                }
            }
        }),
{
    broadcast use group_newtypes;

    if p.len() == 40 {
        padding_agrees(p, 20, 24);
        numbers_agree(p, 0);
        numbers_agree(p, 8);
        numbers_agree(p, 16);
        numbers_agree(p, 24);
        numbers_agree(p, 32);
    }
}

/// Where each field of an amendment stands.
pub proof fn cancel_replace_is_written(m: CancelReplace)
    ensures
        ({
            let p = cancel_replace::bytes(m);
            &&& p.len() == 40
            &&& zeros(p, 20, 24)
            &&& m.client_ts@ == le64_signed(p, 0)
            &&& m.order_id@ == le64(p, 8)
            &&& m.account_id@ == le32(p, 16)
            &&& m.new_price@ == le64_signed(p, 24)
            &&& m.new_qty@ == le64(p, 32)
        }),
{
    let p = cancel_replace::bytes(m);
    fields_round_trip();
    assert(p.subrange(0, 8) =~= i64_bytes(m.client_ts@));
    numbers_agree(p, 0);
    assert(p.subrange(8, 16) =~= u64_bytes(m.order_id@));
    numbers_agree(p, 8);
    assert(p.subrange(16, 20) =~= u32_bytes(m.account_id@));
    numbers_agree(p, 16);
    assert(p.subrange(24, 32) =~= i64_bytes(m.new_price@));
    numbers_agree(p, 24);
    assert(p.subrange(32, 40) =~= u64_bytes(m.new_qty@));
    numbers_agree(p, 32);
}

/// Which payloads are mass cancels, what each says, and what is wrong with
/// any other.
pub proof fn mass_cancel_is_read(p: Seq<u8>)
    ensures
        ({
            let r = mass_cancel::parsed(p);
            if p.len() != 16 {
                r == Err::<MassCancel, WireError>(WireError::PayloadSize)
            } else if !zeros(p, 12, 16) {
                r matches Err(WireError::NonZeroPad(at)) && 12 <= at < 16 && p[at as int] != 0
                    && zeros(p, 12, at as int)
            } else if le32(p, 8) == 0 {
                r == Err::<MassCancel, WireError>(
                    WireError::Domain(DomainError::AccountId(AccountIdError::Zero)),
                )
            } else {
                &&& r is Ok
                &&& r matches Ok(m) ==> {
                    &&& m.client_ts@ == le64_signed(p, 0)
                    &&& m.account_id@ == le32(p, 8)
                }
            }
        }),
{
    broadcast use group_newtypes;

    if p.len() == 16 {
        padding_agrees(p, 12, 16);
        numbers_agree(p, 0);
        numbers_agree(p, 8);
    }
}

/// Where each field of a mass cancel stands.
pub proof fn mass_cancel_is_written(m: MassCancel)
    ensures
        ({
            let p = mass_cancel::bytes(m);
            &&& p.len() == 16
            &&& zeros(p, 12, 16)
            &&& m.client_ts@ == le64_signed(p, 0)
            &&& m.account_id@ == le32(p, 8)
        }),
{
    let p = mass_cancel::bytes(m);
    fields_round_trip();
    assert(p.subrange(0, 8) =~= i64_bytes(m.client_ts@));
    numbers_agree(p, 0);
    assert(p.subrange(8, 12) =~= u32_bytes(m.account_id@));
    numbers_agree(p, 8);
}

/// Which payloads set the kill switch, what each says, and what is wrong with
/// any other.
pub proof fn kill_switch_is_read(p: Seq<u8>)
    ensures
        ({
            let r = kill_switch::parsed(p);
            if p.len() != 24 {
                r == Err::<KillSwitchSet, WireError>(WireError::PayloadSize)
            } else if !zeros(p, 9, 16) {
                r matches Err(WireError::NonZeroPad(at)) && 9 <= at < 16 && p[at as int] != 0
                    && zeros(p, 9, at as int)
            } else if p[8] != 1 && p[8] != 2 {
                r == Err::<KillSwitchSet, WireError>(WireError::UnknownKillSwitchState(p[8]))
            } else {
                &&& r is Ok
                &&& r matches Ok(m) ==> {
                    &&& m.client_ts@ == le64_signed(p, 0)
                    &&& p[8] == switch_code(m.state)
                    &&& m.admin_token == le64(p, 16)
                }
            }
        }),
{
    broadcast use group_newtypes;

    if p.len() == 24 {
        padding_agrees(p, 9, 16);
        numbers_agree(p, 0);
        numbers_agree(p, 16);
    }
}

/// Where each field of a kill-switch command stands.
pub proof fn kill_switch_is_written(m: KillSwitchSet)
    ensures
        ({
            let p = kill_switch::bytes(m);
            &&& p.len() == 24
            &&& zeros(p, 9, 16)
            &&& m.client_ts@ == le64_signed(p, 0)
            &&& p[8] == switch_code(m.state)
            &&& m.admin_token == le64(p, 16)
        }),
{
    let p = kill_switch::bytes(m);
    fields_round_trip();
    assert(p.subrange(0, 8) =~= i64_bytes(m.client_ts@));
    numbers_agree(p, 0);
    assert(p.subrange(16, 24) =~= u64_bytes(m.admin_token));
    numbers_agree(p, 16);
}

/// Which payloads are snapshot requests, what each says, and what is wrong
/// with any other.
pub proof fn snapshot_request_is_read(p: Seq<u8>)
    ensures
        ({
            let r = snapshot_request::parsed(p);
            if p.len() != 16 {
                r == Err::<SnapshotRequest, WireError>(WireError::PayloadSize)
            } else if !zeros(p, 8, 16) {
                r matches Err(WireError::NonZeroPad(at)) && 8 <= at < 16 && p[at as int] != 0
                    && zeros(p, 8, at as int)
            } else {
                &&& r is Ok
                &&& r matches Ok(m) ==> {
                    &&& m.request_id == le64(p, 0)
                }
            }
        }),
{
    broadcast use group_newtypes;

    if p.len() == 16 {
        padding_agrees(p, 8, 16);
        numbers_agree(p, 0);
    }
}

/// Where each field of a snapshot request stands.
pub proof fn snapshot_request_is_written(m: SnapshotRequest)
    ensures
        ({
            let p = snapshot_request::bytes(m);
            &&& p.len() == 16
            &&& zeros(p, 8, 16)
            &&& m.request_id == le64(p, 0)
        }),
{
    let p = snapshot_request::bytes(m);
    fields_round_trip();
    assert(p.subrange(0, 8) =~= u64_bytes(m.request_id));
    numbers_agree(p, 0);
}

} // verus!
