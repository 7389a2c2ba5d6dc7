//! Optional fields: zero on the wire stands for "none".

use vstd::prelude::*;

use crate::domain::{
    group_newtypes, CancelReason, CancelReasonError, Price, PriceError, Qty, QtyError,
    RejectReason, RejectReasonError,
};

verus! {

broadcast use group_newtypes;

/// Wire form of an optional price.
pub open spec fn price_raw(p: Option<Price>) -> i64 {
    match p {
        Some(p) => p@,
        None => 0,
    }
}

/// Wire form of an optional quantity.
pub open spec fn qty_raw(q: Option<Qty>) -> u64 {
    match q {
        Some(q) => q@,
        None => 0,
    }
}

/// Wire form of an optional rejection reason.
pub open spec fn reject_raw(r: Option<RejectReason>) -> u8 {
    match r {
        Some(r) => r.code(),
        None => 0,
    }
}

/// Wire form of an optional cancellation reason.
pub open spec fn cancel_raw(r: Option<CancelReason>) -> u8 {
    match r {
        Some(r) => r.code(),
        None => 0,
    }
}

/// The optional price that a raw field stands for.
pub open spec fn price_field(raw: i64) -> Result<Option<Price>, PriceError> {
    if raw == 0 {
        Ok(None)
    } else {
        match Price::checked(raw) {
            Ok(p) => Ok(Some(p)),
            Err(e) => Err(e),
        }
    }
}

/// The optional quantity that a raw field stands for.
pub open spec fn qty_field(raw: u64) -> Result<Option<Qty>, QtyError> {
    if raw == 0 {
        Ok(None)
    } else {
        match Qty::checked(raw) {
            Ok(q) => Ok(Some(q)),
            Err(e) => Err(e),
        }
    }
}

/// The optional rejection reason that a raw field stands for.
pub open spec fn reject_field(raw: u8) -> Result<Option<RejectReason>, RejectReasonError> {
    if raw == 0 {
        Ok(None)
    } else {
        match RejectReason::from_code(raw) {
            Ok(r) => Ok(Some(r)),
            Err(e) => Err(e),
        }
    }
}

/// The optional cancellation reason that a raw field stands for.
pub open spec fn cancel_field(raw: u8) -> Result<Option<CancelReason>, CancelReasonError> {
    if raw == 0 {
        Ok(None)
    } else {
        match CancelReason::from_code(raw) {
            Ok(r) => Ok(Some(r)),
            Err(e) => Err(e),
        }
    }
}

/// Wire form of an optional price.
pub(crate) fn raw_price(p: Option<Price>) -> (r: i64)
    ensures
        r == price_raw(p),
{
    match p {
        Some(p) => p.as_ticks(),
        None => 0,
    }
}

/// Wire form of an optional quantity.
pub(crate) fn raw_qty(q: Option<Qty>) -> (r: u64)
    ensures
        r == qty_raw(q),
{
    match q {
        Some(q) => q.as_lots(),
        None => 0,
    }
}

/// Wire form of an optional rejection reason.
pub(crate) fn raw_reject(reason: Option<RejectReason>) -> (r: u8)
    ensures
        r == reject_raw(reason),
{
    match reason {
        Some(reason) => reason.as_u8(),
        None => 0,
    }
}

/// Wire form of an optional cancellation reason.
pub(crate) fn raw_cancel(reason: Option<CancelReason>) -> (r: u8)
    ensures
        r == cancel_raw(reason),
{
    match reason {
        Some(reason) => reason.as_u8(),
        None => 0,
    }
}

/// Reads an optional price.
pub(crate) fn read_price(raw: i64) -> (r: Result<Option<Price>, PriceError>)
    ensures
        r == price_field(raw),
{
    if raw == 0 {
        return Ok(None);
    }
    match Price::new(raw) {
        Ok(p) => Ok(Some(p)),
        Err(e) => Err(e),
    }
}

/// Reads an optional quantity.
pub(crate) fn read_qty(raw: u64) -> (r: Result<Option<Qty>, QtyError>)
    ensures
        r == qty_field(raw),
{
    if raw == 0 {
        return Ok(None);
    }
    match Qty::new(raw) {
        Ok(q) => Ok(Some(q)),
        Err(e) => Err(e),
    }
}

/// Reads an optional rejection reason.
pub(crate) fn read_reject(raw: u8) -> (r: Result<Option<RejectReason>, RejectReasonError>)
    ensures
        r == reject_field(raw),
{
    if raw == 0 {
        return Ok(None);
    }
    match RejectReason::try_from(raw) {
        Ok(reason) => Ok(Some(reason)),
        Err(e) => Err(e),
    }
}

/// Reads an optional cancellation reason.
pub(crate) fn read_cancel(raw: u8) -> (r: Result<Option<CancelReason>, CancelReasonError>)
    ensures
        r == cancel_field(raw),
{
    if raw == 0 {
        return Ok(None);
    }
    match CancelReason::try_from(raw) {
        Ok(reason) => Ok(Some(reason)),
        Err(e) => Err(e),
    }
}

/// An optional price that is legal.
pub open spec fn price_valid(p: Option<Price>) -> bool {
    p is Some ==> Price::legal(p->0@)
}

/// An optional quantity that is legal.
pub open spec fn qty_valid(q: Option<Qty>) -> bool {
    q is Some ==> Qty::legal(q->0@)
}

} // verus!
