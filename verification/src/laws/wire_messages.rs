//! The bytes of each message that goes out.

use vstd::prelude::*;

use crate::domain::{
    group_newtypes, AccountIdError, CancelReasonError, DomainError, ExecStateError, OrderIdError,
    Price, PriceError, Qty, QtyError, RejectReasonError, SideError,
};
use crate::laws::bytes::{le32, le64, le64_signed, numbers_agree, padding_agrees, zeros};
use crate::laws::codes::{cancel_code, reject_code, side_code, state_code};
use crate::wire::codec::{fields_round_trip, i64_bytes, u32_bytes, u64_bytes};
use crate::wire::error::WireError;
use crate::wire::fields::{price_raw, qty_raw};
use crate::wire::outbound::{
    book_update_l2_delta, book_update_top, exec_report, trade_print, BookUpdateL2Delta,
    BookUpdateTop, ExecReport, TradePrint,
};
use crate::wire::outbound::book_update_top::side_bytes;

verus! {

/// One side of a top of the book.
proof fn side_is_written(side: Option<(Price, Qty)>)
    ensures
        side_bytes(side).len() == 16,
        side_bytes(side).subrange(0, 8) == i64_bytes(
            match side {
                Some((x, _)) => x@,
                None => 0,
            },
        ),
        side_bytes(side).subrange(8, 16) == u64_bytes(
            match side {
                Some((_, y)) => y@,
                None => 0,
            },
        ),
{
    fields_round_trip();
    if let Some((x, y)) = side {
        assert(side_bytes(side).subrange(0, 8) =~= i64_bytes(x@));
        assert(side_bytes(side).subrange(8, 16) =~= u64_bytes(y@));
    } else {
        assert(side_bytes(side).subrange(0, 8) =~= i64_bytes(0));
        assert(side_bytes(side).subrange(8, 16) =~= u64_bytes(0));
    }
}

/// Which payloads are reports, what each says, and what is wrong with any
/// other.
pub proof fn exec_report_is_read(p: Seq<u8>)
    ensures
        ({
            let r = exec_report::parsed(p);
            if p.len() != 64 {
                r == Err::<ExecReport, WireError>(WireError::PayloadSize)
            } else if !zeros(p, 23, 24) {
                r matches Err(WireError::NonZeroPad(at)) && 23 <= at < 24 && p[at as int] != 0
                    && zeros(p, 23, at as int)
            } else if le64(p, 8) == 0 {
                r == Err::<ExecReport, WireError>(
                    WireError::Domain(DomainError::OrderId(OrderIdError::Zero)),
                )
            } else if le32(p, 16) == 0 {
                r == Err::<ExecReport, WireError>(
                    WireError::Domain(DomainError::AccountId(AccountIdError::Zero)),
                )
            } else if p[20] == 0 || p[20] > 6 {
                r == Err::<ExecReport, WireError>(
                    WireError::Domain(DomainError::ExecState(ExecStateError::Unknown(p[20]))),
                )
            } else if p[21] > 15 {
                r == Err::<ExecReport, WireError>(
                    WireError::Domain(DomainError::RejectReason(RejectReasonError::Unknown(p[21]))),
                )
            } else if p[22] > 5 {
                r == Err::<ExecReport, WireError>(
                    WireError::Domain(DomainError::CancelReason(CancelReasonError::Unknown(p[22]))),
                )
            } else if le64_signed(p, 24) < 0 {
                r == Err::<ExecReport, WireError>(
                    WireError::Domain(DomainError::Price(PriceError::NonPositive)),
                )
            } else {
                &&& r is Ok
                &&& r matches Ok(m) ==> {
                    &&& m.engine_seq@ == le64(p, 0)
                    &&& m.order_id@ == le64(p, 8)
                    &&& m.account_id@ == le32(p, 16)
                    &&& p[20] == state_code(m.state)
                    &&& m.reject_reason is None <==> p[21] == 0
                    &&& m.reject_reason matches Some(x) ==> p[21] == reject_code(x)
                    &&& m.cancel_reason is None <==> p[22] == 0
                    &&& m.cancel_reason matches Some(x) ==> p[22] == cancel_code(x)
                    &&& m.fill_price is None <==> le64_signed(p, 24) == 0
                    &&& m.fill_price matches Some(x) ==> x@ == le64_signed(p, 24)
                    &&& m.fill_qty is None <==> le64(p, 32) == 0
                    &&& m.fill_qty matches Some(x) ==> x@ == le64(p, 32)
                    &&& m.leaves_qty is None <==> le64(p, 40) == 0
                    &&& m.leaves_qty matches Some(x) ==> x@ == le64(p, 40)
                    &&& m.recv_ts@ == le64_signed(p, 48)
                    &&& m.emit_ts@ == le64_signed(p, 56)
                }
            }
        }),
{
    broadcast use group_newtypes;

    if p.len() == 64 {
        padding_agrees(p, 23, 24);
        numbers_agree(p, 0);
        numbers_agree(p, 8);
        numbers_agree(p, 16);
        numbers_agree(p, 24);
        numbers_agree(p, 32);
        numbers_agree(p, 40);
        numbers_agree(p, 48);
        numbers_agree(p, 56);
    }
}

/// Where each field of a report stands.
pub proof fn exec_report_is_written(m: ExecReport)
    ensures
        ({
            let p = exec_report::bytes(m);
            &&& p.len() == 64
            &&& zeros(p, 23, 24)
            &&& m.engine_seq@ == le64(p, 0)
            &&& m.order_id@ == le64(p, 8)
            &&& m.account_id@ == le32(p, 16)
            &&& p[20] == state_code(m.state)
            &&& p[21] == (match m.reject_reason {
                Some(x) => reject_code(x),
                None => 0,
            })
            &&& p[22] == (match m.cancel_reason {
                Some(x) => cancel_code(x),
                None => 0,
            })
            &&& le64_signed(p, 24) == (match m.fill_price {
                Some(x) => x@ as int,
                None => 0,
            })
            &&& le64(p, 32) == (match m.fill_qty {
                Some(x) => x@ as int,
                None => 0,
            })
            &&& le64(p, 40) == (match m.leaves_qty {
                Some(x) => x@ as int,
                None => 0,
            })
            &&& m.recv_ts@ == le64_signed(p, 48)
            &&& m.emit_ts@ == le64_signed(p, 56)
        }),
{
    let p = exec_report::bytes(m);
    fields_round_trip();
    assert(p.subrange(0, 8) =~= u64_bytes(m.engine_seq@));
    numbers_agree(p, 0);
    assert(p.subrange(8, 16) =~= u64_bytes(m.order_id@));
    numbers_agree(p, 8);
    assert(p.subrange(16, 20) =~= u32_bytes(m.account_id@));
    numbers_agree(p, 16);
    assert(p.subrange(24, 32) =~= i64_bytes(price_raw(m.fill_price)));
    numbers_agree(p, 24);
    assert(p.subrange(32, 40) =~= u64_bytes(qty_raw(m.fill_qty)));
    numbers_agree(p, 32);
    assert(p.subrange(40, 48) =~= u64_bytes(qty_raw(m.leaves_qty)));
    numbers_agree(p, 40);
    assert(p.subrange(48, 56) =~= i64_bytes(m.recv_ts@));
    numbers_agree(p, 48);
    assert(p.subrange(56, 64) =~= i64_bytes(m.emit_ts@));
    numbers_agree(p, 56);
}

/// Which payloads are public trades, what each says, and what is wrong with
/// any other.
pub proof fn trade_print_is_read(p: Seq<u8>)
    ensures
        ({
            let r = trade_print::parsed(p);
            if p.len() != 48 {
                r == Err::<TradePrint, WireError>(WireError::PayloadSize)
            } else if !zeros(p, 33, 40) {
                r matches Err(WireError::NonZeroPad(at)) && 33 <= at < 40 && p[at as int] != 0
                    && zeros(p, 33, at as int)
            } else if le64_signed(p, 16) <= 0 {
                r == Err::<TradePrint, WireError>(
                    WireError::Domain(DomainError::Price(PriceError::NonPositive)),
                )
            } else if le64(p, 24) == 0 {
                r == Err::<TradePrint, WireError>(
                    WireError::Domain(DomainError::Qty(QtyError::Zero)),
                )
            } else if p[32] != 1 && p[32] != 2 {
                r == Err::<TradePrint, WireError>(
                    WireError::Domain(DomainError::Side(SideError::Unknown(p[32]))),
                )
            } else {
                &&& r is Ok
                &&& r matches Ok(m) ==> {
                    &&& m.engine_seq@ == le64(p, 0)
                    &&& m.trade_id@ == le64(p, 8)
                    &&& m.price@ == le64_signed(p, 16)
                    &&& m.qty@ == le64(p, 24)
                    &&& p[32] == side_code(m.aggressor_side)
                    &&& m.emit_ts@ == le64_signed(p, 40)
                }
            }
        }),
{
    broadcast use group_newtypes;

    if p.len() == 48 {
        padding_agrees(p, 33, 40);
        numbers_agree(p, 0);
        numbers_agree(p, 8);
        numbers_agree(p, 16);
        numbers_agree(p, 24);
        numbers_agree(p, 40);
    }
}

/// Where each field of a public trade stands.
pub proof fn trade_print_is_written(m: TradePrint)
    ensures
        ({
            let p = trade_print::bytes(m);
            &&& p.len() == 48
            &&& zeros(p, 33, 40)
            &&& m.engine_seq@ == le64(p, 0)
            &&& m.trade_id@ == le64(p, 8)
            &&& m.price@ == le64_signed(p, 16)
            &&& m.qty@ == le64(p, 24)
            &&& p[32] == side_code(m.aggressor_side)
            &&& m.emit_ts@ == le64_signed(p, 40)
        }),
{
    let p = trade_print::bytes(m);
    fields_round_trip();
    assert(p.subrange(0, 8) =~= u64_bytes(m.engine_seq@));
    numbers_agree(p, 0);
    assert(p.subrange(8, 16) =~= u64_bytes(m.trade_id@));
    numbers_agree(p, 8);
    assert(p.subrange(16, 24) =~= i64_bytes(m.price@));
    numbers_agree(p, 16);
    assert(p.subrange(24, 32) =~= u64_bytes(m.qty@));
    numbers_agree(p, 24);
    assert(p.subrange(40, 48) =~= i64_bytes(m.emit_ts@));
    numbers_agree(p, 40);
}

/// Which payloads are level changes, what each says, and what is wrong with
/// any other.
pub proof fn book_update_l2_delta_is_read(p: Seq<u8>)
    ensures
        ({
            let r = book_update_l2_delta::parsed(p);
            if p.len() != 40 {
                r == Err::<BookUpdateL2Delta, WireError>(WireError::PayloadSize)
            } else if !zeros(p, 25, 32) {
                r matches Err(WireError::NonZeroPad(at)) && 25 <= at < 32 && p[at as int] != 0
                    && zeros(p, 25, at as int)
            } else if le64_signed(p, 8) <= 0 {
                r == Err::<BookUpdateL2Delta, WireError>(
                    WireError::Domain(DomainError::Price(PriceError::NonPositive)),
                )
            } else if p[24] != 1 && p[24] != 2 {
                r == Err::<BookUpdateL2Delta, WireError>(
                    WireError::Domain(DomainError::Side(SideError::Unknown(p[24]))),
                )
            } else {
                &&& r is Ok
                &&& r matches Ok(m) ==> {
                    &&& m.engine_seq@ == le64(p, 0)
                    &&& m.price@ == le64_signed(p, 8)
                    &&& m.new_qty is None <==> le64(p, 16) == 0
                    &&& m.new_qty matches Some(x) ==> x@ == le64(p, 16)
                    &&& p[24] == side_code(m.side)
                    &&& m.emit_ts@ == le64_signed(p, 32)
                }
            }
        }),
{
    broadcast use group_newtypes;

    if p.len() == 40 {
        padding_agrees(p, 25, 32);
        numbers_agree(p, 0);
        numbers_agree(p, 8);
        numbers_agree(p, 16);
        numbers_agree(p, 32);
    }
}

/// Where each field of a level change stands.
pub proof fn book_update_l2_delta_is_written(m: BookUpdateL2Delta)
    ensures
        ({
            let p = book_update_l2_delta::bytes(m);
            &&& p.len() == 40
            &&& zeros(p, 25, 32)
            &&& m.engine_seq@ == le64(p, 0)
            &&& m.price@ == le64_signed(p, 8)
            &&& le64(p, 16) == (match m.new_qty {
                Some(x) => x@ as int,
                None => 0,
            })
            &&& p[24] == side_code(m.side)
            &&& m.emit_ts@ == le64_signed(p, 32)
        }),
{
    let p = book_update_l2_delta::bytes(m);
    fields_round_trip();
    assert(p.subrange(0, 8) =~= u64_bytes(m.engine_seq@));
    numbers_agree(p, 0);
    assert(p.subrange(8, 16) =~= i64_bytes(m.price@));
    numbers_agree(p, 8);
    assert(p.subrange(16, 24) =~= u64_bytes(qty_raw(m.new_qty)));
    numbers_agree(p, 16);
    assert(p.subrange(32, 40) =~= i64_bytes(m.emit_ts@));
    numbers_agree(p, 32);
}

/// Which payloads are tops of the book, what each says, and what is wrong with
/// any other.
pub proof fn book_update_top_is_read(p: Seq<u8>)
    ensures
        ({
            let r = book_update_top::parsed(p);
            if p.len() != 48 {
                r == Err::<BookUpdateTop, WireError>(WireError::PayloadSize)
            } else if (le64_signed(p, 8) != 0 || le64(p, 16) != 0) && le64_signed(p, 8) <= 0 {
                r == Err::<BookUpdateTop, WireError>(
                    WireError::Domain(DomainError::Price(PriceError::NonPositive)),
                )
            } else if le64_signed(p, 8) > 0 && le64(p, 16) == 0 {
                r == Err::<BookUpdateTop, WireError>(
                    WireError::Domain(DomainError::Qty(QtyError::Zero)),
                )
            } else if (le64_signed(p, 24) != 0 || le64(p, 32) != 0) && le64_signed(p, 24) <= 0 {
                r == Err::<BookUpdateTop, WireError>(
                    WireError::Domain(DomainError::Price(PriceError::NonPositive)),
                )
            } else if le64_signed(p, 24) > 0 && le64(p, 32) == 0 {
                r == Err::<BookUpdateTop, WireError>(
                    WireError::Domain(DomainError::Qty(QtyError::Zero)),
                )
            } else {
                &&& r is Ok
                &&& r matches Ok(m) ==> {
                    &&& m.engine_seq@ == le64(p, 0)
                    &&& m.bid is None <==> le64_signed(p, 8) == 0 && le64(p, 16) == 0
                    &&& m.bid matches Some((x, y)) ==> x@ == le64_signed(p, 8) && y@ == le64(p, 16)
                    &&& m.ask is None <==> le64_signed(p, 24) == 0 && le64(p, 32) == 0
                    &&& m.ask matches Some((x, y)) ==> x@ == le64_signed(p, 24) && y@ == le64(p, 32)
                    &&& m.emit_ts@ == le64_signed(p, 40)
                }
            }
        }),
{
    broadcast use group_newtypes;

    if p.len() == 48 {
        numbers_agree(p, 0);
        numbers_agree(p, 8);
        numbers_agree(p, 16);
        numbers_agree(p, 24);
        numbers_agree(p, 32);
        numbers_agree(p, 40);
    }
}

/// Where each field of a top of the book stands.
pub proof fn book_update_top_is_written(m: BookUpdateTop)
    ensures
        ({
            let p = book_update_top::bytes(m);
            &&& p.len() == 48
            &&& m.engine_seq@ == le64(p, 0)
            &&& le64_signed(p, 8) == (match m.bid {
                Some((x, _)) => x@ as int,
                None => 0,
            })
            &&& le64(p, 16) == (match m.bid {
                Some((_, y)) => y@ as int,
                None => 0,
            })
            &&& le64_signed(p, 24) == (match m.ask {
                Some((x, _)) => x@ as int,
                None => 0,
            })
            &&& le64(p, 32) == (match m.ask {
                Some((_, y)) => y@ as int,
                None => 0,
            })
            &&& m.emit_ts@ == le64_signed(p, 40)
        }),
{
    let p = book_update_top::bytes(m);
    fields_round_trip();
    assert(p.subrange(0, 8) =~= u64_bytes(m.engine_seq@));
    numbers_agree(p, 0);
    assert(p.subrange(8, 24) =~= side_bytes(m.bid));
    assert(p.subrange(8, 16) =~= side_bytes(m.bid).subrange(0, 8));
    assert(p.subrange(16, 24) =~= side_bytes(m.bid).subrange(8, 16));
    side_is_written(m.bid);
    numbers_agree(p, 8);
    numbers_agree(p, 16);
    assert(p.subrange(24, 40) =~= side_bytes(m.ask));
    assert(p.subrange(24, 32) =~= side_bytes(m.ask).subrange(0, 8));
    assert(p.subrange(32, 40) =~= side_bytes(m.ask).subrange(8, 16));
    side_is_written(m.ask);
    numbers_agree(p, 24);
    numbers_agree(p, 32);
    assert(p.subrange(40, 48) =~= i64_bytes(m.emit_ts@));
    numbers_agree(p, 40);
}

} // verus!
