//! Numbers as they stand in bytes.

use vstd::prelude::*;

use crate::wire::codec::{i64_at, le_value, nonzero, u32_at, u64_at};

verus! {

/// The four bytes at an offset as a number, least significant first.
#[verifier::opaque]
pub open spec fn le32(p: Seq<u8>, at: int) -> int {
    p[at] + 0x100 * p[at + 1] + 0x1_0000 * p[at + 2] + 0x100_0000 * p[at + 3]
}

/// The eight bytes at an offset as a number, least significant first.
#[verifier::opaque]
pub open spec fn le64(p: Seq<u8>, at: int) -> int {
    le32(p, at) + 0x1_0000_0000 * le32(p, at + 4)
}

/// The eight bytes at an offset as a signed number in two's complement.
#[verifier::opaque]
pub open spec fn le64_signed(p: Seq<u8>, at: int) -> int {
    if p[at + 7] < 0x80 {
        le64(p, at)
    } else {
        le64(p, at) - 0x1_0000_0000_0000_0000
    }
}

/// The bytes from `from` up to `to` are zero.
pub open spec fn zeros(p: Seq<u8>, from: int, to: int) -> bool {
    forall|i: int| from <= i < to ==> #[trigger] p[i] == 0
}

/// Four bytes.
proof fn value_of_four(s: Seq<u8>)
    requires
        s.len() == 4,
    ensures
        le_value(s) == le32(s, 0),
{
    reveal(le32);
    reveal(le64);
    reveal(le64_signed);
    reveal_with_fuel(le_value, 5);
    let a = s.drop_first();
    let b = a.drop_first();
    let c = b.drop_first();
    assert(a[0] == s[1] && b[0] == s[2] && c[0] == s[3]);
}

/// Eight bytes.
proof fn value_of_eight(s: Seq<u8>)
    requires
        s.len() == 8,
    ensures
        le_value(s) == le64(s, 0),
{
    reveal(le32);
    reveal(le64);
    reveal(le64_signed);
    reveal_with_fuel(le_value, 5);
    let a = s.drop_first();
    let b = a.drop_first();
    let c = b.drop_first();
    let d = c.drop_first();
    assert(a[0] == s[1] && b[0] == s[2] && c[0] == s[3]);
    assert(d[0] == s[4] && d[1] == s[5] && d[2] == s[6] && d[3] == s[7]);
    value_of_four(d);
}

/// Numbers at an offset.
pub proof fn numbers_agree(p: Seq<u8>, at: int)
    requires
        0 <= at,
    ensures
        at + 4 <= p.len() ==> u32_at(p, at) == le32(p, at),
        at + 8 <= p.len() ==> u64_at(p, at) == le64(p, at),
        at + 8 <= p.len() ==> i64_at(p, at) == le64_signed(p, at),
{
    reveal(le32);
    reveal(le64);
    reveal(le64_signed);
    if at + 4 <= p.len() {
        let s = p.subrange(at, at + 4);
        assert(s[0] == p[at] && s[1] == p[at + 1] && s[2] == p[at + 2] && s[3] == p[at + 3]);
        value_of_four(s);
    }
    if at + 8 <= p.len() {
        let s = p.subrange(at, at + 8);
        assert(s[0] == p[at] && s[1] == p[at + 1] && s[2] == p[at + 2] && s[3] == p[at + 3]);
        assert(s[4] == p[at + 4] && s[5] == p[at + 5] && s[6] == p[at + 6] && s[7] == p[at + 7]);
        value_of_eight(s);
        let u = u64_at(p, at);
        assert(u < 0x8000_0000_0000_0000u64 ==> (u as i64) == u) by (bit_vector);
        assert(u >= 0x8000_0000_0000_0000u64 ==> (u as i64) == u - 0x1_0000_0000_0000_0000)
            by (bit_vector);
    }
}

/// Padding.
pub proof fn padding_agrees(p: Seq<u8>, from: int, to: int)
    requires
        0 <= from <= to <= p.len(),
        to <= 0xffff_ffff,
    ensures
        match nonzero(p, from, to) {
            None => zeros(p, from, to),
            Some(at) => from <= at < to && p[at as int] != 0 && zeros(p, from, at as int),
        },
    decreases to - from,
{
    if from < to {
        padding_agrees(p, from + 1, to);
    }
}

} // verus!
