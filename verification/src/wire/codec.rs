//! Little-endian integers and padding.

use vstd::prelude::*;

verus! {

/// The `n` low bytes of `v`, least significant first.
pub open spec fn le_bytes(v: nat, n: nat) -> Seq<u8>
    decreases n,
{
    if n == 0 {
        Seq::empty()
    } else {
        seq![(v % 256) as u8] + le_bytes(v / 256, (n - 1) as nat)
    }
}

/// The number that the bytes spell, least significant first.
pub open spec fn le_value(s: Seq<u8>) -> nat
    decreases s.len(),
{
    if s.len() == 0 {
        0
    } else {
        s[0] as nat + 256 * le_value(s.drop_first())
    }
}

/// `256` to the power of `n`.
pub open spec fn pow256(n: nat) -> nat
    decreases n,
{
    if n == 0 {
        1
    } else {
        256 * pow256((n - 1) as nat)
    }
}

/// Reading undoes writing.
pub proof fn value_of_bytes(v: nat, n: nat)
    ensures
        le_bytes(v, n).len() == n,
        v < pow256(n) ==> le_value(le_bytes(v, n)) == v,
    decreases n,
{
    if n > 0 {
        value_of_bytes(v / 256, (n - 1) as nat);
        assert(le_bytes(v, n).drop_first() =~= le_bytes(v / 256, (n - 1) as nat));
    }
}

/// Writing undoes reading.
pub proof fn bytes_of_value(s: Seq<u8>)
    ensures
        le_value(s) < pow256(s.len()),
        le_bytes(le_value(s), s.len()) == s,
    decreases s.len(),
{
    if s.len() > 0 {
        bytes_of_value(s.drop_first());
        let rest = le_value(s.drop_first());
        assert((s[0] as nat + 256 * rest) / 256 == rest);
        assert((s[0] as nat + 256 * rest) % 256 == s[0] as nat);
        assert(seq![s[0]] + s.drop_first() =~= s);
    }
}

/// The widths that the protocol uses.
pub proof fn widths()
    ensures
        pow256(4) == 0x1_0000_0000,
        pow256(8) == 0x1_0000_0000_0000_0000,
{
    reveal_with_fuel(pow256, 9);
}

/// A signed number survives the trip through its two's complement.
pub proof fn signed_round_trip(v: i64, u: u64)
    ensures
        ((v as u64) as i64) == v,
        ((u as i64) as u64) == u,
{
    assert(((v as u64) as i64) == v) by (bit_vector);
    assert(((u as i64) as u64) == u) by (bit_vector);
}

/// A 32-bit field, as bytes.
pub open spec fn u32_bytes(v: u32) -> Seq<u8> {
    le_bytes(v as nat, 4)
}

/// A 64-bit field, as bytes.
pub open spec fn u64_bytes(v: u64) -> Seq<u8> {
    le_bytes(v as nat, 8)
}

/// A signed 64-bit field, as bytes.
pub open spec fn i64_bytes(v: i64) -> Seq<u8> {
    u64_bytes(v as u64)
}

/// `n` padding bytes.
pub open spec fn pad(n: nat) -> Seq<u8> {
    Seq::new(n, |i: int| 0u8)
}

/// The 32-bit field at an offset.
pub open spec fn u32_at(p: Seq<u8>, at: int) -> u32 {
    le_value(p.subrange(at, at + 4)) as u32
}

/// The 64-bit field at an offset.
pub open spec fn u64_at(p: Seq<u8>, at: int) -> u64 {
    le_value(p.subrange(at, at + 8)) as u64
}

/// The signed 64-bit field at an offset.
pub open spec fn i64_at(p: Seq<u8>, at: int) -> i64 {
    u64_at(p, at) as i64
}

/// Offset of the first byte from `from` up to `to` that is not zero.
pub open spec fn nonzero(p: Seq<u8>, from: int, to: int) -> Option<usize>
    decreases to - from,
{
    if from >= to {
        None
    } else if p[from] != 0 {
        Some(from as usize)
    } else {
        nonzero(p, from + 1, to)
    }
}

/// A stretch without a nonzero byte is padding.
pub proof fn zero_is_pad(p: Seq<u8>, from: int, to: int)
    requires
        0 <= from <= to <= p.len(),
    ensures
        nonzero(p, from, to) is None <==> p.subrange(from, to) == pad((to - from) as nat),
    decreases to - from,
{
    let s = p.subrange(from, to);
    if from < to {
        zero_is_pad(p, from + 1, to);
        let t = p.subrange(from + 1, to);
        assert(s[0] == p[from]);
        assert(pad((to - from) as nat)[0] == 0);
        assert forall|i: int| 0 <= i < t.len() implies t[i] == s[i + 1] by {}
        if nonzero(p, from, to) is None {
            assert(t == pad((to - from - 1) as nat));
            assert forall|i: int| 0 <= i < s.len() implies s[i] == 0 by {
                if i > 0 {
                    assert(t[i - 1] == pad((to - from - 1) as nat)[i - 1]);
                }
            }
            assert(s =~= pad((to - from) as nat));
        }
        if s == pad((to - from) as nat) {
            assert forall|i: int| 0 <= i < t.len() implies t[i] == 0 by {
                assert(s[i + 1] == pad((to - from) as nat)[i + 1]);
            }
            assert(t =~= pad((to - from - 1) as nat));
        }
    } else {
        assert(s =~= pad(0));
    }
}

/// What a field spells is what was written there.
pub proof fn fields_round_trip()
    ensures
        forall|v: u32| #[trigger] u32_bytes(v).len() == 4,
        forall|v: u64| #[trigger] u64_bytes(v).len() == 8,
        forall|v: u32| le_value(#[trigger] u32_bytes(v)) as u32 == v,
        forall|v: u64| le_value(#[trigger] u64_bytes(v)) as u64 == v,
        forall|v: i64| (le_value(#[trigger] i64_bytes(v)) as u64) as i64 == v,
        forall|v: i64| #[trigger] i64_bytes(v).len() == 8,
{
    widths();
    assert forall|v: u32|
        #[trigger] u32_bytes(v).len() == 4 && le_value(u32_bytes(v)) as u32 == v by {
        value_of_bytes(v as nat, 4);
    }
    assert forall|v: u64|
        #[trigger] u64_bytes(v).len() == 8 && le_value(u64_bytes(v)) as u64 == v by {
        value_of_bytes(v as nat, 8);
    }
    assert forall|v: i64|
        (le_value(#[trigger] i64_bytes(v)) as u64) as i64 == v && i64_bytes(v).len() == 8 by {
        value_of_bytes((v as u64) as nat, 8);
        signed_round_trip(v, 0);
    }
}

/// What stands in a field is what its value is written as.
pub proof fn field_determined(p: Seq<u8>, at: int)
    requires
        0 <= at,
    ensures
        at + 4 <= p.len() ==> u32_bytes(u32_at(p, at)) == p.subrange(at, at + 4),
        at + 8 <= p.len() ==> u64_bytes(u64_at(p, at)) == p.subrange(at, at + 8),
        at + 8 <= p.len() ==> i64_bytes(i64_at(p, at)) == p.subrange(at, at + 8),
{
    widths();
    if at + 4 <= p.len() {
        bytes_of_value(p.subrange(at, at + 4));
    }
    if at + 8 <= p.len() {
        bytes_of_value(p.subrange(at, at + 8));
        signed_round_trip(0, u64_at(p, at));
    }
}

/// Appends the `n` low bytes of `v`, least significant first.
fn put_le(out: &mut Vec<u8>, v: u64, n: usize)
    ensures
        final(out)@ == old(out)@ + le_bytes(v as nat, n as nat),
{
    let mut rest: u64 = v;
    let mut k: usize = n;
    let ghost all = old(out)@ + le_bytes(v as nat, n as nat);
    while k > 0
        invariant
            k <= n,
            all == out@ + le_bytes(rest as nat, k as nat),
        decreases k,
    {
        let ghost before = out@;
        out.push((rest % 256) as u8);
        proof {
            assert(before + le_bytes(rest as nat, k as nat) =~= out@ + le_bytes(
                (rest / 256) as nat,
                (k - 1) as nat,
            ));
        }
        rest = rest / 256;
        k = k - 1;
    }
    proof {
        assert(out@ =~= all);
    }
}

/// The number that the bytes spell.
fn get_le(p: &[u8], at: usize, n: usize) -> (r: u64)
    requires
        n <= 8,
        at + n <= p@.len(),
    ensures
        r == le_value(p@.subrange(at as int, at + n)),
{
    let len: usize = p.len();
    let mut r: u64 = 0;
    let mut k: usize = n;
    proof {
        assert(p@.subrange(at + n, at + n) =~= Seq::<u8>::empty());
    }
    while k > 0
        invariant
            k <= n <= 8,
            at + n <= p@.len(),
            len == p@.len(),
            r == le_value(p@.subrange(at + k, at + n)),
        decreases k,
    {
        proof {
            let s = p@.subrange(at + k - 1, at + n);
            assert(s.drop_first() =~= p@.subrange(at + k, at + n));
            bytes_of_value(s);
            bytes_of_value(p@.subrange(at + k, at + n));
            widths();
            pow256_grows(s.len(), 8);
        }
        k = k - 1;
        r = r * 256 + p[at + k] as u64;
    }
    r
}

/// Powers grow with the exponent.
proof fn pow256_grows(a: nat, b: nat)
    requires
        a <= b,
    ensures
        pow256(a) <= pow256(b),
    decreases b - a,
{
    if a < b {
        pow256_grows(a + 1, b);
    }
}

/// Appends a 32-bit field.
pub(crate) fn put_u32(out: &mut Vec<u8>, v: u32)
    ensures
        final(out)@ == old(out)@ + u32_bytes(v),
{
    put_le(out, v as u64, 4)
}

/// Appends a 64-bit field.
pub(crate) fn put_u64(out: &mut Vec<u8>, v: u64)
    ensures
        final(out)@ == old(out)@ + u64_bytes(v),
{
    put_le(out, v, 8)
}

/// Appends a signed 64-bit field.
pub(crate) fn put_i64(out: &mut Vec<u8>, v: i64)
    ensures
        final(out)@ == old(out)@ + i64_bytes(v),
{
    put_le(
        out,
        #[verifier::truncate]
        (v as u64),
        8,
    )
}

/// Appends padding.
pub(crate) fn put_pad(out: &mut Vec<u8>, n: usize)
    ensures
        final(out)@ == old(out)@ + pad(n as nat),
{
    let mut i: usize = 0;
    proof {
        assert(out@ =~= old(out)@ + pad(0));
    }
    while i < n
        invariant
            i <= n,
            out@ == old(out)@ + pad(i as nat),
        decreases n - i,
    {
        out.push(0);
        proof {
            assert(out@ =~= old(out)@ + pad((i + 1) as nat));
        }
        i = i + 1;
    }
}

/// Reads a 32-bit field.
pub(crate) fn get_u32(p: &[u8], at: usize) -> (r: u32)
    requires
        at + 4 <= p@.len(),
    ensures
        r == u32_at(p@, at as int),
{
    proof {
        bytes_of_value(p@.subrange(at as int, at + 4));
        widths();
    }
    get_le(p, at, 4) as u32
}

/// Reads a 64-bit field.
pub(crate) fn get_u64(p: &[u8], at: usize) -> (r: u64)
    requires
        at + 8 <= p@.len(),
    ensures
        r == u64_at(p@, at as int),
{
    proof {
        bytes_of_value(p@.subrange(at as int, at + 8));
        widths();
    }
    get_le(p, at, 8)
}

/// Reads a signed 64-bit field.
pub(crate) fn get_i64(p: &[u8], at: usize) -> (r: i64)
    requires
        at + 8 <= p@.len(),
    ensures
        r == i64_at(p@, at as int),
{
    #[verifier::truncate]
    (get_u64(p, at) as i64)
}

/// Finds the first byte of a stretch that is not zero.
pub(crate) fn find_nonzero(p: &[u8], from: usize, to: usize) -> (r: Option<usize>)
    requires
        from <= to <= p@.len(),
    ensures
        r == nonzero(p@, from as int, to as int),
{
    let mut i: usize = from;
    while i < to
        invariant
            from <= i <= to <= p@.len(),
            nonzero(p@, from as int, to as int) == nonzero(p@, i as int, to as int),
        decreases to - i,
    {
        if p[i] != 0 {
            return Some(i);
        }
        i = i + 1;
    }
    None
}

} // verus!
