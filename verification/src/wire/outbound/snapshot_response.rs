//! `SnapshotResponse` message.

use vstd::prelude::*;

use crate::domain::{group_newtypes, DomainError, EngineSeq, Price, Qty, RecvTs};
pub use crate::matching::types::Level;
use crate::wire::codec::{
    field_determined, fields_round_trip, get_i64, get_u32, get_u64, i64_at, i64_bytes, put_i64,
    put_u32, put_u64, u32_at, u32_bytes, u64_at, u64_bytes,
};
use crate::wire::error::WireError;

verus! {

broadcast use group_newtypes;

/// Dump of the book, both sides best first.
#[derive(Debug, Clone, PartialEq, Eq)]
pub struct SnapshotResponse {
    /// Sequence number.
    pub engine_seq: EngineSeq,
    /// Id of the request.
    pub request_id: u64,
    /// When the request came in.
    pub recv_ts: RecvTs,
    /// When the response went out.
    pub emit_ts: RecvTs,
    /// Bid levels, highest price first.
    pub bids: Vec<Level>,
    /// Ask levels, lowest price first.
    pub asks: Vec<Level>,
}

/// What a [`SnapshotResponse`] says.
#[verifier::ext_equal]
pub struct SnapshotView {
    /// Sequence number.
    pub engine_seq: EngineSeq,
    /// Id of the request.
    pub request_id: u64,
    /// When the request came in.
    pub recv_ts: RecvTs,
    /// When the response went out.
    pub emit_ts: RecvTs,
    /// Bid levels, highest price first.
    pub bids: Seq<Level>,
    /// Ask levels, lowest price first.
    pub asks: Seq<Level>,
}

impl View for SnapshotResponse {
    type V = SnapshotView;

    open spec fn view(&self) -> SnapshotView {
        SnapshotView {
            engine_seq: self.engine_seq,
            request_id: self.request_id,
            recv_ts: self.recv_ts,
            emit_ts: self.emit_ts,
            bids: self.bids@,
            asks: self.asks@,
        }
    }
}

/// Size of the fixed part of the payload.
pub const HEADER: usize = 40;

/// Size of one level.
pub const LEVEL: usize = 16;

/// Every level is within its domain, and the counts fit their fields.
pub open spec fn valid(m: SnapshotView) -> bool {
    &&& levels_valid(m.bids)
    &&& levels_valid(m.asks)
    &&& m.bids.len() <= u32::MAX
    &&& m.asks.len() <= u32::MAX
}

/// Every level is within its domain.
pub open spec fn levels_valid(s: Seq<Level>) -> bool {
    forall|i: int|
        0 <= i < s.len() ==> Price::legal((#[trigger] s[i]).price@) && Qty::legal(s[i].qty@)
}

/// Payload size of a message.
pub open spec fn size(m: SnapshotView) -> nat {
    (HEADER + LEVEL * (m.bids.len() + m.asks.len())) as nat
}

/// Wire form of one level.
pub open spec fn level_bytes(l: Level) -> Seq<u8> {
    i64_bytes(l.price@) + u64_bytes(l.qty@)
}

/// Wire form of a list of levels.
pub open spec fn levels_bytes(s: Seq<Level>) -> Seq<u8>
    decreases s.len(),
{
    if s.len() == 0 {
        Seq::empty()
    } else {
        level_bytes(s[0]) + levels_bytes(s.drop_first())
    }
}

/// The payload of a message.
pub open spec fn bytes(m: SnapshotView) -> Seq<u8> {
    u64_bytes(m.engine_seq@) + u64_bytes(m.request_id) + i64_bytes(m.recv_ts@) + i64_bytes(
        m.emit_ts@,
    ) + u32_bytes(m.bids.len() as u32) + u32_bytes(m.asks.len() as u32) + levels_bytes(m.bids)
        + levels_bytes(m.asks)
}

/// The level that stands at an offset.
pub open spec fn level_field(p: Seq<u8>, at: int) -> Result<Level, DomainError> {
    match Price::checked(i64_at(p, at)) {
        Err(e) => Err(DomainError::Price(e)),
        Ok(price) => match Qty::checked(u64_at(p, at + 8)) {
            Err(e) => Err(DomainError::Qty(e)),
            Ok(qty) => Ok(Level { price, qty }),
        },
    }
}

/// The `n` levels that stand at an offset, or what is wrong with the first
/// that is not one.
pub open spec fn levels_field(p: Seq<u8>, at: int, n: nat) -> Result<Seq<Level>, DomainError>
    decreases n,
{
    if n == 0 {
        Ok(Seq::empty())
    } else {
        match level_field(p, at) {
            Err(e) => Err(e),
            Ok(l) => match levels_field(p, at + LEVEL, (n - 1) as nat) {
                Err(e) => Err(e),
                Ok(rest) => Ok(seq![l] + rest),
            },
        }
    }
}

/// The message that a payload stands for.
pub open spec fn parsed(p: Seq<u8>) -> Result<SnapshotView, WireError> {
    let n_bid = u32_at(p, 32) as nat;
    let n_ask = u32_at(p, 36) as nat;
    if p.len() < HEADER || p.len() != HEADER + LEVEL * (n_bid + n_ask) {
        Err(WireError::PayloadSize)
    } else if let Err(e) = levels_field(p, HEADER as int, n_bid) {
        Err(WireError::Domain(e))
    } else if let Err(e) = levels_field(p, HEADER + LEVEL * n_bid, n_ask) {
        Err(WireError::Domain(e))
    } else {
        Ok(
            SnapshotView {
                engine_seq: EngineSeq::of(u64_at(p, 0)),
                request_id: u64_at(p, 8),
                recv_ts: RecvTs::of(i64_at(p, 16)),
                emit_ts: RecvTs::of(i64_at(p, 24)),
                bids: levels_field(p, HEADER as int, n_bid)->Ok_0,
                asks: levels_field(p, HEADER + LEVEL * n_bid, n_ask)->Ok_0,
            },
        )
    }
}

/// Appends the wire form of a list of levels.
fn put_levels(out: &mut Vec<u8>, s: &Vec<Level>)
    ensures
        final(out)@ == old(out)@ + levels_bytes(s@),
{
    let ghost all = old(out)@ + levels_bytes(s@);
    let mut i: usize = 0;
    proof {
        assert(s@.skip(0) =~= s@);
    }
    while i < s.len()
        invariant
            i <= s@.len(),
            all == out@ + levels_bytes(s@.skip(i as int)),
        decreases s@.len() - i,
    {
        let ghost before = out@;
        let ghost rest = s@.skip(i as int);
        put_i64(out, s[i].price.as_ticks());
        put_u64(out, s[i].qty.as_lots());
        proof {
            assert(rest.drop_first() =~= s@.skip(i + 1));
            assert(before + levels_bytes(rest) =~= out@ + levels_bytes(rest.drop_first()));
        }
        i = i + 1;
    }
    proof {
        assert(out@ =~= all);
    }
}

/// Reads one level.
fn read_level(p: &[u8], at: usize) -> (r: Result<Level, DomainError>)
    requires
        at + LEVEL <= p@.len(),
    ensures
        r == level_field(p@, at as int),
{
    let len: usize = p.len();
    assert(at + LEVEL <= len);
    let price = match Price::new(get_i64(p, at)) {
        Ok(v) => v,
        Err(e) => return Err(DomainError::Price(e)),
    };
    let qty = match Qty::new(get_u64(p, at + 8)) {
        Ok(v) => v,
        Err(e) => return Err(DomainError::Qty(e)),
    };
    Ok(Level { price, qty })
}

/// Reads a list of levels.
fn read_levels(p: &[u8], at: usize, n: usize) -> (r: Result<Vec<Level>, DomainError>)
    requires
        at + LEVEL * n <= p@.len(),
    ensures
        match r {
            Ok(v) => levels_field(p@, at as int, n as nat) == Ok::<Seq<Level>, DomainError>(v@),
            Err(e) => levels_field(p@, at as int, n as nat) == Err::<Seq<Level>, DomainError>(e),
        },
{
    let len: usize = p.len();
    let mut out: Vec<Level> = Vec::new();
    let mut i: usize = 0;
    let mut pos: usize = at;
    let ghost all = levels_field(p@, at as int, n as nat);
    while i < n
        invariant
            i <= n,
            len == p@.len(),
            at + LEVEL * n <= len,
            pos == at + LEVEL * i,
            all == levels_field(p@, at as int, n as nat),
            match levels_field(p@, pos as int, (n - i) as nat) {
                Ok(rest) => all == Ok::<Seq<Level>, DomainError>(out@ + rest),
                Err(e) => all == Err::<Seq<Level>, DomainError>(e),
            },
        decreases n - i,
    {
        let l = match read_level(p, pos) {
            Ok(v) => v,
            Err(e) => return Err(e),
        };
        let ghost before = out@;
        out.push(l);
        proof {
            if let Ok(rest) = levels_field(p@, pos + LEVEL, (n - i - 1) as nat) {
                assert(before + (seq![l] + rest) =~= out@ + rest);
            }
        }
        pos = pos + LEVEL;
        i = i + 1;
    }
    proof {
        assert(out@ + Seq::<Level>::empty() =~= out@);
    }
    Ok(out)
}

/// Appends the payload of a message.
pub fn encode(msg: &SnapshotResponse, out: &mut Vec<u8>)
    requires
        msg.bids@.len() <= u32::MAX,
        msg.asks@.len() <= u32::MAX,
    ensures
        final(out)@ == old(out)@ + bytes(msg@),
{
    put_u64(out, msg.engine_seq.as_raw());
    put_u64(out, msg.request_id);
    put_i64(out, msg.recv_ts.as_nanos());
    put_i64(out, msg.emit_ts.as_nanos());
    put_u32(out, msg.bids.len() as u32);
    put_u32(out, msg.asks.len() as u32);
    put_levels(out, &msg.bids);
    put_levels(out, &msg.asks);
    proof {
        assert(out@ =~= old(out)@ + bytes(msg@));
    }
}

/// Reads a payload.
pub fn decode(p: &[u8]) -> (r: Result<SnapshotResponse, WireError>)
    ensures
        match r {
            Ok(m) => parsed(p@) == Ok::<SnapshotView, WireError>(m@),
            Err(e) => parsed(p@) == Err::<SnapshotView, WireError>(e),
        },
{
    let len: usize = p.len();
    if len < HEADER {
        return Err(WireError::PayloadSize);
    }
    let n_bid: u32 = get_u32(p, 32);
    let n_ask: u32 = get_u32(p, 36);
    if len as u64 != HEADER as u64 + LEVEL as u64 * (n_bid as u64 + n_ask as u64) {
        return Err(WireError::PayloadSize);
    }
    let bids = match read_levels(p, HEADER, n_bid as usize) {
        Ok(v) => v,
        Err(e) => return Err(WireError::Domain(e)),
    };
    let asks = match read_levels(p, HEADER + LEVEL * n_bid as usize, n_ask as usize) {
        Ok(v) => v,
        Err(e) => return Err(WireError::Domain(e)),
    };
    let r = SnapshotResponse {
        engine_seq: EngineSeq::new(get_u64(p, 0)),
        request_id: get_u64(p, 8),
        recv_ts: RecvTs::new(get_i64(p, 16)),
        emit_ts: RecvTs::new(get_i64(p, 24)),
        bids,
        asks,
    };
    Ok(r)
}

/// A list of levels has a fixed size per level.
pub proof fn levels_size(s: Seq<Level>)
    ensures
        levels_bytes(s).len() == LEVEL * s.len(),
    decreases s.len(),
{
    fields_round_trip();
    if s.len() > 0 {
        levels_size(s.drop_first());
    }
}

/// Reading a list of levels undoes writing it.
proof fn levels_cut(p: Seq<u8>, at: int, s: Seq<Level>)
    requires
        levels_valid(s),
        0 <= at,
        at + LEVEL * s.len() <= p.len(),
        p.subrange(at, at + LEVEL * s.len()) == levels_bytes(s),
    ensures
        levels_field(p, at, s.len()) == Ok::<Seq<Level>, DomainError>(s),
    decreases s.len(),
{
    fields_round_trip();
    if s.len() > 0 {
        let b = levels_bytes(s);
        let rest = s.drop_first();
        levels_size(s);
        levels_size(rest);
        assert(p.subrange(at, at + 8) =~= b.subrange(0, 8));
        assert(b.subrange(0, 8) =~= i64_bytes(s[0].price@));
        assert(p.subrange(at + 8, at + 16) =~= b.subrange(8, 16));
        assert(b.subrange(8, 16) =~= u64_bytes(s[0].qty@));
        assert(level_field(p, at) == Ok::<Level, DomainError>(s[0]));
        assert(p.subrange(at + LEVEL, at + LEVEL + LEVEL * rest.len()) =~= b.subrange(
            16,
            b.len() as int,
        ));
        assert(b.subrange(16, b.len() as int) =~= levels_bytes(rest));
        levels_cut(p, at + LEVEL, rest);
        assert(seq![s[0]] + rest =~= s);
    } else {
        assert(s =~= Seq::<Level>::empty());
    }
}

/// The wire form of a list of levels that was read.
proof fn levels_read(p: Seq<u8>, at: int, n: nat)
    requires
        0 <= at,
        at + LEVEL * n <= p.len(),
    ensures
        levels_field(p, at, n) matches Ok(s) ==> s.len() == n && p.subrange(at, at + LEVEL * n)
            == levels_bytes(s),
    decreases n,
{
    if let Ok(s) = levels_field(p, at, n) {
        if n > 0 {
            levels_read(p, at + LEVEL, (n - 1) as nat);
            field_determined(p, at);
            field_determined(p, at + 8);
            let rest = levels_field(p, at + LEVEL, (n - 1) as nat)->Ok_0;
            assert(s.drop_first() =~= rest);
            assert(p.subrange(at, at + LEVEL * n) =~= p.subrange(at, at + 8) + p.subrange(
                at + 8,
                at + 16,
            ) + p.subrange(at + 16, at + LEVEL * n));
        } else {
            assert(p.subrange(at, at) =~= levels_bytes(s));
        }
    }
}

/// Decoding undoes encoding.
pub proof fn decode_undoes_encode(m: SnapshotView)
    requires
        valid(m),
    ensures
        bytes(m).len() == size(m),
        parsed(bytes(m)) == Ok::<SnapshotView, WireError>(m),
{
    fields_round_trip();
    levels_size(m.bids);
    levels_size(m.asks);
    let p = bytes(m);
    let n = m.bids.len();
    let end = HEADER + LEVEL * n;
    assert(p.subrange(0, 8) =~= u64_bytes(m.engine_seq@));
    assert(p.subrange(8, 16) =~= u64_bytes(m.request_id));
    assert(p.subrange(16, 24) =~= i64_bytes(m.recv_ts@));
    assert(p.subrange(24, 32) =~= i64_bytes(m.emit_ts@));
    assert(p.subrange(32, 36) =~= u32_bytes(n as u32));
    assert(p.subrange(36, 40) =~= u32_bytes(m.asks.len() as u32));
    assert(p.subrange(40, end) =~= levels_bytes(m.bids));
    assert(p.subrange(end, end + LEVEL * m.asks.len()) =~= levels_bytes(m.asks));
    levels_cut(p, 40, m.bids);
    levels_cut(p, end, m.asks);
}

/// Only the encoding of a message decodes to it.
pub proof fn encoding_unique(p: Seq<u8>)
    ensures
        parsed(p) matches Ok(m) ==> p == bytes(m),
{
    if let Ok(m) = parsed(p) {
        let n = u32_at(p, 32) as nat;
        let k = u32_at(p, 36) as nat;
        let end = HEADER + LEVEL * n;
        field_determined(p, 0);
        field_determined(p, 8);
        field_determined(p, 16);
        field_determined(p, 24);
        field_determined(p, 32);
        field_determined(p, 36);
        levels_read(p, 40, n);
        levels_read(p, end, k);
        assert(p =~= p.subrange(0, 8) + p.subrange(8, 16) + p.subrange(16, 24) + p.subrange(
            24,
            32,
        ) + p.subrange(32, 36) + p.subrange(36, 40) + p.subrange(40, end) + p.subrange(
            end,
            end + LEVEL * k,
        ));
    }
}

} // verus!
