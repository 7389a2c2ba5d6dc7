//! What holds of a session from its first read to its last.

use vstd::prelude::*;

use crate::domain::group_newtypes;
use crate::gateway::session::{
    framed_message_is_forwarded, front, next_action, DecodeStep, SessionAction, SessionEvent,
};
use crate::wire::codec::u32_at;
use crate::wire::framing::{complete, frame_payload, frame_size, whole};
use crate::wire::inbound::{framed, parse_undoes_encode, valid, Inbound};

verus! {

broadcast use group_newtypes;

/// What a session hands on of the bytes that it has, and what it does then.
pub open spec fn session(buf: Seq<u8>) -> (Seq<Inbound>, SessionAction)
    decreases buf.len(),
{
    match next_action(SessionEvent::Buffered, buf) {
        SessionAction::Forward { msg, total } => if 0 < total <= buf.len() {
            let (later, end) = session(buf.skip(total as int));
            (seq![msg] + later, end)
        } else {
            (seq![msg], SessionAction::Read)
        },
        end => (Seq::empty(), end),
    }
}

/// What a session still holds of the bytes that it had, once it has handed
/// on what it could.
pub open spec fn held(buf: Seq<u8>) -> Seq<u8>
    decreases buf.len(),
{
    match next_action(SessionEvent::Buffered, buf) {
        SessionAction::Forward { total, .. } => if 0 < total <= buf.len() {
            held(buf.skip(total as int))
        } else {
            buf
        },
        _ => buf,
    }
}

/// What a session that holds `buf` hands on over a run of reads, and what it
/// does then. It reads on only as long as it has to wait for bytes.
pub open spec fn received(buf: Seq<u8>, reads: Seq<Seq<u8>>) -> (Seq<Inbound>, SessionAction)
    decreases reads.len(),
{
    let (now, end) = session(buf);
    if reads.len() == 0 || end != SessionAction::Read {
        (now, end)
    } else {
        let (later, last) = received(held(buf) + reads[0], reads.drop_first());
        (now + later, last)
    }
}

/// The bytes of a run of reads.
pub open spec fn joined(reads: Seq<Seq<u8>>) -> Seq<u8>
    decreases reads.len(),
{
    if reads.len() == 0 {
        Seq::empty()
    } else {
        reads[0] + joined(reads.drop_first())
    }
}

/// The bytes of a run of messages.
pub open spec fn framed_all(msgs: Seq<Inbound>) -> Seq<u8>
    decreases msgs.len(),
{
    if msgs.len() == 0 {
        Seq::empty()
    } else {
        framed(msgs[0]) + framed_all(msgs.drop_first())
    }
}

/// A message is handed on only if its frame is there, and its frame is
/// dropped.
proof fn forwarded_is_there(buf: Seq<u8>)
    ensures
        front(buf) matches DecodeStep::Decoded { total, .. } ==> {
            &&& whole(buf)
            &&& total == frame_size(buf)
            &&& 0 < total <= buf.len()
        },
{
    if front(buf) is Decoded {
        assert(frame_payload(buf).len() == frame_size(buf) - 5);
        assert(frame_payload(buf).len() <= 40);
    }
}

/// What stands at the front of a buffer does not change as more bytes come
/// in.
proof fn front_stays(buf: Seq<u8>, more: Seq<u8>)
    requires
        whole(buf),
    ensures
        front(buf + more) == front(buf),
{
    assert((buf + more).subrange(0, 4) =~= buf.subrange(0, 4));
    assert(u32_at(buf + more, 0) == u32_at(buf, 0));
    if complete(buf) {
        assert(frame_payload(buf + more) =~= frame_payload(buf));
    }
}

/// A session goes on from where it stands: more bytes are taken behind those
/// that it still holds, unless it has ended.
pub proof fn session_goes_on(buf: Seq<u8>, more: Seq<u8>)
    ensures
        session(buf).1 == SessionAction::Read ==> session(buf + more) == (
            session(buf).0 + session(held(buf) + more).0,
            session(held(buf) + more).1,
        ),
        session(buf).1 != SessionAction::Read ==> session(buf + more) == session(buf),
    decreases buf.len(),
{
    forwarded_is_there(buf);
    if whole(buf) {
        front_stays(buf, more);
    }
    match next_action(SessionEvent::Buffered, buf) {
        SessionAction::Forward { msg, total } => {
            let after = buf.skip(total as int);
            assert((buf + more).skip(total as int) =~= after + more);
            session_goes_on(after, more);
            if session(buf).1 == SessionAction::Read {
                assert(seq![msg] + (session(after).0 + session(held(after) + more).0) =~= (
                seq![msg] + session(after).0) + session(held(after) + more).0);
            }
        },
        SessionAction::Read => {
            assert(session(buf).0 + session(buf + more).0 =~= session(buf + more).0);
        },
        SessionAction::Close(_) => {},
    }
}

/// How the bytes are split over reads does not matter: a session hands on
/// the same messages and does the same as if they had come in all at once.
pub proof fn reads_can_be_split(buf: Seq<u8>, reads: Seq<Seq<u8>>)
    ensures
        received(buf, reads) == session(buf + joined(reads)),
    decreases reads.len(),
{
    session_goes_on(buf, joined(reads));
    if reads.len() == 0 {
        assert(buf + joined(reads) =~= buf);
    } else if session(buf).1 == SessionAction::Read {
        let rest = reads.drop_first();
        reads_can_be_split(held(buf) + reads[0], rest);
        assert(held(buf) + joined(reads) =~= held(buf) + reads[0] + joined(rest));
    }
}

/// A session hands on every message that a client framed, in order, and then
/// goes by what follows them.
pub proof fn session_hands_on_messages(msgs: Seq<Inbound>, tail: Seq<u8>)
    requires
        forall|i: int| 0 <= i < msgs.len() ==> valid(#[trigger] msgs[i]),
    ensures
        session(framed_all(msgs) + tail) == (msgs + session(tail).0, session(tail).1),
    decreases msgs.len(),
{
    if msgs.len() == 0 {
        assert(framed_all(msgs) + tail =~= tail);
        assert(msgs + session(tail).0 =~= session(tail).0);
    } else {
        let later = msgs.drop_first();
        assert(valid(msgs[0]));
        assert forall|i: int| 0 <= i < later.len() implies valid(#[trigger] later[i]) by {
            assert(later[i] == msgs[i + 1]);
        }
        session_hands_on_messages(later, tail);
        let buf = framed_all(msgs) + tail;
        let after = framed_all(later) + tail;
        assert(buf =~= framed(msgs[0]) + after);
        parse_undoes_encode(msgs[0], after);
        framed_message_is_forwarded(msgs[0], after);
        assert(buf.skip(framed(msgs[0]).len() as int) =~= after);
        assert(seq![msgs[0]] + (later + session(tail).0) =~= msgs + session(tail).0);
    }
}

/// A session hands on exactly the messages before the first bytes that hold
/// no command, in order, and then ends, whatever follows.
pub proof fn session_ends_at_first_fault(msgs: Seq<Inbound>, fault: Seq<u8>, rest: Seq<u8>)
    requires
        forall|i: int| 0 <= i < msgs.len() ==> valid(#[trigger] msgs[i]),
        front(fault) is Malformed || front(fault) is Skipped,
    ensures
        session(framed_all(msgs) + (fault + rest)) == (
            msgs,
            next_action(SessionEvent::Buffered, fault),
        ),
        next_action(SessionEvent::Buffered, fault) is Close,
{
    session_hands_on_messages(msgs, fault + rest);
    front_stays(fault, rest);
    assert(msgs + session(fault + rest).0 =~= msgs);
}

/// A session that has part of one more frame hands on exactly the messages
/// before it, in order, and reads on.
pub proof fn session_waits_for_the_rest(msgs: Seq<Inbound>, next: Inbound, n: int)
    requires
        forall|i: int| 0 <= i < msgs.len() ==> valid(#[trigger] msgs[i]),
        valid(next),
        0 <= n < framed(next).len(),
    ensures
        session(framed_all(msgs) + framed(next).take(n)) == (msgs, SessionAction::Read),
{
    let part = framed(next).take(n);
    session_hands_on_messages(msgs, part);
    parse_undoes_encode(next, Seq::empty());
    assert(framed(next) + Seq::<u8>::empty() =~= framed(next));
    if n >= 4 {
        assert(part.subrange(0, 4) =~= framed(next).subrange(0, 4));
        assert(u32_at(part, 0) == u32_at(framed(next), 0));
    }
    assert(!whole(part));
    assert(msgs + session(part).0 =~= msgs);
}

/// However the bytes of a run of messages and of part of one more are split
/// over reads, a session hands on exactly those messages, in order, and
/// reads on.
pub proof fn split_messages_arrive(reads: Seq<Seq<u8>>, msgs: Seq<Inbound>, next: Inbound, n: int)
    requires
        forall|i: int| 0 <= i < msgs.len() ==> valid(#[trigger] msgs[i]),
        valid(next),
        0 <= n < framed(next).len(),
        joined(reads) == framed_all(msgs) + framed(next).take(n),
    ensures
        received(Seq::empty(), reads) == (msgs, SessionAction::Read),
{
    reads_can_be_split(Seq::empty(), reads);
    session_waits_for_the_rest(msgs, next, n);
    assert(Seq::<u8>::empty() + joined(reads) =~= joined(reads));
}

} // verus!
