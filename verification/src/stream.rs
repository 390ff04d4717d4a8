//! The streaming transport: a long-lived duplex frame stream feeding one
//! session.
//!
//! Each received frame is handled in arrival order: a data frame (text or
//! binary) is decoded like a batch element — a decode failure is skipped and
//! never ends the stream; a probe frame is answered in-kind before any later
//! frame is looked at; the first close frame ends the stream, and nothing
//! after it is processed.

use vstd::prelude::*;

use crate::codec::decode_event;
use crate::codec::spec_event_of_json;
use crate::events::Events;

verus! {

/// One frame of the duplex stream, payloads as raw bytes.
#[derive(Debug)]
pub enum Frame {
    Text(Vec<u8>),
    Binary(Vec<u8>),
    Ping(Vec<u8>),
    Pong(Vec<u8>),
    Close,
}

/// The mathematical form of a frame.
pub enum FrameV {
    Text(Seq<u8>),
    Binary(Seq<u8>),
    Ping(Seq<u8>),
    Pong(Seq<u8>),
    Close,
}

impl View for Frame {
    type V = FrameV;

    open spec fn view(&self) -> FrameV {
        match self {
            Frame::Text(b) => FrameV::Text(b@),
            Frame::Binary(b) => FrameV::Binary(b@),
            Frame::Ping(d) => FrameV::Ping(d@),
            Frame::Pong(d) => FrameV::Pong(d@),
            Frame::Close => FrameV::Close,
        }
    }
}

/// The views of a sequence of frames.
pub open spec fn frame_views(fs: Seq<Frame>) -> Seq<FrameV> {
    fs.map_values(|f: Frame| f@)
}

/// Whether any frame of the sequence is a close frame.
pub open spec fn has_close(fs: Seq<FrameV>) -> bool {
    exists|i: int| 0 <= i < fs.len() && (#[trigger] fs[i]) is Close
}

/// One entry of a stream's transcript: an event delivered to the mailbox, or a
/// probe reply sent back to the peer.
pub enum StreamLogItem {
    Deliver(Events),
    Reply(Seq<u8>),
}

/// What handling one frame contributes to the transcript: a data frame its
/// decoded event, if it has one; a probe frame its in-kind reply; nothing
/// else contributes.
pub open spec fn frame_log_step(f: FrameV) -> Seq<StreamLogItem> {
    match f {
        FrameV::Text(b) => match spec_event_of_json(b) {
            Option::Some(e) => seq![StreamLogItem::Deliver(e)],
            Option::None => Seq::empty(),
        },
        FrameV::Binary(b) => match spec_event_of_json(b) {
            Option::Some(e) => seq![StreamLogItem::Deliver(e)],
            Option::None => Seq::empty(),
        },
        FrameV::Ping(d) => seq![StreamLogItem::Reply(d)],
        FrameV::Pong(_) => Seq::empty(),
        FrameV::Close => Seq::empty(),
    }
}

/// The transcript of a whole stream: frames handled in order, ended by the
/// first close frame.
pub open spec fn stream_log(fs: Seq<FrameV>) -> Seq<StreamLogItem>
    decreases fs.len(),
{
    if fs.len() == 0 {
        Seq::empty()
    } else if fs[0] is Close {
        Seq::empty()
    } else {
        frame_log_step(fs[0]) + stream_log(fs.drop_first())
    }
}

/// The events a transcript delivers, oldest first.
pub open spec fn log_deliveries(log: Seq<StreamLogItem>) -> Seq<Events>
    decreases log.len(),
{
    if log.len() == 0 {
        Seq::empty()
    } else {
        let rest = log_deliveries(log.drop_first());
        match log[0] {
            StreamLogItem::Deliver(e) => seq![e] + rest,
            StreamLogItem::Reply(_) => rest,
        }
    }
}

/// The probe replies a transcript sends, oldest first.
pub open spec fn log_replies(log: Seq<StreamLogItem>) -> Seq<Seq<u8>>
    decreases log.len(),
{
    if log.len() == 0 {
        Seq::empty()
    } else {
        let rest = log_replies(log.drop_first());
        match log[0] {
            StreamLogItem::Deliver(_) => rest,
            StreamLogItem::Reply(d) => seq![d] + rest,
        }
    }
}

/// Deliveries and replies distribute over transcript concatenation.
pub proof fn lemma_log_parts_append(l1: Seq<StreamLogItem>, l2: Seq<StreamLogItem>)
    ensures
        log_deliveries(l1 + l2) == log_deliveries(l1) + log_deliveries(l2),
        log_replies(l1 + l2) == log_replies(l1) + log_replies(l2),
    decreases l1.len(),
{
    if l1.len() == 0 {
        assert(l1 + l2 =~= l2);
        assert(log_deliveries(l1) + log_deliveries(l2) =~= log_deliveries(l2));
        assert(log_replies(l1) + log_replies(l2) =~= log_replies(l2));
    } else {
        assert((l1 + l2)[0] == l1[0]);
        assert((l1 + l2).drop_first() =~= l1.drop_first() + l2);
        lemma_log_parts_append(l1.drop_first(), l2);
        assert(log_deliveries(l1 + l2) =~= log_deliveries(l1) + log_deliveries(l2));
        assert(log_replies(l1 + l2) =~= log_replies(l1) + log_replies(l2));
    }
}

/// The transcript of one non-close frame is that frame's contribution.
pub proof fn lemma_stream_log_singleton(f: FrameV)
    requires
        !(f is Close),
    ensures
        stream_log(seq![f]) == frame_log_step(f),
{
    let s = seq![f];
    assert(s[0] == f);
    assert(s.drop_first() =~= Seq::<FrameV>::empty());
    assert(stream_log(s.drop_first()) =~= Seq::<StreamLogItem>::empty());
    assert(stream_log(s) =~= frame_log_step(f));
}

/// A transcript of one delivery delivers that event and answers nothing.
pub proof fn lemma_log_singleton_deliver(e: Events)
    ensures
        log_deliveries(seq![StreamLogItem::Deliver(e)]) == seq![e],
        log_replies(seq![StreamLogItem::Deliver(e)]) == Seq::<Seq<u8>>::empty(),
{
    let l = seq![StreamLogItem::Deliver(e)];
    assert(l[0] == StreamLogItem::Deliver(e));
    assert(l.drop_first() =~= Seq::<StreamLogItem>::empty());
    assert(log_deliveries(l.drop_first()) =~= Seq::<Events>::empty());
    assert(log_replies(l.drop_first()) =~= Seq::<Seq<u8>>::empty());
    assert(log_deliveries(l) =~= seq![e]);
    assert(log_replies(l) =~= Seq::<Seq<u8>>::empty());
}

/// A transcript of one reply answers that probe and delivers nothing.
pub proof fn lemma_log_singleton_reply(d: Seq<u8>)
    ensures
        log_deliveries(seq![StreamLogItem::Reply(d)]) == Seq::<Events>::empty(),
        log_replies(seq![StreamLogItem::Reply(d)]) == seq![d],
{
    let l = seq![StreamLogItem::Reply(d)];
    assert(l[0] == StreamLogItem::Reply(d));
    assert(l.drop_first() =~= Seq::<StreamLogItem>::empty());
    assert(log_deliveries(l.drop_first()) =~= Seq::<Events>::empty());
    assert(log_replies(l.drop_first()) =~= Seq::<Seq<u8>>::empty());
    assert(log_deliveries(l) =~= Seq::<Events>::empty());
    assert(log_replies(l) =~= seq![d]);
}

/// The empty transcript delivers and answers nothing.
pub proof fn lemma_log_empty()
    ensures
        log_deliveries(Seq::<StreamLogItem>::empty()) == Seq::<Events>::empty(),
        log_replies(Seq::<StreamLogItem>::empty()) == Seq::<Seq<u8>>::empty(),
{
}

/// As long as no close frame has been seen, the transcript grows frame by
/// frame.
pub proof fn lemma_stream_log_append(a: Seq<FrameV>, b: Seq<FrameV>)
    requires
        forall|i: int| 0 <= i < a.len() ==> !((#[trigger] a[i]) is Close),
    ensures
        stream_log(a + b) == stream_log(a) + stream_log(b),
    decreases a.len(),
{
    if a.len() == 0 {
        assert(a + b =~= b);
        assert(stream_log(a) + stream_log(b) =~= stream_log(b));
    } else {
        assert((a + b)[0] == a[0]);
        assert((a + b).drop_first() =~= a.drop_first() + b);
        assert(forall|i: int|
            0 <= i < a.drop_first().len() ==> !((#[trigger] a.drop_first()[i]) is Close));
        lemma_stream_log_append(a.drop_first(), b);
        assert(stream_log(a + b) =~= stream_log(a) + stream_log(b));
    }
}

/// Streaming keepalive: a probe frame is answered in-kind before anything a
/// later frame carries is delivered or answered.
pub proof fn lemma_probe_answered_first(d: Seq<u8>, rest: Seq<FrameV>)
    ensures
        stream_log(seq![FrameV::Ping(d)] + rest) == seq![StreamLogItem::Reply(d)] + stream_log(
            rest,
        ),
{
    let fs = seq![FrameV::Ping(d)] + rest;
    assert(fs[0] == FrameV::Ping(d));
    assert(fs.drop_first() =~= rest);
    assert(frame_log_step(fs[0]) =~= seq![StreamLogItem::Reply(d)]);
}

/// Graceful close: the first close frame ends the stream — no event and no
/// reply of any later frame is processed.
pub proof fn lemma_close_ends_stream(before: Seq<FrameV>, after: Seq<FrameV>)
    requires
        forall|i: int| 0 <= i < before.len() ==> !((#[trigger] before[i]) is Close),
    ensures
        stream_log(before + seq![FrameV::Close] + after) == stream_log(before),
{
    let closed_tail = seq![FrameV::Close] + after;
    assert(closed_tail[0] is Close);
    assert(stream_log(closed_tail) =~= Seq::<StreamLogItem>::empty());
    lemma_stream_log_append(before, closed_tail);
    assert(before + seq![FrameV::Close] + after =~= before + closed_tail);
    assert(stream_log(before) + stream_log(closed_tail) =~= stream_log(before));
}

/// What the stream adapter does with one incoming frame.
#[derive(Debug)]
pub enum StreamAction {
    /// A data frame decoded to this event: enqueue it.
    Deliver(Events),
    /// A probe frame: answer it with this in-kind reply payload.
    Reply(Vec<u8>),
    /// A malformed data frame, or a reply frame: nothing to do, keep going.
    Skip,
    /// A close frame: end the stream.
    Stop,
}

fn copy_bytes(src: &Vec<u8>) -> (r: Vec<u8>)
    ensures
        r@ == src@,
{
    let len = src.len();
    let mut r: Vec<u8> = Vec::new();
    let mut i: usize = 0;
    while i < len
        invariant
            len == src@.len(),
            0 <= i <= len,
            r@ =~= src@.take(i as int),
        decreases len - i,
    {
        r.push(src[i]);
        proof {
            assert(r@ =~= src@.take(i as int + 1));
        }
        i = i + 1;
    }
    proof {
        assert(src@.take(len as int) =~= src@);
    }
    r
}

/// Normalise one incoming frame: a data frame becomes its decoded event, or
/// nothing when malformed; a probe frame is answered in-kind; a close frame
/// ends the stream; a reply frame is ignored.
pub fn stream_decision(f: &Frame) -> (r: StreamAction)
    ensures
        match f@ {
            FrameV::Text(b) => match spec_event_of_json(b) {
                Option::Some(e) => r == StreamAction::Deliver(e),
                Option::None => r is Skip,
            },
            FrameV::Binary(b) => match spec_event_of_json(b) {
                Option::Some(e) => r == StreamAction::Deliver(e),
                Option::None => r is Skip,
            },
            FrameV::Ping(d) => r matches StreamAction::Reply(p) && p@ == d,
            FrameV::Pong(_) => r is Skip,
            FrameV::Close => r is Stop,
        },
{
    match f {
        Frame::Text(b) => match decode_event(b.as_slice()) {
            Option::Some(e) => StreamAction::Deliver(e),
            Option::None => StreamAction::Skip,
        },
        Frame::Binary(b) => match decode_event(b.as_slice()) {
            Option::Some(e) => StreamAction::Deliver(e),
            Option::None => StreamAction::Skip,
        },
        Frame::Ping(d) => StreamAction::Reply(copy_bytes(d)),
        Frame::Pong(_) => StreamAction::Skip,
        Frame::Close => StreamAction::Stop,
    }
}

/// The views of the collected reply payloads.
pub open spec fn reply_views(rs: Seq<Vec<u8>>) -> Seq<Seq<u8>> {
    rs.map_values(|p: Vec<u8>| p@)
}

} // verus!
