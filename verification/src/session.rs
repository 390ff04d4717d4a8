//! One ingestion session: a resolved host, its bounded mailbox, and its
//! consumer, composed as a single synchronous pipeline.
//!
//! A session is the ordering domain of the design: events offered to it are
//! applied to its host's record in exactly the order they were enqueued. A
//! full queue exercises backpressure — the producer step lets the consumer
//! drain one slot and then enqueues, so nothing is ever dropped or reordered.

use vstd::prelude::*;
use vstd::pervasive::unreached;

use crate::applier::lemma_apply_events_push;
use crate::applier::spec_apply_event;
use crate::applier::spec_apply_events;
use crate::events::Events;
use crate::host::Host;
use crate::mailbox::EnqueueOutcome;
use crate::mailbox::Mailbox;
use crate::store::HostStore;
use crate::store::StoreError;
use crate::store::has_host_id;
use crate::store::has_machine_id;
use crate::store::lemma_apply_updates_host;
use crate::store::lemma_host_with_id_unique;
use crate::store::others_unchanged;
use crate::store::resolve_ok_post;
use crate::store::spec_host_with_id;
use crate::stream::Frame;
use crate::stream::FrameV;
use crate::stream::StreamAction;
use crate::stream::StreamLogItem;
use crate::stream::frame_log_step;
use crate::stream::frame_views;
use crate::stream::has_close;
use crate::stream::lemma_close_ends_stream;
use crate::stream::lemma_log_empty;
use crate::stream::lemma_log_parts_append;
use crate::stream::lemma_log_singleton_deliver;
use crate::stream::lemma_log_singleton_reply;
use crate::stream::lemma_stream_log_append;
use crate::stream::lemma_stream_log_singleton;
use crate::stream::log_deliveries;
use crate::stream::log_replies;
use crate::stream::reply_views;
use crate::stream::stream_decision;
use crate::stream::stream_log;
use crate::wire::WireValue;
use crate::wire::decode_wire_event;
use crate::wire::spec_event_of_wire;

verus! {

/// The fixed queue capacity of a session's mailbox.
pub const MAILBOX_CAPACITY: usize = 16;

/// The events a batch of wire values normalises to: each value that decodes,
/// in batch order; a value that does not decode is skipped and decides nothing
/// for its neighbours.
pub open spec fn wire_events(items: Seq<WireValue>) -> Seq<Events>
    decreases items.len(),
{
    if items.len() == 0 {
        Seq::empty()
    } else {
        let rest = wire_events(items.drop_first());
        match spec_event_of_wire(items[0]) {
            Option::Some(e) => seq![e] + rest,
            Option::None => rest,
        }
    }
}

/// One more batch item appends its decoded event, if any, to the batch's
/// events.
pub proof fn lemma_wire_events_push(items: Seq<WireValue>, x: WireValue)
    ensures
        wire_events(items.push(x)) == wire_events(items) + (match spec_event_of_wire(x) {
            Option::Some(e) => seq![e],
            Option::None => Seq::<Events>::empty(),
        }),
    decreases items.len(),
{
    let tail = match spec_event_of_wire(x) {
        Option::Some(e) => seq![e],
        Option::None => Seq::<Events>::empty(),
    };
    if items.len() == 0 {
        assert(items.push(x)[0] == x);
        assert(items.push(x).drop_first() =~= items);
        assert(wire_events(items) =~= Seq::<Events>::empty());
        match spec_event_of_wire(x) {
            Option::Some(e) => {
                assert(wire_events(items.push(x)) == seq![e] + wire_events(items));
                assert(seq![e] + wire_events(items) =~= wire_events(items) + tail);
            },
            Option::None => {
                assert(wire_events(items.push(x)) == wire_events(items));
                assert(wire_events(items) =~= wire_events(items) + tail);
            },
        }
    } else {
        assert(items.push(x)[0] == items[0]);
        assert(items.push(x).drop_first() =~= items.drop_first().push(x));
        lemma_wire_events_push(items.drop_first(), x);
        match spec_event_of_wire(items[0]) {
            Option::Some(e) => {
                assert(wire_events(items.push(x)) =~= wire_events(items) + tail);
            },
            Option::None => {
                assert(wire_events(items.push(x)) =~= wire_events(items) + tail);
            },
        }
    }
}

/// A resolved host, its bounded event queue, and its consumer.
#[derive(Debug)]
pub struct Session {
    store: HostStore,
    mailbox: Mailbox,
    host_id: u128,
}

impl Session {
    /// The session is sound: a well-formed store that holds the session's
    /// host, and an open mailbox within its capacity.
    pub closed spec fn wf(&self) -> bool {
        &&& self.store.wf()
        &&& self.mailbox.wf()
        &&& !self.mailbox@.closed
        &&& has_host_id(self.store@, self.host_id)
    }

    /// The stored hosts.
    pub closed spec fn store_view(&self) -> Seq<Host> {
        self.store@
    }

    /// The queued, not yet applied events, oldest first.
    pub closed spec fn queue(&self) -> Seq<Events> {
        self.mailbox@.queue
    }

    /// The mailbox's capacity.
    pub closed spec fn capacity(&self) -> nat {
        self.mailbox@.capacity
    }

    /// The internal id of the session's host.
    pub closed spec fn target_id(&self) -> u128 {
        self.host_id
    }

    /// The session's host as currently persisted.
    pub open spec fn host(&self) -> Host {
        spec_host_with_id(self.store_view(), self.target_id())
    }

    /// The record the session's host settles to once the queue is drained.
    pub open spec fn settled_host(&self) -> Host {
        spec_apply_events(self.host(), self.queue())
    }

    /// Everything a producer or consumer step leaves alone: the session's
    /// identity, its capacity, and every other host's record.
    pub open spec fn frame_unchanged(&self, pre: &Session) -> bool {
        &&& self.target_id() == pre.target_id()
        &&& self.capacity() == pre.capacity()
        &&& others_unchanged(pre.store_view(), self.store_view(), pre.target_id())
    }

    /// Resolve the host for the given external machine id and start a session
    /// for it: a fresh mailbox of fixed capacity, bound to that host. On a
    /// store failure the untouched store is handed back and the request fails.
    pub fn open(store: HostStore, machine_id: &String) -> (r: Result<
        Session,
        (HostStore, StoreError),
    >)
        requires
            store.wf(),
        ensures
            match r {
                Result::Ok(s) => {
                    &&& s.wf()
                    &&& resolve_ok_post(store@, s.store_view(), machine_id@, s.host())
                    &&& s.queue() == Seq::<Events>::empty()
                    &&& s.capacity() == MAILBOX_CAPACITY as nat
                },
                Result::Err((back, e)) => {
                    &&& back@ == store@
                    &&& back.wf()
                    &&& e == StoreError::IdConflict
                    &&& !has_machine_id(store@, machine_id@)
                },
            },
    {
        let ghost pre = store@;
        let mut st = store;
        match st.resolve(machine_id) {
            Result::Ok(h) => {
                proof {
                    if has_machine_id(pre, machine_id@) {
                        assert(st@.contains(h));
                    } else {
                        assert(st@ == pre.push(h));
                        assert(st@[pre.len() as int] == h);
                        assert(st@.contains(h));
                    }
                    lemma_host_with_id_unique(st@, h);
                }
                Result::Ok(Session { store: st, mailbox: Mailbox::new(MAILBOX_CAPACITY), host_id: h.id })
            },
            Result::Err(e) => Result::Err((st, e)),
        }
    }

    /// The session's host as currently persisted.
    pub fn current_host(&self) -> (h: &Host)
        requires
            self.wf(),
        ensures
            *h == self.host(),
    {
        match self.store.get_by_id(self.host_id) {
            Option::Some(h) => {
                proof {
                    lemma_host_with_id_unique(self.store@, *h);
                }
                h
            },
            Option::None => unreached(),
        }
    }

    /// How many events are queued and not yet applied.
    pub fn queued(&self) -> (n: usize)
        ensures
            n == self.queue().len(),
    {
        self.mailbox.len()
    }

    /// Consumer step: dequeue the oldest event and merge it into the host's
    /// record. What the session settles to does not change.
    fn drain_slot(&mut self)
        requires
            old(self).wf(),
            old(self).queue().len() > 0,
        ensures
            final(self).wf(),
            final(self).queue() == old(self).queue().drop_first(),
            final(self).settled_host() == old(self).settled_host(),
            final(self).frame_unchanged(old(self)),
    {
        let ghost pre_store = self.store@;
        let e = match self.mailbox.dequeue() {
            Option::Some(e) => e,
            Option::None => unreached(),
        };
        let r = self.store.apply_event(self.host_id, &e);
        proof {
            assert(r is Ok);
            lemma_apply_updates_host(pre_store, self.store@, self.host_id, e);
        }
    }

    /// Producer step: enqueue one event for the session's host. When the queue
    /// is full the step first lets the consumer drain one slot — backpressure
    /// suspends the producer, it never drops the event — and then appends.
    /// The settled record advances by exactly this event.
    pub fn submit(&mut self, e: Events)
        requires
            old(self).wf(),
        ensures
            final(self).wf(),
            final(self).settled_host() == spec_apply_event(old(self).settled_host(), e),
            final(self).queue().len() <= final(self).capacity(),
            final(self).frame_unchanged(old(self)),
    {
        if self.mailbox.len() == self.mailbox.capacity() {
            self.drain_slot();
        }
        let ghost mid = *self;
        let outcome = self.mailbox.try_enqueue(e);
        match outcome {
            EnqueueOutcome::Accepted => {},
            EnqueueOutcome::Full(_) => {
                proof {
                    assert(false);
                }
            },
            EnqueueOutcome::Closed(_) => {
                proof {
                    assert(false);
                }
            },
        }
        proof {
            assert(self.queue() =~= mid.queue().push(e));
            lemma_apply_events_push(mid.host(), mid.queue(), e);
        }
    }

    /// Batch adapter: offer an ordered batch of loosely-typed wire values.
    /// Each value is decoded independently; a value that decodes is enqueued,
    /// a malformed one is skipped, and one bad value never fails the batch.
    /// The settled record advances by exactly the batch's decoded events, in
    /// batch order.
    pub fn submit_batch(&mut self, items: &Vec<WireValue>)
        requires
            old(self).wf(),
        ensures
            final(self).wf(),
            final(self).settled_host() == spec_apply_events(
                old(self).settled_host(),
                wire_events(items@),
            ),
            final(self).queue().len() <= final(self).capacity(),
            final(self).frame_unchanged(old(self)),
    {
        let ghost pre = *self;
        let len = items.len();
        let mut i: usize = 0;
        proof {
            assert(items@.take(0int) =~= Seq::<WireValue>::empty());
        }
        while i < len
            invariant
                self.wf(),
                len == items@.len(),
                0 <= i <= len,
                pre.wf(),
                self.settled_host() == spec_apply_events(
                    pre.settled_host(),
                    wire_events(items@.take(i as int)),
                ),
                self.queue().len() <= self.capacity(),
                self.frame_unchanged(&pre),
            decreases len - i,
        {
            match decode_wire_event(&items[i]) {
                Option::Some(e) => {
                    self.submit(e);
                },
                Option::None => {},
            }
            proof {
                assert(items@.take(i as int + 1) =~= items@.take(i as int).push(items@[i as int]));
                lemma_wire_events_push(items@.take(i as int), items@[i as int]);
                match spec_event_of_wire(items@[i as int]) {
                    Option::Some(e) => {
                        assert(wire_events(items@.take(i as int + 1)) =~= wire_events(
                            items@.take(i as int),
                        ).push(e));
                        lemma_apply_events_push(
                            pre.settled_host(),
                            wire_events(items@.take(i as int)),
                            e,
                        );
                    },
                    Option::None => {
                        assert(wire_events(items@.take(i as int + 1)) =~= wire_events(
                            items@.take(i as int),
                        ));
                    },
                }
            }
            i = i + 1;
        }
        proof {
            assert(items@.take(len as int) =~= items@);
        }
    }

    /// Let the consumer drain the mailbox dry: every queued event is applied,
    /// in order, and the persisted record reaches the settled state.
    pub fn drain_all(&mut self)
        requires
            old(self).wf(),
        ensures
            final(self).wf(),
            final(self).queue() == Seq::<Events>::empty(),
            final(self).host() == old(self).settled_host(),
            final(self).settled_host() == old(self).settled_host(),
            final(self).frame_unchanged(old(self)),
    {
        let ghost pre = *self;
        while self.queued() > 0
            invariant
                self.wf(),
                pre.wf(),
                self.settled_host() == pre.settled_host(),
                self.frame_unchanged(&pre),
            decreases self.queue().len(),
        {
            self.drain_slot();
        }
        proof {
            assert(self.queue() =~= Seq::<Events>::empty());
        }
    }


    /// Streaming adapter: feed received frames through the session, in order.
    /// Data frames are decoded and enqueued — a malformed one is skipped and
    /// never ends the stream; probe frames are answered in-kind, the reply
    /// payloads returned oldest first; the first close frame ends the stream
    /// and nothing after it is processed. Returns the replies and whether a
    /// close frame was seen.
    pub fn run_stream(&mut self, frames: &Vec<Frame>) -> (r: (Vec<Vec<u8>>, bool))
        requires
            old(self).wf(),
        ensures
            final(self).wf(),
            final(self).settled_host() == spec_apply_events(
                old(self).settled_host(),
                log_deliveries(stream_log(frame_views(frames@))),
            ),
            reply_views(r.0@) == log_replies(stream_log(frame_views(frames@))),
            r.1 == has_close(frame_views(frames@)),
            final(self).queue().len() <= final(self).capacity(),
            final(self).frame_unchanged(old(self)),
    {
        let ghost pre = *self;
        let ghost fvs = frame_views(frames@);
        let len = frames.len();
        let mut replies: Vec<Vec<u8>> = Vec::new();
        let mut closed = false;
        let mut i: usize = 0;
        proof {
            assert(fvs.take(0int) =~= Seq::<FrameV>::empty());
            lemma_log_empty();
            assert(reply_views(replies@) =~= Seq::<Seq<u8>>::empty());
        }
        while i < len
            invariant_except_break
                self.wf(),
                pre.wf(),
                len == frames@.len(),
                fvs == frame_views(frames@),
                0 <= i <= len,
                !closed,
                forall|k: int| 0 <= k < i ==> !((#[trigger] fvs[k]) is Close),
                self.settled_host() == spec_apply_events(
                    pre.settled_host(),
                    log_deliveries(stream_log(fvs.take(i as int))),
                ),
                reply_views(replies@) == log_replies(stream_log(fvs.take(i as int))),
                self.queue().len() <= self.capacity(),
                self.frame_unchanged(&pre),
            ensures
                self.wf(),
                0 <= i <= len,
                self.queue().len() <= self.capacity(),
                self.frame_unchanged(&pre),
                closed ==> {
                    &&& self.settled_host() == spec_apply_events(
                        pre.settled_host(),
                        log_deliveries(stream_log(fvs)),
                    )
                    &&& reply_views(replies@) == log_replies(stream_log(fvs))
                    &&& has_close(fvs)
                },
                !closed ==> {
                    &&& i == len
                    &&& forall|k: int| 0 <= k < len ==> !((#[trigger] fvs[k]) is Close)
                    &&& self.settled_host() == spec_apply_events(
                        pre.settled_host(),
                        log_deliveries(stream_log(fvs.take(len as int))),
                    )
                    &&& reply_views(replies@) == log_replies(stream_log(fvs.take(len as int)))
                },
            decreases len - i,
        {
            proof {
                assert(fvs[i as int] == frames@[i as int]@);
            }
            let action = stream_decision(&frames[i]);
            let is_stop = match &action {
                StreamAction::Stop => true,
                _ => false,
            };
            if is_stop {
                closed = true;
                proof {
                    let done = fvs.take(i as int);
                    assert(fvs[i as int] is Close);
                    assert(fvs =~= done + seq![FrameV::Close] + fvs.skip(i as int + 1));
                    lemma_close_ends_stream(done, fvs.skip(i as int + 1));
                    assert(has_close(fvs));
                }
                break ;
            }
            let ghost done = fvs.take(i as int);
            let ghost step = frame_log_step(fvs[i as int]);
            proof {
                assert(!(fvs[i as int] is Close));
                assert(fvs.take(i as int + 1) =~= done + seq![fvs[i as int]]);
                lemma_stream_log_append(done, seq![fvs[i as int]]);
                lemma_stream_log_singleton(fvs[i as int]);
                assert(stream_log(fvs.take(i as int + 1)) == stream_log(done) + step);
                lemma_log_parts_append(stream_log(done), step);
            }
            match action {
                StreamAction::Deliver(e) => {
                    proof {
                        assert(step =~= seq![StreamLogItem::Deliver(e)]);
                        lemma_log_singleton_deliver(e);
                        assert(log_deliveries(stream_log(fvs.take(i as int + 1)))
                            =~= log_deliveries(stream_log(done)).push(e));
                        assert(log_replies(stream_log(fvs.take(i as int + 1))) =~= log_replies(
                            stream_log(done),
                        ));
                        lemma_apply_events_push(
                            pre.settled_host(),
                            log_deliveries(stream_log(done)),
                            e,
                        );
                    }
                    self.submit(e);
                },
                StreamAction::Reply(p) => {
                    let ghost pv = p@;
                    proof {
                        assert(step =~= seq![StreamLogItem::Reply(pv)]);
                        lemma_log_singleton_reply(pv);
                        assert(log_deliveries(stream_log(fvs.take(i as int + 1)))
                            =~= log_deliveries(stream_log(done)));
                        assert(log_replies(stream_log(fvs.take(i as int + 1))) =~= log_replies(
                            stream_log(done),
                        ).push(pv));
                    }
                    replies.push(p);
                    proof {
                        assert(reply_views(replies@) =~= log_replies(stream_log(done)).push(pv));
                    }
                },
                StreamAction::Skip => {
                    proof {
                        assert(step =~= Seq::<StreamLogItem>::empty());
                        lemma_log_empty();
                        assert(log_deliveries(stream_log(fvs.take(i as int + 1)))
                            =~= log_deliveries(stream_log(done)));
                        assert(log_replies(stream_log(fvs.take(i as int + 1))) =~= log_replies(
                            stream_log(done),
                        ));
                    }
                },
                StreamAction::Stop => {
                    proof {
                        assert(false);
                    }
                },
            }
            i = i + 1;
        }
        proof {
            if !closed {
                assert(fvs.take(len as int) =~= fvs);
                assert(!has_close(fvs));
            }
        }
        (replies, closed)
    }

    /// End the session: drain the queue and hand the store back with every
    /// queued event applied; the mailbox is dropped with the session.
    pub fn finish(self) -> (store: HostStore)
        requires
            self.wf(),
        ensures
            store.wf(),
            has_host_id(store@, self.target_id()),
            spec_host_with_id(store@, self.target_id()) == self.settled_host(),
            others_unchanged(self.store_view(), store@, self.target_id()),
    {
        let mut s = self;
        s.drain_all();
        s.store
    }
}

} // verus!
