//! The per-host mailbox: a bounded, ordered, in-memory event queue.
//!
//! A mailbox is ephemeral: it lives for one ingestion session, is drained by
//! exactly one consumer, and is never persisted. Enqueueing onto a full
//! mailbox is backpressure, not failure: the event is handed back untouched so
//! the producer can wait for the consumer to drain a slot and try again.
//! Enqueueing onto a closed mailbox is the one genuine failure.

use vstd::prelude::*;

use crate::events::Events;

verus! {

/// What one enqueue attempt did.
#[derive(Debug)]
pub enum EnqueueOutcome {
    /// The event was appended to the queue.
    Accepted,
    /// The queue is at capacity; the event is handed back, to be offered again
    /// once the consumer has drained a slot.
    Full(Events),
    /// The mailbox is closed; the event is handed back and will never be
    /// delivered through this mailbox.
    Closed(Events),
}

/// The mathematical state of a mailbox.
pub struct MailboxView {
    pub queue: Seq<Events>,
    pub capacity: nat,
    pub closed: bool,
}

/// One enqueue step: refused when closed, pushed back when full, appended
/// otherwise. The queue is only ever changed by appending the offered event.
pub open spec fn spec_enqueue(m: MailboxView, e: Events) -> (MailboxView, EnqueueOutcome) {
    if m.closed {
        (m, EnqueueOutcome::Closed(e))
    } else if m.queue.len() >= m.capacity {
        (m, EnqueueOutcome::Full(e))
    } else {
        (MailboxView { queue: m.queue.push(e), ..m }, EnqueueOutcome::Accepted)
    }
}

/// One dequeue step: the oldest event leaves the queue first.
pub open spec fn spec_dequeue(m: MailboxView) -> (MailboxView, Option<Events>) {
    if m.queue.len() == 0 {
        (m, Option::None)
    } else {
        (MailboxView { queue: m.queue.drop_first(), ..m }, Option::Some(m.queue[0]))
    }
}

/// Backpressure: an enqueue onto a full, open mailbox neither fails nor drops —
/// the queue is unchanged and the event is handed back — and as soon as the
/// consumer drains one slot, the same enqueue is accepted and appends the
/// event.
pub proof fn lemma_backpressure(m: MailboxView, e: Events)
    requires
        !m.closed,
        m.queue.len() == m.capacity,
        m.capacity >= 1,
    ensures
        spec_enqueue(m, e) == (m, EnqueueOutcome::Full(e)),
        ({
            let (m1, d) = spec_dequeue(m);
            &&& d == Option::Some(m.queue[0])
            &&& spec_enqueue(m1, e).1 is Accepted
            &&& spec_enqueue(m1, e).0.queue == m1.queue.push(e)
        }),
{
}

/// A bounded FIFO queue of events with a fixed capacity.
#[derive(Debug)]
pub struct Mailbox {
    queue: Vec<Events>,
    capacity: usize,
    closed: bool,
}

impl View for Mailbox {
    type V = MailboxView;

    closed spec fn view(&self) -> MailboxView {
        MailboxView { queue: self.queue@, capacity: self.capacity as nat, closed: self.closed }
    }
}

impl Mailbox {
    /// The mailbox never holds more events than its capacity.
    pub open spec fn wf(&self) -> bool {
        self@.queue.len() <= self@.capacity && self@.capacity >= 1
    }

    /// A fresh, open, empty mailbox with the given capacity.
    pub fn new(capacity: usize) -> (m: Mailbox)
        requires
            capacity >= 1,
        ensures
            m.wf(),
            m@.queue == Seq::<Events>::empty(),
            m@.capacity == capacity as nat,
            !m@.closed,
    {
        Mailbox { queue: Vec::new(), capacity, closed: false }
    }

    /// Offer one event. It is appended if the mailbox is open and has room,
    /// and handed back otherwise, exactly as `spec_enqueue` says.
    pub fn try_enqueue(&mut self, e: Events) -> (r: EnqueueOutcome)
        requires
            old(self).wf(),
        ensures
            final(self).wf(),
            (final(self)@, r) == spec_enqueue(old(self)@, e),
    {
        if self.closed {
            EnqueueOutcome::Closed(e)
        } else if self.queue.len() >= self.capacity {
            EnqueueOutcome::Full(e)
        } else {
            self.queue.push(e);
            EnqueueOutcome::Accepted
        }
    }

    /// Take the oldest queued event, if any.
    pub fn dequeue(&mut self) -> (r: Option<Events>)
        requires
            old(self).wf(),
        ensures
            final(self).wf(),
            (final(self)@, r) == spec_dequeue(old(self)@),
    {
        if self.queue.len() == 0 {
            Option::None
        } else {
            Option::Some(self.queue.remove(0))
        }
    }

    /// Close the mailbox: every later enqueue is refused; queued events stay
    /// to be drained.
    pub fn close(&mut self)
        requires
            old(self).wf(),
        ensures
            final(self).wf(),
            final(self)@ == (MailboxView { closed: true, ..old(self)@ }),
    {
        self.closed = true;
    }

    /// How many events are queued.
    pub fn len(&self) -> (n: usize)
        ensures
            n == self@.queue.len(),
    {
        self.queue.len()
    }

    /// Whether the queue holds no events.
    pub fn is_empty(&self) -> (b: bool)
        ensures
            b == (self@.queue.len() == 0),
    {
        self.queue.len() == 0
    }

    /// Whether the mailbox is closed.
    pub fn is_closed(&self) -> (b: bool)
        ensures
            b == self@.closed,
    {
        self.closed
    }

    /// The fixed capacity the mailbox was created with.
    pub fn capacity(&self) -> (n: usize)
        ensures
            n == self@.capacity,
    {
        self.capacity
    }
}

} // verus!
