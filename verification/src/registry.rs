//! The mailbox registry: at most one live consumer per host.
//!
//! Obtaining a mailbox for a host is keyed by the host's internal id and
//! idempotent: while a consumer is already running for that host, the same
//! mailbox is handed out again, so concurrent producers for one host share one
//! queue and one ordering domain. An entry is created only on first use and
//! removed when its consumer exits. (The alternative — a fresh mailbox and
//! consumer per obtain call — fans events for one host out over several
//! queues and forfeits the single-consumer ordering.)

use vstd::prelude::*;

verus! {

/// What an obtain call found.
#[derive(Debug)]
pub enum ObtainOutcome {
    /// A consumer is already running for this host: share its mailbox.
    Existing,
    /// No consumer was running: one mailbox was registered, and exactly one
    /// consumer is to be started for it.
    Created,
}

/// One registered host id.
pub open spec fn registered(keys: Seq<u128>, id: u128) -> bool {
    exists|i: int| 0 <= i < keys.len() && keys[i] == id
}

/// The registry's invariant: one entry per host.
pub open spec fn registry_wf(keys: Seq<u128>) -> bool {
    forall|i: int, j: int| 0 <= i < j < keys.len() ==> keys[i] != keys[j]
}

/// The hosts that currently have a live consumer.
#[derive(Debug)]
pub struct MailboxRegistry {
    keys: Vec<u128>,
}

impl View for MailboxRegistry {
    type V = Seq<u128>;

    closed spec fn view(&self) -> Seq<u128> {
        self.keys@
    }
}

impl MailboxRegistry {
    /// The registry's invariant holds.
    pub open spec fn wf(&self) -> bool {
        registry_wf(self@)
    }

    /// A registry with no live consumers.
    pub fn new() -> (r: MailboxRegistry)
        ensures
            r@ == Seq::<u128>::empty(),
            r.wf(),
    {
        MailboxRegistry { keys: Vec::new() }
    }

    /// How many hosts have a live consumer.
    pub fn len(&self) -> (n: usize)
        ensures
            n == self@.len(),
    {
        self.keys.len()
    }

    /// Whether a consumer is registered for this host.
    pub fn contains(&self, host_id: u128) -> (b: bool)
        ensures
            b == registered(self@, host_id),
    {
        let n = self.keys.len();
        for i in 0..n
            invariant
                n == self@.len(),
                forall|k: int| 0 <= k < i ==> self@[k] != host_id,
        {
            if self.keys[i] == host_id {
                return true;
            }
        }
        false
    }

    /// Decide at run time whether the registry's invariant holds: no host is
    /// registered twice. Unverified callers use this to test the other
    /// methods' precondition.
    pub fn is_well_formed(&self) -> (b: bool)
        ensures
            b == registry_wf(self@),
    {
        let n = self.keys.len();
        let mut i: usize = 0;
        while i < n
            invariant
                n == self@.len(),
                0 <= i <= n,
                forall|p: int, q: int| 0 <= p < q < self@.len() && p < i ==> self@[p] != self@[q],
            decreases n - i,
        {
            let mut j: usize = i + 1;
            while j < n
                invariant
                    n == self@.len(),
                    0 <= i < j <= n,
                    forall|q: int| i < q < j ==> self@[q] != self@[i as int],
                decreases n - j,
            {
                if self.keys[j] == self.keys[i] {
                    proof {
                        assert(!registry_wf(self@)) by {
                            assert(0 <= (i as int) && (i as int) < (j as int) && (j as int)
                                < self@.len());
                        }
                    }
                    return false;
                }
                j = j + 1;
            }
            i = i + 1;
        }
        true
    }

    /// Obtain the mailbox slot for a host, idempotently: while the host
    /// already has a live consumer nothing changes and the existing mailbox is
    /// shared; otherwise the host is registered exactly once and a consumer is
    /// to be started.
    pub fn obtain(&mut self, host_id: u128) -> (r: ObtainOutcome)
        requires
            old(self).wf(),
        ensures
            final(self).wf(),
            registered(final(self)@, host_id),
            r is Existing <==> registered(old(self)@, host_id),
            r is Existing ==> final(self)@ == old(self)@,
            r is Created ==> final(self)@ == old(self)@.push(host_id),
    {
        if self.contains(host_id) {
            ObtainOutcome::Existing
        } else {
            self.keys.push(host_id);
            proof {
                assert(self@[self@.len() - 1] == host_id);
            }
            ObtainOutcome::Created
        }
    }

    /// Drop a host's entry once its consumer has exited; the other entries
    /// keep their places. Without an entry, nothing changes.
    pub fn release(&mut self, host_id: u128)
        requires
            old(self).wf(),
        ensures
            final(self).wf(),
            !registered(final(self)@, host_id),
            registered(old(self)@, host_id) ==> exists|i: int|
                0 <= i < old(self)@.len() && old(self)@[i] == host_id && final(self)@ == old(
                    self,
                )@.remove(i),
            !registered(old(self)@, host_id) ==> final(self)@ == old(self)@,
    {
        let n = self.keys.len();
        let mut i: usize = 0;
        while i < n
            invariant
                n == self@.len(),
                self@ == old(self)@,
                registry_wf(old(self)@),
                0 <= i <= n,
                forall|k: int| 0 <= k < i ==> self@[k] != host_id,
            decreases n - i,
        {
            if self.keys[i] == host_id {
                self.keys.remove(i);
                proof {
                    assert(self@ =~= old(self)@.remove(i as int));
                    assert(forall|k: int|
                        0 <= k < old(self)@.len() && k != i ==> old(self)@[k] != host_id);
                    assert(forall|k: int| 0 <= k < self@.len() ==> self@[k] != host_id);
                }
                return ;
            }
            i = i + 1;
        }
    }
}

} // verus!
