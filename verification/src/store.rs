//! The persistent host table, modelled as an in-memory store.
//!
//! The store is the only shared mutable resource of the pipeline. It upholds
//! the one structural invariant of the data model: the external machine id,
//! and the internal id, are unique across all hosts. The resolver finds a host
//! by external id or creates it on first contact; the applier updates a host
//! by internal id.

use vstd::prelude::*;

use crate::applier::apply_event;
use crate::applier::spec_apply_event;
use crate::events::Events;
use crate::host::Host;
use crate::host::is_fresh_host;

verus! {

/// Why a store operation failed.
#[derive(Debug, PartialEq, Eq)]
pub enum StoreError {
    /// A freshly drawn internal id collided with a stored one, so the insert
    /// was rejected by the uniqueness constraint.
    IdConflict,
    /// No host with the given internal id exists.
    NotFound,
}

/// Some stored host carries this external machine id.
pub open spec fn has_machine_id(s: Seq<Host>, mid: Seq<char>) -> bool {
    exists|i: int| 0 <= i < s.len() && (#[trigger] s[i]).machine_id@ == mid
}

/// Some stored host carries this internal id.
pub open spec fn has_host_id(s: Seq<Host>, id: u128) -> bool {
    exists|i: int| 0 <= i < s.len() && (#[trigger] s[i]).id == id
}

/// The store's invariant: external machine ids and internal ids are unique.
pub open spec fn store_wf(s: Seq<Host>) -> bool {
    forall|i: int, j: int|
        0 <= i < j < s.len() ==> (#[trigger] s[i]).machine_id@ != (#[trigger] s[j]).machine_id@
            && s[i].id != s[j].id
}

/// What a successful resolve guarantees: the returned host carries the asked
/// external id; a host that already carried it is returned unchanged and the
/// store is untouched; otherwise a fresh host with a previously unused internal
/// id was appended and returned.
pub open spec fn resolve_ok_post(pre: Seq<Host>, post: Seq<Host>, mid: Seq<char>, h: Host) -> bool {
    &&& h.machine_id@ == mid
    &&& if has_machine_id(pre, mid) {
        post == pre && pre.contains(h)
    } else {
        &&& is_fresh_host(h, h.id, mid)
        &&& post == pre.push(h)
        &&& !has_host_id(pre, h.id)
    }
}

/// The stored host carrying the given internal id. Meaningful only when such a
/// host exists and the store is well formed, which makes it unique.
pub open spec fn spec_host_with_id(s: Seq<Host>, id: u128) -> Host {
    s[choose|i: int| 0 <= i < s.len() && (#[trigger] s[i]).id == id]
}

/// A step of the pipeline touches at most the one host it is for: the store
/// keeps its length, every internal id stays in place, and every other host's
/// record is untouched.
pub open spec fn others_unchanged(pre: Seq<Host>, post: Seq<Host>, id: u128) -> bool {
    &&& post.len() == pre.len()
    &&& forall|k: int| 0 <= k < pre.len() ==> (#[trigger] post[k]).id == pre[k].id
    &&& forall|k: int| 0 <= k < pre.len() && (#[trigger] pre[k]).id != id ==> post[k] == pre[k]
}

/// In a well-formed store, a stored host is the one `spec_host_with_id` picks
/// for its id.
pub proof fn lemma_host_with_id_unique(s: Seq<Host>, h: Host)
    requires
        store_wf(s),
        s.contains(h),
    ensures
        has_host_id(s, h.id),
        spec_host_with_id(s, h.id) == h,
{
    let i = choose|i: int| 0 <= i < s.len() && s[i] == h;
    assert(has_host_id(s, h.id)) by {
        assert(s[i].id == h.id);
    }
    let j = choose|j: int| 0 <= j < s.len() && (#[trigger] s[j]).id == h.id;
    assert(i == j) by {
        if i < j {
            assert(s[i].id != s[j].id);
        } else if j < i {
            assert(s[j].id != s[i].id);
        }
    }
}

/// Applying an event pointwise to the one host with the given id moves
/// `spec_host_with_id` by exactly that event and keeps the id present.
pub proof fn lemma_apply_updates_host(pre: Seq<Host>, post: Seq<Host>, id: u128, e: Events)
    requires
        store_wf(pre),
        has_host_id(pre, id),
        post.len() == pre.len(),
        forall|k: int|
            0 <= k < pre.len() ==> #[trigger] post[k] == if pre[k].id == id {
                spec_apply_event(pre[k], e)
            } else {
                pre[k]
            },
    ensures
        has_host_id(post, id),
        others_unchanged(pre, post, id),
        spec_host_with_id(post, id) == spec_apply_event(spec_host_with_id(pre, id), e),
{
    let i = choose|i: int| 0 <= i < pre.len() && (#[trigger] pre[i]).id == id;
    assert(forall|k: int| 0 <= k < pre.len() ==> (#[trigger] post[k]).id == pre[k].id);
    assert(has_host_id(post, id)) by {
        assert(post[i].id == id);
    }
    let jp = choose|k: int| 0 <= k < post.len() && (#[trigger] post[k]).id == id;
    assert(i == jp) by {
        if i < jp {
            assert(pre[i].id != pre[jp].id);
        } else if jp < i {
            assert(pre[jp].id != pre[i].id);
        }
    }
}

/// Idempotent identity: however many times an external machine id is resolved,
/// at most one host with that id is ever persisted. After one successful
/// resolve, a well-formed store holds exactly one such host, and every further
/// successful resolve returns that same host — the same internal id — and
/// leaves the store unchanged.
pub proof fn lemma_resolve_idempotent(
    s0: Seq<Host>,
    s1: Seq<Host>,
    s2: Seq<Host>,
    mid: Seq<char>,
    h1: Host,
    h2: Host,
)
    requires
        store_wf(s0),
        resolve_ok_post(s0, s1, mid, h1),
        resolve_ok_post(s1, s2, mid, h2),
    ensures
        h2 == h1,
        s2 == s1,
        forall|i: int, j: int|
            0 <= i < s1.len() && 0 <= j < s1.len() && (#[trigger] s1[i]).machine_id@ == mid && (
            #[trigger] s1[j]).machine_id@ == mid ==> i == j,
{
    if has_machine_id(s0, mid) {
        let i1 = choose|i: int| 0 <= i < s0.len() && s0[i] == h1;
        assert(has_machine_id(s1, mid)) by {
            assert(s1[i1].machine_id@ == mid);
        }
        let i2 = choose|i: int| 0 <= i < s1.len() && s1[i] == h2;
        assert(i1 == i2) by {
            if i1 < i2 {
                assert(s0[i1].machine_id@ != s0[i2].machine_id@);
            } else if i2 < i1 {
                assert(s0[i2].machine_id@ != s0[i1].machine_id@);
            }
        }
        assert(forall|i: int, j: int|
            0 <= i < s1.len() && 0 <= j < s1.len() && (#[trigger] s1[i]).machine_id@ == mid && (
            #[trigger] s1[j]).machine_id@ == mid && i < j ==> false);
    } else {
        let fresh = s0.len() as int;
        assert(s1[fresh] == h1);
        assert(has_machine_id(s1, mid)) by {
            assert(s1[fresh].machine_id@ == mid);
        }
        assert(forall|k: int| 0 <= k < s0.len() ==> (#[trigger] s0[k]).machine_id@ != mid);
        let i2 = choose|i: int| 0 <= i < s1.len() && s1[i] == h2;
        assert(i2 == fresh) by {
            if i2 < fresh {
                assert(s0[i2].machine_id@ != mid);
            }
        }
    }
}

/// Relies on uuidv7::create_raw: a fresh version-7 UUID drawn from the clock
/// and the operating system's random source. Its value depends on the moment
/// of the call, so nothing is promised of it. (The call aborts only if the
/// operating system's random source fails.)
#[verifier::external_body]
fn fresh_host_id() -> u128 {
    u128::from_be_bytes(uuidv7::create_raw())
}

/// The host table.
#[derive(Debug)]
pub struct HostStore {
    hosts: Vec<Host>,
}

impl View for HostStore {
    type V = Seq<Host>;

    closed spec fn view(&self) -> Seq<Host> {
        self.hosts@
    }
}

impl HostStore {
    /// The store's invariant holds.
    pub open spec fn wf(&self) -> bool {
        store_wf(self@)
    }

    /// An empty host table.
    pub fn new() -> (s: HostStore)
        ensures
            s@ == Seq::<Host>::empty(),
            s.wf(),
    {
        HostStore { hosts: Vec::new() }
    }

    /// How many hosts are stored.
    pub fn len(&self) -> (n: usize)
        ensures
            n == self@.len(),
    {
        self.hosts.len()
    }

    /// The stored host with the given external machine id, if any.
    pub fn find_by_machine_id(&self, machine_id: &String) -> (r: Option<&Host>)
        ensures
            match r {
                Option::Some(h) => self@.contains(*h) && h.machine_id@ == machine_id@,
                Option::None => !has_machine_id(self@, machine_id@),
            },
    {
        let n = self.hosts.len();
        for i in 0..n
            invariant
                n == self@.len(),
                forall|k: int| 0 <= k < i ==> (#[trigger] self@[k]).machine_id@ != machine_id@,
        {
            if self.hosts[i].machine_id == *machine_id {
                return Option::Some(&self.hosts[i]);
            }
        }
        Option::None
    }

    /// The stored host with the given internal id, if any.
    pub fn get_by_id(&self, id: u128) -> (r: Option<&Host>)
        ensures
            match r {
                Option::Some(h) => self@.contains(*h) && h.id == id,
                Option::None => !has_host_id(self@, id),
            },
    {
        let n = self.hosts.len();
        for i in 0..n
            invariant
                n == self@.len(),
                forall|k: int| 0 <= k < i ==> (#[trigger] self@[k]).id != id,
        {
            if self.hosts[i].id == id {
                return Option::Some(&self.hosts[i]);
            }
        }
        Option::None
    }

    /// Decide at run time whether the store's invariant holds: no two hosts
    /// share an external machine id or an internal id. Unverified callers use
    /// this to test the other methods' precondition.
    pub fn is_well_formed(&self) -> (b: bool)
        ensures
            b == store_wf(self@),
    {
        let n = self.hosts.len();
        let mut i: usize = 0;
        while i < n
            invariant
                n == self@.len(),
                0 <= i <= n,
                forall|p: int, q: int|
                    0 <= p < q < self@.len() && p < i ==> (#[trigger] self@[p]).machine_id@ != (
                    #[trigger] self@[q]).machine_id@ && self@[p].id != self@[q].id,
            decreases n - i,
        {
            let mut j: usize = i + 1;
            while j < n
                invariant
                    n == self@.len(),
                    0 <= i < j <= n,
                    forall|q: int|
                        i < q < j ==> (#[trigger] self@[q]).machine_id@ != self@[i as int].machine_id@
                            && self@[q].id != self@[i as int].id,
                decreases n - j,
            {
                if self.hosts[j].machine_id == self.hosts[i].machine_id || self.hosts[j].id
                    == self.hosts[i].id {
                    proof {
                        assert(!store_wf(self@)) by {
                            assert(0 <= (i as int) && (i as int) < (j as int) && (j as int)
                                < self@.len());
                        }
                    }
                    return false;
                }
                j = j + 1;
            }
            i = i + 1;
        }
        true
    }

    /// Find the host with the given external machine id, or create it.
    ///
    /// On first contact a fresh host is constructed with a newly drawn
    /// time-ordered internal id, the given external id and every other field
    /// at its default, persisted, and returned. A host that already exists is
    /// returned unchanged, with no side effect. The one failure is the store's
    /// uniqueness constraint rejecting a drawn internal id that is already in
    /// use; the store is then unchanged and no retry is attempted here.
    pub fn resolve(&mut self, machine_id: &String) -> (r: Result<Host, StoreError>)
        requires
            old(self).wf(),
        ensures
            final(self).wf(),
            match r {
                Result::Ok(h) => resolve_ok_post(old(self)@, final(self)@, machine_id@, h),
                Result::Err(e) => final(self)@ == old(self)@ && !has_machine_id(old(self)@, machine_id@)
                    && e == StoreError::IdConflict,
            },
            has_machine_id(old(self)@, machine_id@) ==> r is Ok,
    {
        match self.find_by_machine_id(machine_id) {
            Option::Some(found) => {
                let h = found.clone();
                Result::Ok(h)
            },
            Option::None => {
                let id = fresh_host_id();
                if self.get_by_id(id).is_some() {
                    return Result::Err(StoreError::IdConflict);
                }
                let h = Host::fresh(id, machine_id.clone());
                self.hosts.push(h.clone());
                Result::Ok(h)
            },
        }
    }

    /// Apply one event to the host with the given internal id, leaving every
    /// other host untouched. Fails exactly when no such host is stored; the
    /// store is then unchanged.
    pub fn apply_event(&mut self, id: u128, e: &Events) -> (r: Result<(), StoreError>)
        requires
            old(self).wf(),
        ensures
            final(self).wf(),
            final(self)@.len() == old(self)@.len(),
            r is Ok <==> has_host_id(old(self)@, id),
            r is Err ==> final(self)@ == old(self)@ && r == Result::<(), StoreError>::Err(
                StoreError::NotFound,
            ),
            forall|k: int|
                0 <= k < old(self)@.len() ==> #[trigger] final(self)@[k] == if old(self)@[k].id == id {
                    spec_apply_event(old(self)@[k], *e)
                } else {
                    old(self)@[k]
                },
    {
        let n = self.hosts.len();
        for i in 0..n
            invariant
                n == self@.len(),
                self@ == old(self)@,
                store_wf(old(self)@),
                forall|k: int| 0 <= k < i ==> (#[trigger] self@[k]).id != id,
        {
            if self.hosts[i].id == id {
                let updated = apply_event(&self.hosts[i], e);
                self.hosts.set(i, updated);
                proof {
                    let pre = old(self)@;
                    let up = spec_apply_event(pre[i as int], *e);
                    assert(self@ =~= pre.update(i as int, up));
                    assert(up.id == pre[i as int].id && up.machine_id == pre[i as int].machine_id);
                    assert(forall|k: int|
                        0 <= k < pre.len() ==> (#[trigger] self@[k]).id == pre[k].id
                            && self@[k].machine_id@ == pre[k].machine_id@);
                    assert(forall|k: int| 0 <= k < pre.len() && k != i ==> (#[trigger] pre[k]).id != id);
                }
                return Result::Ok(());
            }
        }
        Result::Err(StoreError::NotFound)
    }
}

} // verus!
