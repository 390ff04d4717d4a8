//! Merging a reported event into a host record.
//!
//! Every update goes through one merge primitive: "apply the value if it is
//! present, else leave the stored field unchanged". An event is first turned
//! into a patch — the exact set of fields to write — and the patch is then
//! applied, so the two emit variants cannot drift apart in their optional-field
//! handling.

use vstd::prelude::*;

use crate::events::Events;
use crate::events::EvtMachineEmit;
use crate::events::EvtOsEmit;
use crate::host::Host;

verus! {

/// The merge primitive: a present value replaces the stored one, an absent
/// value means "do not change", never "clear".
pub open spec fn merged<T>(current: T, update: Option<T>) -> T {
    match update {
        Option::Some(v) => v,
        Option::None => current,
    }
}

/// The set of fields one event writes on the host with the given internal id.
/// A field left `None` is not touched by the patch.
///
/// `MachineEmit` always writes the IP and writes the country only when given;
/// `OsEmit` always writes the family and writes the remaining fields only when
/// given. No event touches the external machine id, the geo descriptor or the
/// hardware fingerprints.
#[derive(Debug)]
pub struct HostPatch {
    pub id: u128,
    pub machine_ip: Option<String>,
    pub machine_country: Option<String>,
    pub os_family: Option<String>,
    pub os_name: Option<String>,
    pub os_version: Option<String>,
    pub os_arch: Option<String>,
    pub os_build: Option<String>,
    pub os_virtualization: Option<bool>,
}

/// The patch an event induces for the host with internal id `id`.
pub open spec fn spec_patch_of_event(id: u128, e: Events) -> HostPatch {
    match e {
        Events::EvtMachineEmit(m) => HostPatch {
            id,
            machine_ip: Option::Some(m.ip),
            machine_country: m.country,
            os_family: Option::None,
            os_name: Option::None,
            os_version: Option::None,
            os_arch: Option::None,
            os_build: Option::None,
            os_virtualization: Option::None,
        },
        Events::EvtOsEmit(o) => HostPatch {
            id,
            machine_ip: Option::None,
            machine_country: Option::None,
            os_family: Option::Some(o.family),
            os_name: o.name,
            os_version: o.version,
            os_arch: o.arch,
            os_build: o.build,
            os_virtualization: o.virtualization,
        },
    }
}

/// The host after a patch: each patched field merged in, identity, geo and
/// fingerprints untouched.
pub open spec fn spec_apply_patch(h: Host, p: HostPatch) -> Host {
    Host {
        machine_ip: merged(h.machine_ip, p.machine_ip),
        machine_country: merged(h.machine_country, p.machine_country),
        os_family: merged(h.os_family, p.os_family),
        os_name: merged(h.os_name, p.os_name),
        os_version: merged(h.os_version, p.os_version),
        os_arch: merged(h.os_arch, p.os_arch),
        os_build: merged(h.os_build, p.os_build),
        os_virtualization: merged(h.os_virtualization, p.os_virtualization),
        ..h
    }
}

/// The host after one event: the event's patch applied.
pub open spec fn spec_apply_event(h: Host, e: Events) -> Host {
    spec_apply_patch(h, spec_patch_of_event(h.id, e))
}

/// The host after a whole sequence of events, applied first to last.
pub open spec fn spec_apply_events(h: Host, es: Seq<Events>) -> Host
    decreases es.len(),
{
    if es.len() == 0 {
        h
    } else {
        spec_apply_events(spec_apply_event(h, es[0]), es.drop_first())
    }
}

/// Appending one event to a history applies it after the rest.
pub proof fn lemma_apply_events_push(h: Host, es: Seq<Events>, e: Events)
    ensures
        spec_apply_events(h, es.push(e)) == spec_apply_event(spec_apply_events(h, es), e),
    decreases es.len(),
{
    if es.len() == 0 {
        assert(es.push(e)[0] == e);
        assert(es.push(e).drop_first() =~= es);
        assert(spec_apply_events(spec_apply_event(h, e), es) == spec_apply_event(h, e));
    } else {
        assert(es.push(e)[0] == es[0]);
        assert(es.push(e).drop_first() =~= es.drop_first().push(e));
        lemma_apply_events_push(spec_apply_event(h, es[0]), es.drop_first(), e);
        assert(spec_apply_events(h, es.push(e)) == spec_apply_events(
            spec_apply_event(h, es[0]),
            es.drop_first().push(e),
        ));
        assert(spec_apply_events(h, es) == spec_apply_events(
            spec_apply_event(h, es[0]),
            es.drop_first(),
        ));
    }
}

/// Order preservation: three events enqueued on one mailbox settle to the
/// state of applying the first, then the second, then the third — the final
/// record equals sequential application in enqueue order.
pub proof fn lemma_order_preserved(h: Host, e1: Events, e2: Events, e3: Events)
    ensures
        spec_apply_events(h, seq![e1, e2, e3]) == spec_apply_event(
            spec_apply_event(spec_apply_event(h, e1), e2),
            e3,
        ),
{
    let es = seq![e1, e2, e3];
    let h1 = spec_apply_event(h, e1);
    let h2 = spec_apply_event(h1, e2);
    let h3 = spec_apply_event(h2, e3);
    assert(es[0] == e1);
    assert(es.drop_first() =~= seq![e2, e3]);
    assert(spec_apply_events(h, es) == spec_apply_events(h1, seq![e2, e3]));
    assert(seq![e2, e3][0] == e2);
    assert(seq![e2, e3].drop_first() =~= seq![e3]);
    assert(spec_apply_events(h1, seq![e2, e3]) == spec_apply_events(h2, seq![e3]));
    assert(seq![e3][0] == e3);
    assert(seq![e3].drop_first() =~= Seq::<Events>::empty());
    assert(spec_apply_events(h2, seq![e3]) == spec_apply_events(h3, Seq::<Events>::empty()));
    assert(spec_apply_events(h3, Seq::<Events>::empty()) == h3);
}

/// Sparse patch: a machine emission with no country writes the IP and leaves
/// the stored country — and every identity, geo, OS and fingerprint field —
/// exactly as it was.
pub proof fn lemma_sparse_patch(h: Host, ip: String)
    ensures
        ({
            let r = spec_apply_event(
                h,
                Events::EvtMachineEmit(EvtMachineEmit { ip, country: Option::None }),
            );
            &&& r.machine_ip == ip
            &&& r.machine_country == h.machine_country
            &&& r.id == h.id
            &&& r.machine_id == h.machine_id
            &&& r.machine_geo == h.machine_geo
            &&& r.os_family == h.os_family
            &&& r.os_name == h.os_name
            &&& r.os_version == h.os_version
            &&& r.os_arch == h.os_arch
            &&& r.os_build == h.os_build
            &&& r.os_virtualization == h.os_virtualization
            &&& r.hashed_cpu == h.hashed_cpu
            &&& r.hashed_gpu == h.hashed_gpu
            &&& r.hashed_memory == h.hashed_memory
            &&& r.hashed_disk == h.hashed_disk
            &&& r.hashed_network == h.hashed_network
        }),
{
}

/// The merge primitive, executable on strings.
fn merge_string(current: &String, update: &Option<String>) -> (r: String)
    ensures
        r == merged(*current, *update),
{
    match update {
        Option::Some(v) => v.clone(),
        Option::None => current.clone(),
    }
}

/// The merge primitive, executable on flags.
fn merge_bool(current: bool, update: &Option<bool>) -> (r: bool)
    ensures
        r == merged(current, *update),
{
    match update {
        Option::Some(v) => *v,
        Option::None => current,
    }
}

fn clone_opt_string(o: &Option<String>) -> (r: Option<String>)
    ensures
        r == *o,
{
    match o {
        Option::Some(v) => Option::Some(v.clone()),
        Option::None => Option::None,
    }
}

/// The fields a `MachineEmit` event writes: the IP unconditionally, the
/// country only if present.
pub fn machine_emit_patch(id: u128, m: &EvtMachineEmit) -> (p: HostPatch)
    ensures
        p == spec_patch_of_event(id, Events::EvtMachineEmit(*m)),
{
    HostPatch {
        id,
        machine_ip: Option::Some(m.ip.clone()),
        machine_country: clone_opt_string(&m.country),
        os_family: Option::None,
        os_name: Option::None,
        os_version: Option::None,
        os_arch: Option::None,
        os_build: Option::None,
        os_virtualization: Option::None,
    }
}

/// The fields an `OsEmit` event writes: the family unconditionally, each other
/// field only if present.
pub fn os_emit_patch(id: u128, o: &EvtOsEmit) -> (p: HostPatch)
    ensures
        p == spec_patch_of_event(id, Events::EvtOsEmit(*o)),
{
    HostPatch {
        id,
        machine_ip: Option::None,
        machine_country: Option::None,
        os_family: Option::Some(o.family.clone()),
        os_name: clone_opt_string(&o.name),
        os_version: clone_opt_string(&o.version),
        os_arch: clone_opt_string(&o.arch),
        os_build: clone_opt_string(&o.build),
        os_virtualization: match o.virtualization {
            Option::Some(b) => Option::Some(b),
            Option::None => Option::None,
        },
    }
}

/// The patch for one event, dispatching on the tag in one place.
pub fn patch_of_event(id: u128, e: &Events) -> (p: HostPatch)
    ensures
        p == spec_patch_of_event(id, *e),
{
    match e {
        Events::EvtMachineEmit(m) => machine_emit_patch(id, m),
        Events::EvtOsEmit(o) => os_emit_patch(id, o),
    }
}

/// Apply a patch to a host record: every present field is written, every
/// absent field keeps its stored value.
pub fn apply_patch(h: &Host, p: &HostPatch) -> (r: Host)
    ensures
        r == spec_apply_patch(*h, *p),
{
    Host {
        id: h.id,
        machine_id: h.machine_id.clone(),
        machine_ip: merge_string(&h.machine_ip, &p.machine_ip),
        machine_country: merge_string(&h.machine_country, &p.machine_country),
        machine_geo: h.machine_geo.clone(),
        os_family: merge_string(&h.os_family, &p.os_family),
        os_name: merge_string(&h.os_name, &p.os_name),
        os_version: merge_string(&h.os_version, &p.os_version),
        os_arch: merge_string(&h.os_arch, &p.os_arch),
        os_build: merge_string(&h.os_build, &p.os_build),
        os_virtualization: merge_bool(h.os_virtualization, &p.os_virtualization),
        hashed_cpu: h.hashed_cpu,
        hashed_gpu: h.hashed_gpu,
        hashed_memory: h.hashed_memory,
        hashed_disk: h.hashed_disk,
        hashed_network: h.hashed_network,
    }
}

/// Merge one event into a host record with sparse-patch semantics.
pub fn apply_event(h: &Host, e: &Events) -> (r: Host)
    ensures
        r == spec_apply_event(*h, *e),
{
    let p = patch_of_event(h.id, e);
    apply_patch(h, &p)
}

} // verus!
