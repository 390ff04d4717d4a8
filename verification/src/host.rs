//! The persisted record for one agent-reporting machine.
//!
//! A host is created exactly once, on first contact, with every reported field
//! at its zero/empty default; afterwards events patch individual fields and
//! nothing else ever mutates the record.

use vstd::prelude::*;

verus! {

/// One row per physical or virtual machine.
///
/// `id` is the internal identity, assigned at creation and immutable.
/// `machine_id` is the caller-supplied opaque external identifier, unique
/// across all hosts and immutable once set. The `machine_*` network/geo fields
/// are mutated only by a `MachineEmit` event, the `os_*` fields only by an
/// `OsEmit` event, and the `hashed_*` fingerprints by no event at all.
#[derive(Debug)]
pub struct Host {
    pub id: u128,
    pub machine_id: String,
    pub machine_ip: String,
    pub machine_country: String,
    pub machine_geo: String,
    pub os_family: String,
    pub os_name: String,
    pub os_version: String,
    pub os_arch: String,
    pub os_build: String,
    pub os_virtualization: bool,
    pub hashed_cpu: i32,
    pub hashed_gpu: i32,
    pub hashed_memory: i32,
    pub hashed_disk: i32,
    pub hashed_network: i32,
}

/// A freshly created host: the given identity, and every other field at its
/// zero/empty default.
pub open spec fn is_fresh_host(h: Host, id: u128, machine_id: Seq<char>) -> bool {
    &&& h.id == id
    &&& h.machine_id@ == machine_id
    &&& h.machine_ip@ == Seq::<char>::empty()
    &&& h.machine_country@ == Seq::<char>::empty()
    &&& h.machine_geo@ == Seq::<char>::empty()
    &&& h.os_family@ == Seq::<char>::empty()
    &&& h.os_name@ == Seq::<char>::empty()
    &&& h.os_version@ == Seq::<char>::empty()
    &&& h.os_arch@ == Seq::<char>::empty()
    &&& h.os_build@ == Seq::<char>::empty()
    &&& h.os_virtualization == false
    &&& h.hashed_cpu == 0
    &&& h.hashed_gpu == 0
    &&& h.hashed_memory == 0
    &&& h.hashed_disk == 0
    &&& h.hashed_network == 0
}

impl Host {
    /// Construct the record persisted on first contact: the given identity and
    /// external machine id, all other fields at their defaults.
    pub fn fresh(id: u128, machine_id: String) -> (h: Host)
        ensures
            is_fresh_host(h, id, machine_id@),
    {
        Host {
            id,
            machine_id,
            machine_ip: String::new(),
            machine_country: String::new(),
            machine_geo: String::new(),
            os_family: String::new(),
            os_name: String::new(),
            os_version: String::new(),
            os_arch: String::new(),
            os_build: String::new(),
            os_virtualization: false,
            hashed_cpu: 0,
            hashed_gpu: 0,
            hashed_memory: 0,
            hashed_disk: 0,
            hashed_network: 0,
        }
    }
}

impl Clone for Host {
    /// An exact copy of the record.
    fn clone(&self) -> (res: Self)
        ensures
            res == *self,
    {
        Host {
            id: self.id,
            machine_id: self.machine_id.clone(),
            machine_ip: self.machine_ip.clone(),
            machine_country: self.machine_country.clone(),
            machine_geo: self.machine_geo.clone(),
            os_family: self.os_family.clone(),
            os_name: self.os_name.clone(),
            os_version: self.os_version.clone(),
            os_arch: self.os_arch.clone(),
            os_build: self.os_build.clone(),
            os_virtualization: self.os_virtualization,
            hashed_cpu: self.hashed_cpu,
            hashed_gpu: self.hashed_gpu,
            hashed_memory: self.hashed_memory,
            hashed_disk: self.hashed_disk,
            hashed_network: self.hashed_network,
        }
    }
}

} // verus!
