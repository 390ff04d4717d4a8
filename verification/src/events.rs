//! The typed events an agent may report.
//!
//! An event is a closed tagged union: either a network/geo emission or an
//! operating-system emission. Optional fields carry "sparse patch" semantics:
//! an absent value means "leave the stored field unchanged", never "clear it".

use vstd::prelude::*;

verus! {

/// One reported fact from an agent.
#[derive(Debug, Clone)]
pub enum Events {
    EvtMachineEmit(EvtMachineEmit),
    EvtOsEmit(EvtOsEmit),
}

/// A network/geo emission: the IP is always given, the country only sometimes.
#[derive(Debug, Clone)]
pub struct EvtMachineEmit {
    pub ip: String,
    pub country: Option<String>,
}

/// An operating-system emission: the family is always given, the rest only
/// sometimes.
#[derive(Debug, Clone)]
pub struct EvtOsEmit {
    pub family: String,
    pub name: Option<String>,
    pub version: Option<String>,
    pub arch: Option<String>,
    pub build: Option<String>,
    pub virtualization: Option<bool>,
}

} // verus!
