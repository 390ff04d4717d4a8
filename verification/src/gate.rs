//! The one-time initialisation gate.
//!
//! A process-wide cached boolean derived from a one-time store query: has a
//! first user been created? The cache moves from "not ready" to "ready" once
//! and is never reset; while it is not ready, every check falls back to the
//! store query and caches a positive answer.

use vstd::prelude::*;

verus! {

/// The cached answer of the one-time query.
#[derive(Debug)]
pub struct InitGate {
    ready: bool,
}

impl InitGate {
    /// The stored flag, true once a first user is known to exist.
    pub closed spec fn is_ready(&self) -> bool {
        self.ready
    }

    /// A gate that has not yet seen a positive answer.
    pub fn new() -> (g: InitGate)
        ensures
            !g.is_ready(),
    {
        InitGate { ready: false }
    }

    /// Fast path: the cached answer, with no store query.
    pub fn cached(&self) -> (b: bool)
        ensures
            b == self.is_ready(),
    {
        self.ready
    }

    /// Feed in the fallback store lookup — whether any user exists — and
    /// get the current state. A true state is kept forever; a false one is
    /// raised to true when a user exists.
    pub fn check(&mut self, has_users: bool) -> (b: bool)
        ensures
            final(self).is_ready() == (old(self).is_ready() || has_users),
            b == final(self).is_ready(),
            old(self).is_ready() ==> final(self).is_ready(),
    {
        if !self.ready {
            self.ready = has_users;
        }
        self.ready
    }
}

} // verus!
