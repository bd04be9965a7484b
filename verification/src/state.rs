//! Where a node keeps the last route state that was known to work.
use vstd::prelude::*;

use crate::text::owned;

verus! {

/// The commands of the last policy application that was known to work.
#[derive(Debug, Clone, PartialEq, Eq)]
pub struct RouteSnapshot {
    pub policy_id: String,
    pub version: u64,
    pub commands: Vec<String>,
}

impl RouteSnapshot {
    pub fn new(policy_id: &str, version: u64, commands: Vec<String>) -> (r: RouteSnapshot)
        ensures
            r.policy_id@ == policy_id@,
            r.version == version,
            r.commands == commands,
    {
        RouteSnapshot { policy_id: owned(policy_id), version, commands }
    }
}

/// Keeps the last known good snapshot: what is saved is what is read back.
pub trait StateStore {
    /// The snapshot saved last, if any.
    spec fn saved(&self) -> Option<RouteSnapshot>;

    fn save_last_known_good(&mut self, snapshot: RouteSnapshot)
        ensures
            final(self).saved() == Some(snapshot),
    ;

    fn last_known_good(&self) -> (r: Option<&RouteSnapshot>)
        ensures
            match r {
                Some(s) => self.saved() == Some(*s),
                None => self.saved() is None,
            },
    ;
}

/// A state store held in memory.
#[derive(Debug)]
pub struct MemoryStateStore {
    snapshot: Option<RouteSnapshot>,
}

impl Default for MemoryStateStore {
    fn default() -> (r: MemoryStateStore)
        ensures
            r.saved() is None,
    {
        MemoryStateStore { snapshot: None }
    }
}

impl StateStore for MemoryStateStore {
    closed spec fn saved(&self) -> Option<RouteSnapshot> {
        self.snapshot
    }

    fn save_last_known_good(&mut self, snapshot: RouteSnapshot) {
        self.snapshot = Some(snapshot);
    }

    fn last_known_good(&self) -> (r: Option<&RouteSnapshot>) {
        match &self.snapshot {
            Some(s) => Some(s),
            None => None,
        }
    }
}

} // verus!
