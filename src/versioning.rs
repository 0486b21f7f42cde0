//! Append-only history of every processed centroid, per content key.

use vstd::prelude::*;
use crate::table::KeyedTable;

verus! {

pub struct VersioningManager<C> {
    versioning_interval_ms: u64,
    running: bool,
    history: KeyedTable<Vec<C>>,
}

impl<C> VersioningManager<C> {
    /// Entries recorded under each content key, oldest first.
    pub closed spec fn spec_history(&self) -> Map<Seq<char>, Vec<C>> {
        self.history@
    }

    pub closed spec fn spec_running(&self) -> bool {
        self.running
    }

    pub closed spec fn wf(&self) -> bool {
        self.history.wf()
    }

    pub fn new(versioning_interval_ms: u64) -> (r: Self)
        ensures
            r.wf(),
            !r.spec_running(),
            r.spec_interval() == versioning_interval_ms,
            r.spec_history() == Map::<Seq<char>, Vec<C>>::empty(),
    {
        VersioningManager { versioning_interval_ms, running: false, history: KeyedTable::new() }
    }

    /// Cadence of history commits, in milliseconds.
    pub closed spec fn spec_interval(&self) -> u64 {
        self.versioning_interval_ms
    }

    pub fn versioning_interval_ms(&self) -> (r: u64)
        ensures
            r == self.spec_interval(),
    {
        self.versioning_interval_ms
    }

    pub fn start(&mut self)
        ensures
            final(self).spec_running(),
            final(self).spec_history() == old(self).spec_history(),
            final(self).wf() == old(self).wf(),
    {
        self.running = true;
    }

    pub fn stop(&mut self)
        ensures
            !final(self).spec_running(),
            final(self).spec_history() == old(self).spec_history(),
            final(self).wf() == old(self).wf(),
    {
        self.running = false;
    }

    /// Appends `entry` to the history of `key`; nothing recorded before changes.
    pub fn record_update(&mut self, key: &str, entry: C)
        requires
            old(self).wf(),
        ensures
            final(self).wf(),
            final(self).spec_running() == old(self).spec_running(),
            final(self).spec_history().dom() == old(self).spec_history().dom().insert(key@),
            final(self).spec_history()[key@]@ == if old(self).spec_history().contains_key(key@) {
                old(self).spec_history()[key@]@.push(entry)
            } else {
                seq![entry]
            },
            forall|k: Seq<char>|
                k != key@ && #[trigger] old(self).spec_history().contains_key(k) ==> final(self).spec_history()[k]
                    == old(self).spec_history()[k],
    {
        let mut entries = match self.history.remove(key) {
            Some(v) => v,
            None => Vec::new(),
        };
        entries.push(entry);
        self.history.insert(key.to_owned(), entries);
    }

    /// The history recorded under `key`.
    pub fn history(&self, key: &str) -> (r: Option<&Vec<C>>)
        requires
            self.wf(),
        ensures
            r == if self.spec_history().contains_key(key@) {
                Some(&self.spec_history()[key@])
            } else {
                None::<&Vec<C>>
            },
    {
        self.history.get(key)
    }
}

} // verus!
