//! Broadcast cadence and drift: the time since the last successful sync.

use vstd::prelude::*;
use crate::clock::now_millis;
use crate::metrics::{appended, fired, Metrics, ThresholdAction};

verus! {

pub struct NeurosynchronyManager {
    sync_interval_ms: u64,
    max_drift_tolerance_ms: u64,
    last_sync: u64,
    running: bool,
}

impl NeurosynchronyManager {
    /// Time of the last successful broadcast or sync, in milliseconds.
    pub closed spec fn spec_last_sync(&self) -> u64 {
        self.last_sync
    }

    pub closed spec fn spec_tolerance(&self) -> u64 {
        self.max_drift_tolerance_ms
    }

    pub closed spec fn spec_running(&self) -> bool {
        self.running
    }

    /// A stopped manager whose last sync is `now`.
    pub fn new_at(sync_interval_ms: u64, max_drift_tolerance_ms: u64, now: u64) -> (r: Self)
        ensures
            r.spec_last_sync() == now,
            r.spec_tolerance() == max_drift_tolerance_ms,
            r.spec_interval() == sync_interval_ms,
            !r.spec_running(),
    {
        NeurosynchronyManager { sync_interval_ms, max_drift_tolerance_ms, last_sync: now, running: false }
    }

    pub fn new(sync_interval_ms: u64, max_drift_tolerance_ms: u64) -> (r: Self)
        ensures
            r.spec_tolerance() == max_drift_tolerance_ms,
            r.spec_interval() == sync_interval_ms,
            !r.spec_running(),
    {
        Self::new_at(sync_interval_ms, max_drift_tolerance_ms, now_millis())
    }

    /// Cadence of broadcasts, in milliseconds.
    pub closed spec fn spec_interval(&self) -> u64 {
        self.sync_interval_ms
    }

    pub fn sync_interval_ms(&self) -> (r: u64)
        ensures
            r == self.spec_interval(),
    {
        self.sync_interval_ms
    }

    pub fn start(&mut self)
        ensures
            final(self).spec_running(),
            final(self).spec_last_sync() == old(self).spec_last_sync(),
            final(self).spec_tolerance() == old(self).spec_tolerance(),
    {
        self.running = true;
    }

    pub fn stop(&mut self)
        ensures
            !final(self).spec_running(),
            final(self).spec_last_sync() == old(self).spec_last_sync(),
            final(self).spec_tolerance() == old(self).spec_tolerance(),
    {
        self.running = false;
    }

    /// A broadcast (or a sync with durable state) succeeded at `now`.
    pub fn mark_synced_at(&mut self, now: u64)
        ensures
            final(self).spec_last_sync() == now,
            final(self).spec_running() == old(self).spec_running(),
            final(self).spec_tolerance() == old(self).spec_tolerance(),
    {
        self.last_sync = now;
    }

    /// Milliseconds since the last sync at time `now` (0 if `now` is earlier).
    pub fn drift_at(&self, now: u64) -> (r: u64)
        ensures
            r == if now >= self.spec_last_sync() { now - self.spec_last_sync() } else { 0 },
    {
        now.saturating_sub(self.last_sync)
    }

    /// Measures the drift at `now` and records it under `neurosynchrony_drift`;
    /// returns the drift and the action the record fires.
    pub fn check_drift_at(&self, metrics: &mut Metrics, now: u64) -> (r: (u64, Option<ThresholdAction>))
        requires
            old(metrics).wf(),
        ensures
            final(metrics).wf(),
            r.0 == if now >= self.spec_last_sync() { now - self.spec_last_sync() } else { 0 },
            r.1 == fired(old(metrics).limits(), "neurosynchrony_drift"@, r.0),
            final(metrics).recorded().contains_key("neurosynchrony_drift"@),
            final(metrics).recorded().dom() == old(metrics).recorded().dom().insert("neurosynchrony_drift"@),
            final(metrics).recorded()["neurosynchrony_drift"@]@ == appended(old(metrics).recorded(), "neurosynchrony_drift"@, r.0),
            forall|k: Seq<char>|
                k != "neurosynchrony_drift"@ && #[trigger] old(metrics).recorded().contains_key(k)
                    ==> final(metrics).recorded()[k] == old(metrics).recorded()[k],
            final(metrics).open_spans() == old(metrics).open_spans(),
            final(metrics).limits() == old(metrics).limits(),
    {
        let drift = self.drift_at(now);
        let action = metrics.record("neurosynchrony_drift", drift);
        (drift, action)
    }

    /// Whether a drift is beyond tolerance and calls for an immediate resync.
    pub fn needs_resync(&self, drift_ms: u64) -> (r: bool)
        ensures
            r == (drift_ms > self.spec_tolerance()),
    {
        drift_ms > self.max_drift_tolerance_ms
    }
}

} // verus!
