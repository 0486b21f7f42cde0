//! Named counters and timers, with per-key thresholds that name a corrective action.

use vstd::prelude::*;
use crate::clock::now_millis;
use crate::table::KeyedTable;

verus! {

/// Corrective action named by a metric that crossed its threshold.
#[derive(Clone, Copy, Debug, PartialEq, Eq, Structural)]
pub enum ThresholdAction {
    TriggerResync,
    ImmediateReconciliation,
    AlertOperators,
    ReduceParticipantSet,
}

/// The action that each monitored metric names; other keys name none.
pub open spec fn action_for(key: Seq<char>) -> Option<ThresholdAction> {
    if key == "neurosynchrony_latency"@ {
        Some(ThresholdAction::TriggerResync)
    } else if key == "crdt_merge_divergence"@ {
        Some(ThresholdAction::ImmediateReconciliation)
    } else if key == "node_availability"@ {
        Some(ThresholdAction::AlertOperators)
    } else if key == "federated_aggregation_latency"@ {
        Some(ThresholdAction::ReduceParticipantSet)
    } else {
        None
    }
}

/// Threshold that a new `Metrics` starts with for `key`, if any: latency of a
/// sync in ms, merge divergence (distance x 1000), availability in percent, and
/// latency of a federated round in ms.
pub open spec fn default_threshold(key: Seq<char>) -> Option<u64> {
    if key == "neurosynchrony_latency"@ {
        Some(500u64)
    } else if key == "crdt_merge_divergence"@ {
        Some(10u64)
    } else if key == "node_availability"@ {
        Some(95u64)
    } else if key == "federated_aggregation_latency"@ {
        Some(600000u64)
    } else {
        None
    }
}

/// Sum of a series of values.
pub open spec fn total(s: Seq<u64>) -> nat
    decreases s.len(),
{
    if s.len() == 0 {
        0
    } else {
        total(s.drop_last()) + s.last() as nat
    }
}

proof fn lemma_total_bound(s: Seq<u64>)
    ensures
        total(s) <= s.len() * 0xffff_ffff_ffff_ffff,
    decreases s.len(),
{
    if s.len() > 0 {
        lemma_total_bound(s.drop_last());
    }
}

/// Series of a key after `value` is appended to it.
pub open spec fn appended(series: Map<Seq<char>, Vec<u64>>, key: Seq<char>, value: u64) -> Seq<u64> {
    if series.contains_key(key) {
        series[key]@.push(value)
    } else {
        seq![value]
    }
}

/// Action fired when `value` is recorded under `key` with these thresholds.
pub open spec fn fired(thresholds: Map<Seq<char>, u64>, key: Seq<char>, value: u64) -> Option<ThresholdAction> {
    if thresholds.contains_key(key) && value > thresholds[key] {
        action_for(key)
    } else {
        None
    }
}

pub struct Metrics {
    series: KeyedTable<Vec<u64>>,
    started: KeyedTable<u64>,
    thresholds: KeyedTable<u64>,
}

impl Metrics {
    /// Recorded values by key, oldest first.
    pub closed spec fn recorded(&self) -> Map<Seq<char>, Vec<u64>> {
        self.series@
    }

    /// Start time, in milliseconds, of the last operation opened under each key.
    pub closed spec fn open_spans(&self) -> Map<Seq<char>, u64> {
        self.started@
    }

    /// Threshold by key.
    pub closed spec fn limits(&self) -> Map<Seq<char>, u64> {
        self.thresholds@
    }

    pub closed spec fn wf(&self) -> bool {
        self.series.wf() && self.started.wf() && self.thresholds.wf()
    }

    pub fn new() -> (r: Self)
        ensures
            r.wf(),
            r.recorded() == Map::<Seq<char>, Vec<u64>>::empty(),
            r.open_spans() == Map::<Seq<char>, u64>::empty(),
            forall|k: Seq<char>| #[trigger] r.limits().contains_key(k) == default_threshold(k) is Some,
            forall|k: Seq<char>| #[trigger] r.limits().contains_key(k) ==> Some(r.limits()[k]) == default_threshold(k),
    {
        let mut thresholds: KeyedTable<u64> = KeyedTable::new();
        thresholds.insert("neurosynchrony_latency".to_owned(), 500);
        thresholds.insert("crdt_merge_divergence".to_owned(), 10);
        thresholds.insert("node_availability".to_owned(), 95);
        thresholds.insert("federated_aggregation_latency".to_owned(), 600000);
        proof {
            reveal_strlit("neurosynchrony_latency");
            reveal_strlit("crdt_merge_divergence");
            reveal_strlit("node_availability");
            reveal_strlit("federated_aggregation_latency");
            assert("neurosynchrony_latency"@.len() == 22);
            assert("crdt_merge_divergence"@.len() == 21);
            assert("node_availability"@.len() == 17);
            assert("federated_aggregation_latency"@.len() == 29);
        }
        Self { series: KeyedTable::new(), started: KeyedTable::new(), thresholds }
    }

    /// Appends `value` to the series of `key`; returns the action named by `key`
    /// when `value` exceeds its threshold.
    pub fn record(&mut self, key: &str, value: u64) -> (r: Option<ThresholdAction>)
        requires
            old(self).wf(),
        ensures
            final(self).wf(),
            final(self).recorded().dom() == old(self).recorded().dom().insert(key@),
            final(self).recorded()[key@]@ == appended(old(self).recorded(), key@, value),
            forall|k: Seq<char>|
                k != key@ && #[trigger] old(self).recorded().contains_key(k) ==> final(self).recorded()[k]
                    == old(self).recorded()[k],
            final(self).open_spans() == old(self).open_spans(),
            final(self).limits() == old(self).limits(),
            r == fired(old(self).limits(), key@, value),
    {
        let mut values = match self.series.remove(key) {
            Some(v) => v,
            None => Vec::new(),
        };
        values.push(value);
        self.series.insert(key.to_owned(), values);
        match self.get_threshold(key) {
            Some(limit) => {
                if value > limit {
                    self.handle_threshold_exceeded(key, value)
                } else {
                    None
                }
            },
            None => None,
        }
    }

    /// The action that `key` names once its threshold is exceeded; the value is
    /// what crossed it and does not change the choice.
    pub fn handle_threshold_exceeded(&self, key: &str, value: u64) -> (r: Option<ThresholdAction>)
        ensures
            r == action_for(key@),
    {
        let k = key.to_owned();
        proof {
            reveal_strlit("neurosynchrony_latency");
            reveal_strlit("crdt_merge_divergence");
            reveal_strlit("node_availability");
            reveal_strlit("federated_aggregation_latency");
        }
        if k == "neurosynchrony_latency".to_owned() {
            Some(ThresholdAction::TriggerResync)
        } else if k == "crdt_merge_divergence".to_owned() {
            Some(ThresholdAction::ImmediateReconciliation)
        } else if k == "node_availability".to_owned() {
            Some(ThresholdAction::AlertOperators)
        } else if k == "federated_aggregation_latency".to_owned() {
            Some(ThresholdAction::ReduceParticipantSet)
        } else {
            None
        }
    }

    /// Opens a timed operation under `key` at time `now` (milliseconds).
    pub fn start_operation_at(&mut self, key: &str, now: u64)
        requires
            old(self).wf(),
        ensures
            final(self).wf(),
            final(self).open_spans() == old(self).open_spans().insert(key@, now),
            final(self).recorded() == old(self).recorded(),
            final(self).limits() == old(self).limits(),
    {
        self.started.insert(key.to_owned(), now);
    }

    /// Opens a timed operation under `key` at the current time.
    pub fn start_operation(&mut self, key: &str)
        requires
            old(self).wf(),
        ensures
            final(self).wf(),
            exists|t: u64| final(self).open_spans() == old(self).open_spans().insert(key@, t),
            final(self).recorded() == old(self).recorded(),
            final(self).limits() == old(self).limits(),
    {
        let now = now_millis();
        self.start_operation_at(key, now);
    }

    /// Closes the operation opened under `key`: records the milliseconds since its
    /// start (0 if `now` is earlier) and returns the action that recording fires.
    /// Without an open operation nothing changes.
    pub fn end_operation_at(&mut self, key: &str, now: u64) -> (r: Option<ThresholdAction>)
        requires
            old(self).wf(),
        ensures
            final(self).wf(),
            final(self).open_spans() == old(self).open_spans(),
            final(self).limits() == old(self).limits(),
            !old(self).open_spans().contains_key(key@) ==> r is None && final(self).recorded()
                == old(self).recorded(),
            old(self).open_spans().contains_key(key@) ==> {
                let elapsed: u64 = if now >= old(self).open_spans()[key@] {
                    (now - old(self).open_spans()[key@]) as u64
                } else {
                    0
                };
                &&& final(self).recorded().dom() == old(self).recorded().dom().insert(key@)
                &&& final(self).recorded()[key@]@ == appended(old(self).recorded(), key@, elapsed)
                &&& forall|k: Seq<char>|
                    k != key@ && #[trigger] old(self).recorded().contains_key(k)
                        ==> final(self).recorded()[k] == old(self).recorded()[k]
                &&& r == fired(old(self).limits(), key@, elapsed)
            },
    {
        match self.started.get(key) {
            Some(start) => {
                let elapsed = now.saturating_sub(*start);
                self.record(key, elapsed)
            },
            None => None,
        }
    }

    /// Closes the operation opened under `key` at the current time.
    pub fn end_operation(&mut self, key: &str) -> (r: Option<ThresholdAction>)
        requires
            old(self).wf(),
        ensures
            final(self).wf(),
            final(self).open_spans() == old(self).open_spans(),
            final(self).limits() == old(self).limits(),
            !old(self).open_spans().contains_key(key@) ==> r is None && final(self).recorded()
                == old(self).recorded(),
            old(self).open_spans().contains_key(key@) ==> exists|elapsed: u64|
                {
                    &&& final(self).recorded().dom() == old(self).recorded().dom().insert(key@)
                    &&& final(self).recorded()[key@]@ == appended(old(self).recorded(), key@, elapsed)
                    &&& forall|k: Seq<char>|
                        k != key@ && #[trigger] old(self).recorded().contains_key(k)
                            ==> final(self).recorded()[k] == old(self).recorded()[k]
                    &&& r == fired(old(self).limits(), key@, elapsed)
                },
    {
        let now = now_millis();
        self.end_operation_at(key, now)
    }

    pub fn set_threshold(&mut self, key: &str, value: u64)
        requires
            old(self).wf(),
        ensures
            final(self).wf(),
            final(self).limits() == old(self).limits().insert(key@, value),
            final(self).recorded() == old(self).recorded(),
            final(self).open_spans() == old(self).open_spans(),
    {
        self.thresholds.insert(key.to_owned(), value);
    }

    pub fn get_threshold(&self, key: &str) -> (r: Option<u64>)
        requires
            self.wf(),
        ensures
            r == if self.limits().contains_key(key@) {
                Some(self.limits()[key@])
            } else {
                None::<u64>
            },
    {
        match self.thresholds.get(key) {
            Some(v) => Some(*v),
            None => None,
        }
    }

    /// Sum and number of the values recorded under `key`; `None` when there are none.
    /// Their mean is the sum divided by the number.
    pub fn get_total(&self, key: &str) -> (r: Option<(u128, usize)>)
        requires
            self.wf(),
        ensures
            r == if self.recorded().contains_key(key@) && self.recorded()[key@]@.len() > 0 {
                Some((total(self.recorded()[key@]@) as u128, self.recorded()[key@]@.len() as usize))
            } else {
                None::<(u128, usize)>
            },
    {
        match self.series.get(key) {
            Some(values) => {
                if values.len() == 0 {
                    return None;
                }
                let mut sum: u128 = 0;
                let mut i: usize = 0;
                while i < values.len()
                    invariant
                        i <= values@.len(),
                        sum as nat == total(values@.take(i as int)),
                    decreases values@.len() - i,
                {
                    proof {
                        assert(values@.take(i as int + 1).drop_last() =~= values@.take(i as int));
                        lemma_total_bound(values@.take(i as int));
                        assert(i * 0xffff_ffff_ffff_ffffnat <= 0xffff_ffff_ffff_ffff * 0xffff_ffff_ffff_ffffnat)
                            by (nonlinear_arith)
                            requires
                                i <= 0xffff_ffff_ffff_ffffnat,
                        ;
                    }
                    sum = sum + values[i] as u128;
                    i += 1;
                }
                assert(values@.take(i as int) =~= values@);
                Some((sum, values.len()))
            },
            None => None,
        }
    }
}

} // verus!
