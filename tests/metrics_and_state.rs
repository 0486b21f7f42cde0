use amazon_rose_forest::crdt::{CentroidMeta, MergeOutcome, VersionVector};
use amazon_rose_forest::metrics::{Metrics, ThresholdAction};

#[test]
fn metrics_default_thresholds() {
    let m = Metrics::new();
    assert_eq!(m.get_threshold("neurosynchrony_latency"), Some(500));
    assert_eq!(m.get_threshold("crdt_merge_divergence"), Some(10));
    assert_eq!(m.get_threshold("node_availability"), Some(95));
    assert_eq!(m.get_threshold("federated_aggregation_latency"), Some(600_000));
    assert_eq!(m.get_threshold("other"), None);
}

#[test]
fn metrics_record_fires_named_action_above_threshold() {
    let mut m = Metrics::new();
    assert_eq!(m.record("neurosynchrony_latency", 500), None);
    assert_eq!(m.record("neurosynchrony_latency", 501), Some(ThresholdAction::TriggerResync));
    assert_eq!(m.record("crdt_merge_divergence", 11), Some(ThresholdAction::ImmediateReconciliation));
    assert_eq!(m.record("node_availability", 96), Some(ThresholdAction::AlertOperators));
    assert_eq!(
        m.record("federated_aggregation_latency", 600_001),
        Some(ThresholdAction::ReduceParticipantSet)
    );
    m.set_threshold("custom", 1);
    assert_eq!(m.record("custom", 5), None);
    assert_eq!(m.record("unthresholded", u64::MAX), None);
    assert_eq!(m.get_total("neurosynchrony_latency"), Some((1_001, 2)));
}

#[test]
fn metrics_totals_and_missing_series() {
    let mut m = Metrics::new();
    assert_eq!(m.get_total("x"), None);
    m.record("x", u64::MAX);
    m.record("x", u64::MAX);
    assert_eq!(m.get_total("x"), Some((2 * (u64::MAX as u128), 2)));
}

#[test]
fn metrics_operation_span_records_duration() {
    let mut m = Metrics::new();
    assert_eq!(m.end_operation_at("op", 50), None);
    assert_eq!(m.get_total("op"), None);
    m.start_operation_at("op", 100);
    assert_eq!(m.end_operation_at("op", 350), None);
    assert_eq!(m.get_total("op"), Some((250, 1)));
    m.start_operation_at("neurosynchrony_latency", 0);
    assert_eq!(m.end_operation_at("neurosynchrony_latency", 900), Some(ThresholdAction::TriggerResync));
    m.start_operation_at("late", 10);
    m.end_operation_at("late", 5);
    assert_eq!(m.get_total("late"), Some((0, 1)));
    m.start_operation("clock");
    m.end_operation("clock");
    assert_eq!(m.get_total("clock").map(|t| t.1), Some(1));
}

#[test]
fn version_vector_increment_merge_dominates() {
    let mut a = VersionVector::new();
    let mut b = VersionVector::new();
    assert!(a.dominates(&b));
    a.increment("r1");
    a.increment("r1");
    b.increment("r2");
    assert_eq!(a.get("r1"), 2);
    assert_eq!(a.get("r2"), 0);
    assert!(!a.dominates(&b));
    assert!(!b.dominates(&a));
    a.merge(&b);
    assert_eq!(a.get("r1"), 2);
    assert_eq!(a.get("r2"), 1);
    assert!(a.dominates(&b));
    assert!(!b.dominates(&a));
}

#[test]
fn centroid_meta_merge_outcomes() {
    let mut a = CentroidMeta::new_at(10);
    a.update_at("r1", 20);
    assert_eq!(a.count(), 2);
    assert_eq!(a.version_of("r1"), 1);
    assert_eq!(a.timestamp(), 20);

    // a has seen nothing new from a fresh replica with an empty vector
    let empty = CentroidMeta::new_at(5);
    assert_eq!(a.merge(&empty), MergeOutcome::Unchanged);
    assert_eq!(a.count(), 2);

    // a replica that has seen everything a has replaces it
    let mut ahead = CentroidMeta::new_at(0);
    ahead.update_at("r1", 30);
    ahead.update_at("r1", 40);
    let mut b = CentroidMeta::new_at(0);
    b.update_at("r1", 1);
    assert_eq!(b.merge(&ahead), MergeOutcome::Replaced);
    assert_eq!(b.count(), 3);
    assert_eq!(b.version_of("r1"), 2);
    assert_eq!(b.timestamp(), 40);

    // concurrent replicas blend
    let mut c = CentroidMeta::new_at(50);
    c.update_at("r2", 60);
    assert_eq!(a.merge(&c), MergeOutcome::Blended { self_count: 2, other_count: 2 });
    assert_eq!(a.count(), 4);
    assert_eq!(a.version_of("r1"), 1);
    assert_eq!(a.version_of("r2"), 1);
    assert_eq!(a.timestamp(), 60);
    // delivering c again changes nothing
    assert_eq!(a.merge(&c), MergeOutcome::Unchanged);
    assert_eq!(a.count(), 4);
}

#[test]
fn centroid_meta_merge_commutes_for_concurrent_replicas() {
    let mut x = CentroidMeta::new_at(1);
    x.update_at("r1", 2);
    let mut y = CentroidMeta::new_at(3);
    y.update_at("r2", 4);
    y.update_at("r2", 5);
    let mut xy = CentroidMeta::new_at(0);
    xy.merge(&x);
    let mut x2 = CentroidMeta::new_at(1);
    x2.update_at("r1", 2);
    x2.merge(&y);
    let mut y2 = CentroidMeta::new_at(3);
    y2.update_at("r2", 4);
    y2.update_at("r2", 5);
    y2.merge(&x);
    assert_eq!(x2.count(), y2.count());
    assert_eq!(x2.timestamp(), y2.timestamp());
    assert_eq!(x2.version_of("r1"), y2.version_of("r1"));
    assert_eq!(x2.version_of("r2"), y2.version_of("r2"));
    assert_eq!(xy.count(), 2);
}
