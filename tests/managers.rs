use amazon_rose_forest::text::decimal_string;
use amazon_rose_forest::metrics::{Metrics, ThresholdAction};
use amazon_rose_forest::retry::RetryStrategy;
use amazon_rose_forest::synchrony::NeurosynchronyManager;
use amazon_rose_forest::versioning::VersioningManager;

#[test]
fn versioning_appends_per_key() {
    let mut vm: VersioningManager<u32> = VersioningManager::new(10_000);
    assert!(vm.history("k").is_none());
    vm.start();
    vm.record_update("k", 1);
    vm.record_update("j", 7);
    vm.record_update("k", 2);
    assert_eq!(vm.history("k"), Some(&vec![1, 2]));
    assert_eq!(vm.history("j"), Some(&vec![7]));
    vm.stop();
}

#[test]
fn synchrony_drift_and_resync() {
    let mut ns = NeurosynchronyManager::new_at(500, 500, 1_000);
    let mut metrics = Metrics::new();
    assert_eq!(ns.drift_at(1_200), 200);
    assert_eq!(ns.drift_at(900), 0);
    let (drift, action) = ns.check_drift_at(&mut metrics, 1_700);
    assert_eq!(drift, 700);
    assert_eq!(action, None);
    assert_eq!(metrics.get_total("neurosynchrony_drift"), Some((700, 1)));
    assert!(ns.needs_resync(drift));
    assert!(!ns.needs_resync(500));
    ns.mark_synced_at(1_700);
    assert_eq!(ns.drift_at(1_750), 50);
    metrics.set_threshold("neurosynchrony_drift", 10);
    let (_, fired) = ns.check_drift_at(&mut metrics, 1_800);
    // the drift key names no action even above its threshold
    assert_eq!(fired, None);
    assert_ne!(Some(ThresholdAction::TriggerResync), fired);
}

#[test]
fn retry_jitter_is_drawn_not_fixed() {
    let mut draws = Vec::new();
    for _ in 0..32 {
        let mut r = RetryStrategy::new(1_000_000, 1_000_000, 1);
        draws.push(r.next_delay().unwrap());
    }
    assert!(draws.iter().all(|d| *d <= 1_000_000));
    assert!(draws.iter().any(|d| *d != 1_000_000));
    assert!(draws.iter().any(|d| *d != draws[0]));
}

#[test]
fn decimal_rendering() {
    assert_eq!(decimal_string(0), "0");
    assert_eq!(decimal_string(7), "7");
    assert_eq!(decimal_string(1234), "1234");
    assert_eq!(decimal_string(usize::MAX), usize::MAX.to_string());
}
