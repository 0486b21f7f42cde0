use amazon_rose_forest::error::ShardError;
use amazon_rose_forest::replication::{ReplicationManager, Submission};

fn update(version: u32, width: usize, who: &str) -> Submission<Vec<f32>> {
    Submission {
        version,
        weights_len: width,
        samples_count: 1000,
        contributor: who.to_string(),
        timestamp: 0,
        payload: vec![version as f32; width],
    }
}

#[test]
fn federated_round_versions_and_participants() {
    let mut rm: ReplicationManager<Vec<f32>> = ReplicationManager::new(3_600_000, 100);
    for (v, who) in [(1, "a"), (2, "b"), (3, "c")] {
        assert!(rm.receive_model_update(update(v, 5, who)).is_ok());
    }
    let plan = rm.begin_round().unwrap().unwrap();
    assert!(plan.version > 3);
    assert_eq!(plan.version, 4);
    assert_eq!(plan.participants.len(), 3);
    assert_eq!(plan.participants, vec!["a".to_string(), "b".to_string(), "c".to_string()]);
    assert_eq!(plan.samples_count, 3000);
    assert_eq!(plan.weights_len, 5);
    rm.commit_round(&plan);
    assert_eq!(rm.current_version(), Some(4));
    assert!(rm.pending_updates().is_empty());
    match rm.receive_model_update(update(2, 5, "d")) {
        Err(ShardError::ValidationError { reason }) => assert_eq!(reason, "Invalid version number"),
        _ => panic!("expected a rejected version"),
    }
    assert!(rm.pending_updates().is_empty());
}

#[test]
fn federated_round_refusals() {
    let mut rm: ReplicationManager<Vec<f32>> = ReplicationManager::new(10, 10);
    assert!(matches!(rm.begin_round(), Ok(None)));
    match rm.receive_model_update(update(1, 0, "a")) {
        Err(ShardError::ValidationError { reason }) => assert_eq!(reason, "Empty weights not allowed"),
        _ => panic!("expected empty weights to be refused"),
    }
    rm.receive_model_update(update(1, 3, "a")).unwrap();
    rm.receive_model_update(update(2, 4, "b")).unwrap();
    assert!(matches!(
        rm.begin_round(),
        Err(ShardError::DimensionMismatch { left: 3, right: 4 })
    ));
    let mut top: ReplicationManager<u8> = ReplicationManager::new(10, 10);
    top.receive_model_update(Submission {
        version: u32::MAX,
        weights_len: 1,
        samples_count: 1,
        contributor: "z".to_string(),
        timestamp: 0,
        payload: 0,
    })
    .unwrap();
    assert!(matches!(top.begin_round(), Err(ShardError::ValidationError { .. })));
}

#[test]
fn commit_keeps_updates_that_arrived_during_the_round() {
    let mut rm: ReplicationManager<u8> = ReplicationManager::new(10, 10);
    rm.start(Some(1));
    assert_eq!(rm.current_version(), Some(1));
    let mk = |v: u32| Submission {
        version: v,
        weights_len: 2,
        samples_count: 1,
        contributor: format!("p{}", v),
        timestamp: 0,
        payload: 0u8,
    };
    rm.receive_model_update(mk(2)).unwrap();
    let plan = rm.begin_round().unwrap().unwrap();
    rm.receive_model_update(mk(3)).unwrap();
    rm.commit_round(&plan);
    assert_eq!(rm.current_version(), Some(3));
    assert_eq!(rm.pending_updates().len(), 1);
    assert_eq!(rm.pending_updates()[0].version, 3);
    rm.sync_state(None);
    assert_eq!(rm.current_version(), Some(3));
    rm.stop();
}

#[test]
fn budget_test_test_structure_documented() {
    assert!(true, "Test structure documented");
}

#[test]
fn memory_test_test_structure_documented() {
    assert!(true, "Test structure documented");
}

#[test]
fn federated_round_takes_at_most_the_cap() {
    let mut rm: ReplicationManager<Vec<f32>> = ReplicationManager::new(10, 2);
    for (v, who) in [(1, "a"), (5, "b"), (9, "c")] {
        rm.receive_model_update(update(v, 2, who)).unwrap();
    }
    let plan = rm.begin_round().unwrap().unwrap();
    assert_eq!(plan.participants, vec!["a".to_string(), "b".to_string()]);
    assert_eq!(plan.version, 6);
    rm.commit_round(&plan);
    assert_eq!(rm.pending_updates().len(), 1);
    let mut none: ReplicationManager<u8> = ReplicationManager::new(10, 0);
    none.receive_model_update(Submission {
        version: 1,
        weights_len: 1,
        samples_count: 1,
        contributor: "z".to_string(),
        timestamp: 0,
        payload: 0,
    })
    .unwrap();
    assert!(matches!(none.begin_round(), Ok(None)));
}
