use amazon_rose_forest::error::ShardError;
use amazon_rose_forest::migration::{MigrationPlan, MigrationStatus, ShardStatus};
use amazon_rose_forest::shard::{ShardConfig, ShardManager};

fn config(max: usize) -> ShardConfig {
    ShardConfig {
        dimensions: 2,
        max_shard_size: max,
        min_shard_size: 1,
        hilbert_order: 10,
        sync_timeout_ms: 5000,
        merge_interval_ms: 10000,
    }
}

#[test]
fn migration_plan_moves_forward_only() {
    let mut plan: MigrationPlan<u32, u32> =
        MigrationPlan::new("s".to_string(), "t".to_string(), vec![1, 2, 3, 4, 5], vec![]);
    assert_eq!(plan.id.len(), 21);
    assert!(plan.id.chars().all(|c| c.is_ascii_alphanumeric() || c == '_' || c == '-'));
    assert!(matches!(plan.status, MigrationStatus::Pending));
    plan.update_progress(5);
    assert!(matches!(plan.status, MigrationStatus::InProgress { completed: 5, total: 5 }));
    plan.complete(4, 1);
    assert!(matches!(plan.status, MigrationStatus::Completed { success_count: 4, failure_count: 1 }));
    plan.update_progress(1);
    plan.fail("late".to_string());
    assert!(matches!(plan.status, MigrationStatus::Completed { success_count: 4, failure_count: 1 }));
}

#[test]
fn migration_plan_fail_and_staleness() {
    let mut plan: MigrationPlan<u32, u32> =
        MigrationPlan::with_id("p".to_string(), "s".to_string(), "t".to_string(), vec![], vec![], 1_000);
    assert!(!plan.is_stale_at(100, 1_100));
    assert!(plan.is_stale_at(100, 1_101));
    assert!(!plan.is_stale_at(0, 999));
    plan.fail_at("disk".to_string(), 2_000);
    assert!(matches!(&plan.status, MigrationStatus::Failed { error } if error == "disk"));
    assert_eq!(plan.updated_at, 2_000);
    plan.complete_at(1, 0, 3_000);
    assert!(matches!(plan.status, MigrationStatus::Failed { .. }));
    assert_eq!(plan.updated_at, 2_000);
}

#[test]
fn shard_status_tracks_migrations() {
    let mut st: ShardStatus<u8> = ShardStatus::new("a".to_string(), vec![7]);
    assert_eq!(st.vector_count, 0);
    st.add_migration("m1".to_string(), "b".to_string());
    assert_eq!(st.migration_target("m1"), Some(&"b".to_string()));
    assert_eq!(st.migration_ids(), vec!["m1".to_string()]);
    st.remove_migration("m1");
    assert_eq!(st.migration_target("m1"), None);
    st.update_vector_count(9);
    st.update_centroids(vec![1, 2]);
    assert_eq!(st.vector_count, 9);
    assert_eq!(st.centroids, vec![1, 2]);
}

#[test]
fn shard_split_moves_second_group_and_conserves_count() {
    let mut mgr: ShardManager<u32> = ShardManager::new(config(4));
    let mut source = ShardStatus::new("s1".to_string(), vec![]);
    source.update_vector_count(4);
    mgr.register_shard(source);
    let points = vec![("v1", [0, 0]), ("v2", [5, 0]), ("v3", [1, 0]), ("v4", [9, 0])];
    let moving = mgr.select_migrating_vectors("s1", &points).unwrap();
    assert_eq!(moving, vec!["v2", "v4"]);
    let mut plan = mgr.prepare_migration_plan("s1", moving, vec![42]);
    assert!(plan.target_shard.starts_with("s1_split_"));
    assert_eq!(plan.target_shard.len(), "s1_split_".len() + 8);
    let target = plan.target_shard.clone();
    mgr.execute_migration(&mut plan, &[true, false]);
    assert!(matches!(plan.status, MigrationStatus::Completed { success_count: 1, failure_count: 1 }));
    let s = mgr.shard_status("s1").unwrap();
    let t = mgr.shard_status(&target).unwrap();
    assert_eq!(s.vector_count, 3);
    assert_eq!(t.vector_count, 1);
    assert_eq!(s.vector_count + t.vector_count, 4);
    assert_eq!(t.centroids, vec![42]);
    assert!(s.migration_ids().is_empty());
}

#[test]
fn shard_split_refusals() {
    let mut mgr: ShardManager<u32> = ShardManager::new(config(3));
    let points = vec![(1u8, [0, 0]), (2u8, [1, 1]), (3u8, [2, 2])];
    match mgr.select_migrating_vectors("missing", &points) {
        Err(ShardError::MigrationFailed { context, cause }) => {
            assert_eq!(context, "Shard missing not found");
            assert_eq!(cause, "Shard not found");
        }
        _ => panic!("expected a missing shard"),
    }
    let mut small = ShardStatus::new("small".to_string(), vec![]);
    small.update_vector_count(2);
    mgr.register_shard(small);
    match mgr.select_migrating_vectors("small", &points) {
        Err(ShardError::MigrationFailed { context, cause }) => {
            assert_eq!(context, "Shard small does not need splitting, size: 2");
            assert_eq!(cause, "Shard too small");
        }
        _ => panic!("expected a small shard"),
    }
    let mut full = ShardStatus::new("full".to_string(), vec![]);
    full.update_vector_count(3);
    mgr.register_shard(full);
    match mgr.select_migrating_vectors("full", &points[..1]) {
        Err(ShardError::MigrationFailed { cause, .. }) => assert_eq!(cause, "Partitioning failed"),
        _ => panic!("expected a failed partition"),
    }
    assert!(mgr.select_migrating_vectors("full", &points).is_ok());
}

#[test]
fn sync_shards_lists_active_migrations() {
    let mut mgr: ShardManager<u32> = ShardManager::new(config(3));
    let mut st = ShardStatus::new("a".to_string(), vec![]);
    st.add_migration("m".to_string(), "b".to_string());
    mgr.register_shard(st);
    let found = mgr.sync_shards_at(0).unwrap();
    assert_eq!(found, vec![("a".to_string(), "m".to_string())]);
    assert!(mgr.sync_shards().is_ok());
}

#[test]
fn sync_shards_lists_every_migration_of_every_shard() {
    let mut mgr: ShardManager<u32> = ShardManager::new(config(3));
    let mut a = ShardStatus::new("a".to_string(), vec![]);
    a.add_migration("m1".to_string(), "x".to_string());
    a.add_migration("m2".to_string(), "y".to_string());
    let mut b = ShardStatus::new("b".to_string(), vec![]);
    b.add_migration("m3".to_string(), "z".to_string());
    mgr.register_shard(a);
    mgr.register_shard(b);
    mgr.register_shard(ShardStatus::new("c".to_string(), vec![]));
    let mut found = mgr.sync_shards_at(0).unwrap();
    found.sort();
    assert_eq!(
        found,
        vec![
            ("a".to_string(), "m1".to_string()),
            ("a".to_string(), "m2".to_string()),
            ("b".to_string(), "m3".to_string()),
        ]
    );
}

#[test]
fn partition_failure_names_the_shard() {
    let mut mgr: ShardManager<u32> = ShardManager::new(config(1));
    let mut s = ShardStatus::new("solo".to_string(), vec![]);
    s.update_vector_count(1);
    mgr.register_shard(s);
    match mgr.select_migrating_vectors("solo", &[(1u8, [0, 0])]) {
        Err(ShardError::MigrationFailed { context, .. }) => assert_eq!(context, "Failed to partition shard solo"),
        _ => panic!("expected a failed partition"),
    }
}
