//! Plans that move a set of vectors from one shard to another, and the status
//! that each shard keeps.

use vstd::prelude::*;
use crate::clock::now_millis;
use crate::ids::{is_id_char, random_id};
use crate::table::KeyedTable;

verus! {

#[derive(Clone, Debug)]
pub enum MigrationStatus {
    Pending,
    InProgress { completed: usize, total: usize },
    Completed { success_count: usize, failure_count: usize },
    Failed { error: String },
}

/// Position of a status along the one-way path Pending, InProgress, then
/// Completed or Failed.
pub open spec fn stage(s: MigrationStatus) -> nat {
    match s {
        MigrationStatus::Pending => 0,
        MigrationStatus::InProgress { .. } => 1,
        _ => 2,
    }
}

/// Completed and Failed are final.
pub open spec fn is_terminal(s: MigrationStatus) -> bool {
    stage(s) == 2
}

/// A transition requested of a plan.
pub enum PlanStep {
    Progress { completed: usize },
    Complete { success_count: usize, failure_count: usize },
    Fail { error: String },
}

/// Status after `step` on a plan of `total` vectors: final statuses stay put.
pub open spec fn step_status(s: MigrationStatus, total: usize, step: PlanStep) -> MigrationStatus {
    if is_terminal(s) {
        s
    } else {
        match step {
            PlanStep::Progress { completed } => MigrationStatus::InProgress { completed, total },
            PlanStep::Complete { success_count, failure_count } => MigrationStatus::Completed {
                success_count,
                failure_count,
            },
            PlanStep::Fail { error } => MigrationStatus::Failed { error },
        }
    }
}

/// Status after the steps in order.
pub open spec fn run_steps(s: MigrationStatus, total: usize, steps: Seq<PlanStep>) -> MigrationStatus
    decreases steps.len(),
{
    if steps.len() == 0 {
        s
    } else {
        step_status(run_steps(s, total, steps.drop_last()), total, steps.last())
    }
}

/// Status never moves backwards along Pending, InProgress, Completed/Failed: a
/// plan that has left Pending never returns to it, and a finished or failed plan
/// keeps its status whatever is requested of it afterwards.
pub proof fn lemma_status_one_way(s: MigrationStatus, total: usize, steps: Seq<PlanStep>)
    ensures
        stage(run_steps(s, total, steps)) >= stage(s),
        steps.len() > 0 ==> !(run_steps(s, total, steps) is Pending),
        is_terminal(s) ==> run_steps(s, total, steps) == s,
    decreases steps.len(),
{
    if steps.len() > 0 {
        lemma_status_one_way(s, total, steps.drop_last());
    }
}

/// A move of `vectors` (with `centroids` describing them) from `source_shard` to
/// `target_shard`. Times are milliseconds.
pub struct MigrationPlan<V, C> {
    pub id: String,
    pub source_shard: String,
    pub target_shard: String,
    pub vectors: Vec<V>,
    pub centroids: Vec<C>,
    pub status: MigrationStatus,
    pub created_at: u64,
    pub updated_at: u64,
}

impl<V, C> MigrationPlan<V, C> {
    /// A pending plan with a fresh 21-character identifier, created now.
    pub fn new(source_shard: String, target_shard: String, vectors: Vec<V>, centroids: Vec<C>) -> (r: Self)
        ensures
            r.id@.len() == 21,
            forall|i: int| 0 <= i < r.id@.len() ==> is_id_char(#[trigger] r.id@[i]),
            r.source_shard == source_shard,
            r.target_shard == target_shard,
            r.vectors == vectors,
            r.centroids == centroids,
            r.status is Pending,
            r.created_at == r.updated_at,
    {
        let now = now_millis();
        Self::with_id(random_id(21), source_shard, target_shard, vectors, centroids, now)
    }

    /// A pending plan with the given identifier, created at `now`.
    pub fn with_id(
        id: String,
        source_shard: String,
        target_shard: String,
        vectors: Vec<V>,
        centroids: Vec<C>,
        now: u64,
    ) -> (r: Self)
        ensures
            r.id == id,
            r.source_shard == source_shard,
            r.target_shard == target_shard,
            r.vectors == vectors,
            r.centroids == centroids,
            r.status is Pending,
            r.created_at == now,
            r.updated_at == now,
    {
        MigrationPlan {
            id,
            source_shard,
            target_shard,
            vectors,
            centroids,
            status: MigrationStatus::Pending,
            created_at: now,
            updated_at: now,
        }
    }

    /// Records that `completed` of the plan's vectors have moved, at time `now`.
    /// A finished or failed plan stays as it is.
    pub fn update_progress_at(&mut self, completed: usize, now: u64)
        ensures
            final(self).status == step_status(
                old(self).status,
                old(self).vectors@.len() as usize,
                PlanStep::Progress { completed },
            ),
            final(self).id == old(self).id,
            final(self).source_shard == old(self).source_shard,
            final(self).target_shard == old(self).target_shard,
            final(self).vectors == old(self).vectors,
            final(self).centroids == old(self).centroids,
            final(self).created_at == old(self).created_at,
            is_terminal(old(self).status) ==> final(self).status == old(self).status
                && final(self).updated_at == old(self).updated_at,
            !is_terminal(old(self).status) ==> final(self).status == (MigrationStatus::InProgress {
                completed,
                total: old(self).vectors@.len() as usize,
            }) && final(self).updated_at == now,
    {
        match self.status {
            MigrationStatus::Completed { .. } | MigrationStatus::Failed { .. } => {},
            _ => {
                self.status = MigrationStatus::InProgress { completed, total: self.vectors.len() };
                self.updated_at = now;
            },
        }
    }

    /// Records progress now.
    pub fn update_progress(&mut self, completed: usize)
        ensures
            final(self).created_at == old(self).created_at,
            final(self).id == old(self).id,
            final(self).vectors == old(self).vectors,
            final(self).centroids == old(self).centroids,
            final(self).source_shard == old(self).source_shard,
            final(self).target_shard == old(self).target_shard,
            is_terminal(old(self).status) ==> final(self).status == old(self).status,
            !is_terminal(old(self).status) ==> final(self).status == (MigrationStatus::InProgress {
                completed,
                total: old(self).vectors@.len() as usize,
            }),
    {
        self.update_progress_at(completed, now_millis());
    }

    /// Marks the plan finished with the tallies given, at time `now`. A finished or
    /// failed plan stays as it is.
    pub fn complete_at(&mut self, success_count: usize, failure_count: usize, now: u64)
        ensures
            final(self).status == step_status(
                old(self).status,
                old(self).vectors@.len() as usize,
                PlanStep::Complete { success_count, failure_count },
            ),
            final(self).id == old(self).id,
            final(self).source_shard == old(self).source_shard,
            final(self).target_shard == old(self).target_shard,
            final(self).vectors == old(self).vectors,
            final(self).centroids == old(self).centroids,
            final(self).created_at == old(self).created_at,
            is_terminal(old(self).status) ==> final(self).status == old(self).status
                && final(self).updated_at == old(self).updated_at,
            !is_terminal(old(self).status) ==> final(self).status == (MigrationStatus::Completed {
                success_count,
                failure_count,
            }) && final(self).updated_at == now,
    {
        match self.status {
            MigrationStatus::Completed { .. } | MigrationStatus::Failed { .. } => {},
            _ => {
                self.status = MigrationStatus::Completed { success_count, failure_count };
                self.updated_at = now;
            },
        }
    }

    /// Marks the plan finished now.
    pub fn complete(&mut self, success_count: usize, failure_count: usize)
        ensures
            final(self).created_at == old(self).created_at,
            final(self).id == old(self).id,
            final(self).vectors == old(self).vectors,
            final(self).centroids == old(self).centroids,
            final(self).source_shard == old(self).source_shard,
            final(self).target_shard == old(self).target_shard,
            is_terminal(old(self).status) ==> final(self).status == old(self).status,
            !is_terminal(old(self).status) ==> final(self).status == (MigrationStatus::Completed {
                success_count,
                failure_count,
            }),
    {
        self.complete_at(success_count, failure_count, now_millis());
    }

    /// Marks the plan failed with `error`, at time `now`. A finished or failed plan
    /// stays as it is.
    pub fn fail_at(&mut self, error: String, now: u64)
        ensures
            final(self).status == step_status(old(self).status, old(self).vectors@.len() as usize, PlanStep::Fail { error }),
            final(self).id == old(self).id,
            final(self).source_shard == old(self).source_shard,
            final(self).target_shard == old(self).target_shard,
            final(self).vectors == old(self).vectors,
            final(self).centroids == old(self).centroids,
            final(self).created_at == old(self).created_at,
            is_terminal(old(self).status) ==> final(self).status == old(self).status
                && final(self).updated_at == old(self).updated_at,
            !is_terminal(old(self).status) ==> final(self).status == (MigrationStatus::Failed { error })
                && final(self).updated_at == now,
    {
        match self.status {
            MigrationStatus::Completed { .. } | MigrationStatus::Failed { .. } => {},
            _ => {
                self.status = MigrationStatus::Failed { error };
                self.updated_at = now;
            },
        }
    }

    /// Marks the plan failed now.
    pub fn fail(&mut self, error: String)
        ensures
            final(self).created_at == old(self).created_at,
            final(self).id == old(self).id,
            final(self).vectors == old(self).vectors,
            final(self).centroids == old(self).centroids,
            final(self).source_shard == old(self).source_shard,
            final(self).target_shard == old(self).target_shard,
            is_terminal(old(self).status) ==> final(self).status == old(self).status,
            !is_terminal(old(self).status) ==> final(self).status == (MigrationStatus::Failed { error }),
    {
        self.fail_at(error, now_millis());
    }

    /// Whether more than `timeout_millis` have passed between the last update and
    /// `now` (a clock that reads earlier than the update counts as no time).
    pub fn is_stale_at(&self, timeout_millis: u64, now: u64) -> (r: bool)
        ensures
            r == (now > self.updated_at && now - self.updated_at > timeout_millis),
    {
        now.saturating_sub(self.updated_at) > timeout_millis
    }

    /// Whether the plan has gone without update for more than `timeout_millis`.
    pub fn is_stale(&self, timeout_millis: u64) -> (r: bool)
        ensures
            r ==> self.updated_at < u64::MAX - timeout_millis,
    {
        self.is_stale_at(timeout_millis, now_millis())
    }
}

/// Bookkeeping of one shard: its size, centroids, and the migrations that leave it
/// (migration id to target shard id).
pub struct ShardStatus<C> {
    pub id: String,
    pub vector_count: usize,
    pub centroids: Vec<C>,
    pub last_update: u64,
    pub active_migrations: KeyedTable<String>,
}

impl<C> ShardStatus<C> {
    pub open spec fn wf(&self) -> bool {
        self.active_migrations.wf()
    }

    /// Target shard id by migration id.
    pub open spec fn migrations(&self) -> Map<Seq<char>, String> {
        self.active_migrations@
    }

    /// An empty shard with no migration under way, created at `now`.
    pub fn with_time(id: String, centroids: Vec<C>, now: u64) -> (r: Self)
        ensures
            r.wf(),
            r.id == id,
            r.vector_count == 0,
            r.centroids == centroids,
            r.last_update == now,
            r.migrations() == Map::<Seq<char>, String>::empty(),
    {
        ShardStatus { id, vector_count: 0, centroids, last_update: now, active_migrations: KeyedTable::new() }
    }

    /// An empty shard with no migration under way, created now.
    pub fn new(id: String, centroids: Vec<C>) -> (r: Self)
        ensures
            r.wf(),
            r.id == id,
            r.vector_count == 0,
            r.centroids == centroids,
            r.migrations() == Map::<Seq<char>, String>::empty(),
    {
        Self::with_time(id, centroids, now_millis())
    }

    pub fn add_migration(&mut self, migration_id: String, target_shard: String)
        requires
            old(self).wf(),
        ensures
            final(self).wf(),
            final(self).migrations() == old(self).migrations().insert(migration_id@, target_shard),
            final(self).id == old(self).id,
            final(self).vector_count == old(self).vector_count,
            final(self).centroids == old(self).centroids,
    {
        self.active_migrations.insert(migration_id, target_shard);
        self.last_update = now_millis();
    }

    pub fn remove_migration(&mut self, migration_id: &str)
        requires
            old(self).wf(),
        ensures
            final(self).wf(),
            final(self).migrations() == old(self).migrations().remove(migration_id@),
            final(self).id == old(self).id,
            final(self).vector_count == old(self).vector_count,
            final(self).centroids == old(self).centroids,
    {
        self.active_migrations.remove(migration_id);
        self.last_update = now_millis();
    }

    pub fn update_vector_count(&mut self, count: usize)
        ensures
            final(self).vector_count == count,
            final(self).id == old(self).id,
            final(self).centroids == old(self).centroids,
            final(self).migrations() == old(self).migrations(),
            final(self).wf() == old(self).wf(),
    {
        self.vector_count = count;
        self.last_update = now_millis();
    }

    pub fn update_centroids(&mut self, centroids: Vec<C>)
        ensures
            final(self).centroids == centroids,
            final(self).id == old(self).id,
            final(self).vector_count == old(self).vector_count,
            final(self).migrations() == old(self).migrations(),
            final(self).wf() == old(self).wf(),
    {
        self.centroids = centroids;
        self.last_update = now_millis();
    }

    /// Target shard of an active migration.
    pub fn migration_target(&self, migration_id: &str) -> (r: Option<&String>)
        requires
            self.wf(),
        ensures
            r == if self.migrations().contains_key(migration_id@) {
                Some(&self.migrations()[migration_id@])
            } else {
                None::<&String>
            },
    {
        self.active_migrations.get(migration_id)
    }

    /// Ids of the active migrations.
    pub fn migration_ids(&self) -> (r: Vec<String>)
        requires
            self.wf(),
        ensures
            forall|k: Seq<char>| #[trigger] self.migrations().contains_key(k) <==> exists|i: int| 0 <= i < r@.len() && r@[i]@ == k,
    {
        self.active_migrations.keys()
    }
}

} // verus!
