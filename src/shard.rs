//! Shard bookkeeping: when a shard splits, which vectors leave it, and how the
//! counts of both shards change once they have moved.

use vstd::prelude::*;
use vstd::string::StringExecFns;
use crate::circuit_breaker::{allow_step, CircuitBreaker};
use crate::clock::now_millis;
use crate::error::{migration_failed_with, ShardError};
use crate::hilbert::{chunked, group_size, is_stable_order, curve_keys, HilbertCurve};
use crate::ids::{is_id_char, random_id};
use crate::migration::{is_terminal, MigrationPlan, MigrationStatus, ShardStatus};
use crate::table::KeyedTable;
use crate::text::{decimal, decimal_string};

verus! {

#[derive(Clone, Copy, Debug, PartialEq, Eq, Structural)]
pub struct ShardConfig {
    pub dimensions: u32,
    pub max_shard_size: usize,
    pub min_shard_size: usize,
    pub hilbert_order: u32,
    pub sync_timeout_ms: u64,
    pub merge_interval_ms: u64,
}

/// Number of `true` entries.
pub open spec fn count_true(s: Seq<bool>) -> nat
    decreases s.len(),
{
    if s.len() == 0 {
        0
    } else {
        count_true(s.drop_last()) + if s.last() { 1nat } else { 0nat }
    }
}

proof fn lemma_count_true_bound(s: Seq<bool>)
    ensures
        count_true(s) <= s.len(),
    decreases s.len(),
{
    if s.len() > 0 {
        lemma_count_true_bound(s.drop_last());
    }
}

/// `found` holds the pair (shard `s`, migration `m`).
pub open spec fn lists_pair(found: Seq<(String, String)>, s: Seq<char>, m: Seq<char>) -> bool {
    exists|j: int| 0 <= j < found.len() && found[j].0@ == s && found[j].1@ == m
}

/// `found` lists exactly the active migrations of the shards in `statuses`.
pub open spec fn lists_migrations<C>(statuses: Map<Seq<char>, ShardStatus<C>>, found: Seq<(String, String)>) -> bool {
    &&& forall|j: int|
        0 <= j < found.len() ==> statuses.contains_key((#[trigger] found[j]).0@) && statuses[found[j].0@].migrations().contains_key(
            found[j].1@,
        )
    &&& forall|s: Seq<char>, m: Seq<char>|
        statuses.contains_key(s) && #[trigger] statuses[s].migrations().contains_key(m) ==> lists_pair(found, s, m)
}

pub struct ShardManager<C> {
    config: ShardConfig,
    circuit_breaker: CircuitBreaker,
    hilbert_curve: HilbertCurve,
    shard_statuses: KeyedTable<ShardStatus<C>>,
}

impl<C: Clone> ShardManager<C> {
    /// Status of each known shard, by shard id.
    pub closed spec fn statuses(&self) -> Map<Seq<char>, ShardStatus<C>> {
        self.shard_statuses@
    }

    pub closed spec fn spec_config(&self) -> ShardConfig {
        self.config
    }

    pub closed spec fn breaker(&self) -> CircuitBreaker {
        self.circuit_breaker
    }

    pub closed spec fn wf(&self) -> bool {
        &&& self.shard_statuses.wf()
        &&& self.hilbert_curve.wf()
        &&& self.hilbert_curve.spec_dimensions() == self.config.dimensions
        &&& self.hilbert_curve.spec_order() == self.config.hilbert_order
        &&& forall|k: Seq<char>| #[trigger] self.shard_statuses@.contains_key(k) ==> self.shard_statuses@[k].wf()
    }

    pub fn new(config: ShardConfig) -> (r: Self)
        requires
            config.dimensions >= 1,
            config.hilbert_order <= 31,
        ensures
            r.wf(),
            r.spec_config() == config,
            r.statuses() == Map::<Seq<char>, ShardStatus<C>>::empty(),
    {
        ShardManager {
            hilbert_curve: HilbertCurve::new(config.dimensions, config.hilbert_order),
            config,
            circuit_breaker: CircuitBreaker::new(),
            shard_statuses: KeyedTable::new(),
        }
    }

    pub fn config(&self) -> (r: ShardConfig)
        ensures
            r == self.spec_config(),
    {
        self.config
    }

    /// Starts tracking `status` under its id, replacing an earlier status.
    pub fn register_shard(&mut self, status: ShardStatus<C>)
        requires
            old(self).wf(),
            status.wf(),
        ensures
            final(self).wf(),
            final(self).spec_config() == old(self).spec_config(),
            final(self).statuses() == old(self).statuses().insert(status.id@, status),
    {
        let id = status.id.clone();
        self.shard_statuses.insert(id, status);
    }

    pub fn shard_status(&self, shard_id: &str) -> (r: Option<&ShardStatus<C>>)
        requires
            self.wf(),
        ensures
            r == if self.statuses().contains_key(shard_id@) {
                Some(&self.statuses()[shard_id@])
            } else {
                None::<&ShardStatus<C>>
            },
    {
        self.shard_statuses.get(shard_id)
    }

    /// Asks the manager's circuit breaker whether shared state may be touched now.
    pub fn allow_operation(&mut self) -> (r: bool)
        requires
            old(self).wf(),
        ensures
            final(self).wf(),
            final(self).statuses() == old(self).statuses(),
            final(self).spec_config() == old(self).spec_config(),
            final(self).breaker().spec_config() == old(self).breaker().spec_config(),
            exists|now: u64|
                (r, final(self).breaker().spec_state()) == allow_step(
                    old(self).breaker().spec_state(),
                    old(self).breaker().spec_config(),
                    now,
                ),
    {
        self.circuit_breaker.allow_operation()
    }

    /// The vectors that leave `shard_id` when it splits: the points are partitioned
    /// along the curve and the second group moves. Fails when the shard is unknown,
    /// holds fewer than `max_shard_size` vectors, or the points give fewer than two
    /// groups.
    pub fn select_migrating_vectors<V: Clone>(&self, shard_id: &str, vector_points: &[(V, [u32; 2])]) -> (r: Result<Vec<V>, ShardError>)
        requires
            self.wf(),
        ensures
            !self.statuses().contains_key(shard_id@) ==> migration_failed_with(r, "Shard "@ + shard_id@ + " not found"@, "Shard not found"@),
            self.statuses().contains_key(shard_id@) && self.statuses()[shard_id@].vector_count < self.spec_config().max_shard_size
                ==> migration_failed_with(
                    r,
                    "Shard "@ + shard_id@ + " does not need splitting, size: "@ + decimal(self.statuses()[shard_id@].vector_count as nat),
                    "Shard too small"@,
                ),
            self.statuses().contains_key(shard_id@) && self.statuses()[shard_id@].vector_count >= self.spec_config().max_shard_size ==> {
                let n = vector_points@.len();
                let size = group_size(n as nat, self.spec_config().dimensions as nat);
                &&& (n == 0 || size >= n) ==> migration_failed_with(r, "Failed to partition shard "@ + shard_id@, "Partitioning failed"@)
                &&& (n > 0 && size < n) ==> r is Ok && 1 <= r->Ok_0@.len() < n && exists|ord: Seq<usize>|
                    is_stable_order(curve_keys(vector_points@, self.spec_config().hilbert_order), ord)
                    && forall|k: int| 0 <= k < r->Ok_0@.len() ==> cloned(
                        vector_points@[ord[size + k] as int].0,
                        #[trigger] r->Ok_0@[k],
                    )
            },
    {
        proof {
            reveal_strlit("Shard not found");
            reveal_strlit("Shard too small");
            reveal_strlit("Partitioning failed");
        }
        let count = match self.shard_statuses.get(shard_id) {
            Some(status) => status.vector_count,
            None => {
                let mut context = "Shard ".to_owned();
                context.append(shard_id);
                context.append(" not found");
                return Err(ShardError::MigrationFailed { context, cause: "Shard not found".to_owned() });
            },
        };
        if count < self.config.max_shard_size {
            let mut context = "Shard ".to_owned();
            context.append(shard_id);
            context.append(" does not need splitting, size: ");
            let size_text = decimal_string(count);
            context.append(size_text.as_str());
            return Err(ShardError::MigrationFailed { context, cause: "Shard too small".to_owned() });
        }
        let mut partitions = self.hilbert_curve.partition(vector_points);
        let ghost n = vector_points@.len();
        let ghost size = group_size(n as nat, self.config.dimensions as nat);
        proof {
            if n > 0 {
                let ord = choose|ord: Seq<usize>|
                    is_stable_order(curve_keys(vector_points@, self.config.hilbert_order), ord) && chunked(partitions@, vector_points@, ord, size);
                assert(size >= 1) by (nonlinear_arith)
                    requires
                        n >= 1,
                        self.config.dimensions >= 1,
                        size == ((n + self.config.dimensions - 1) as nat / self.config.dimensions as nat) as nat,
                ;
                if size >= n {
                    assert(partitions@.len() <= 1) by (nonlinear_arith)
                        requires
                            partitions@.len() > 0 ==> (partitions@.len() - 1) * size < n,
                            size >= n,
                    ;
                } else {
                    assert(partitions@.len() >= 2) by (nonlinear_arith)
                        requires
                            partitions@.len() * size >= n,
                            size < n,
                    ;
                }
            }
        }
        if partitions.len() < 2 {
            let mut context = "Failed to partition shard ".to_owned();
            context.append(shard_id);
            return Err(ShardError::MigrationFailed { context, cause: "Partitioning failed".to_owned() });
        }
        proof {
            let ord = choose|ord: Seq<usize>|
                is_stable_order(curve_keys(vector_points@, self.config.hilbert_order), ord) && chunked(partitions@, vector_points@, ord, size);
            assert(1 * size == size);
            assert(partitions@[1]@.len() >= 1 && partitions@[1]@.len() <= n - size) by (nonlinear_arith)
                requires
                    partitions@[1]@.len() == if (1 + 1) * size <= n { size as int } else { n - 1 * size },
                    size >= 1,
                    1 * size < n,
            ;
            assert(forall|k: int| 0 <= k < partitions@[1]@.len() ==> cloned(
                vector_points@[ord[1 * size + k] as int].0,
                #[trigger] partitions@[1]@[k],
            ));
        }
        let group = partitions.swap_remove(1);
        Ok(group)
    }

    /// A pending plan that moves `vectors` out of `shard_id` into a new shard whose
    /// id is `shard_id` followed by `_split_` and 8 random characters.
    pub fn prepare_migration_plan<V>(&self, shard_id: &str, vectors: Vec<V>, centroids: Vec<C>) -> (r: MigrationPlan<V, C>)
        ensures
            r.source_shard@ == shard_id@,
            r.target_shard@.len() == shard_id@.len() + 15,
            r.target_shard@.subrange(0, shard_id@.len() as int + 7) == shard_id@ + "_split_"@,
            forall|i: int| shard_id@.len() + 7 <= i < r.target_shard@.len() ==> is_id_char(#[trigger] r.target_shard@[i]),
            r.vectors == vectors,
            r.centroids == centroids,
            r.status is Pending,
    {
        proof {
            reveal_strlit("_split_");
        }
        let mut target = shard_id.to_owned();
        target.append("_split_");
        let suffix = random_id(8);
        target.append(suffix.as_str());
        assert(target@.subrange(0, shard_id@.len() as int + 7) =~= shard_id@ + "_split_"@);
        MigrationPlan::new(shard_id.to_owned(), target, vectors, centroids)
    }
    /// Bookkeeping of a migration whose vectors have been handed over, one outcome
    /// per vector (`true`: it moved). The source shard records the migration while
    /// it runs and loses the moved vectors; the target shard is created with the
    /// plan's centroids and holds the moved vectors; the plan ends Completed with
    /// the tallies. Failed vectors stay counted in the source.
    pub fn execute_migration<V>(&mut self, plan: &mut MigrationPlan<V, C>, outcomes: &[bool])
        requires
            old(self).wf(),
            outcomes@.len() == old(plan).vectors@.len(),
            !is_terminal(old(plan).status),
            old(plan).source_shard@ != old(plan).target_shard@,
        ensures
            final(self).wf(),
            final(self).spec_config() == old(self).spec_config(),
            final(plan).id == old(plan).id,
            final(plan).source_shard == old(plan).source_shard,
            final(plan).target_shard == old(plan).target_shard,
            final(plan).vectors == old(plan).vectors,
            final(plan).centroids == old(plan).centroids,
            final(plan).status == (MigrationStatus::Completed {
                success_count: count_true(outcomes@) as usize,
                failure_count: (outcomes@.len() - count_true(outcomes@)) as usize,
            }),
            final(self).statuses().contains_key(old(plan).target_shard@),
            final(self).statuses()[old(plan).target_shard@].vector_count == count_true(outcomes@),
            final(self).statuses()[old(plan).target_shard@].id == old(plan).target_shard,
            final(self).statuses()[old(plan).target_shard@].migrations() == Map::<Seq<char>, String>::empty(),
            final(self).statuses()[old(plan).target_shard@].centroids@.len() == old(plan).centroids@.len(),
            forall|i: int|
                0 <= i < old(plan).centroids@.len() ==> cloned(
                    old(plan).centroids@[i],
                    #[trigger] final(self).statuses()[old(plan).target_shard@].centroids@[i],
                ),
            old(self).statuses().contains_key(old(plan).source_shard@) ==> {
                let before = old(self).statuses()[old(plan).source_shard@];
                let after = final(self).statuses()[old(plan).source_shard@];
                let target = final(self).statuses()[old(plan).target_shard@];
                &&& final(self).statuses().contains_key(old(plan).source_shard@)
                &&& after.vector_count == if count_true(outcomes@) <= before.vector_count {
                    before.vector_count - count_true(outcomes@)
                } else {
                    0
                }
                &&& count_true(outcomes@) <= before.vector_count ==> after.vector_count + target.vector_count
                    == before.vector_count
                &&& after.migrations() == before.migrations().remove(old(plan).id@)
                &&& after.id == before.id
                &&& after.centroids == before.centroids
            },
            !old(self).statuses().contains_key(old(plan).source_shard@) ==> !final(self).statuses().contains_key(
                old(plan).source_shard@,
            ),
            forall|k: Seq<char>|
                k != old(plan).source_shard@ && k != old(plan).target_shard@ ==> (#[trigger] final(self).statuses().contains_key(k)
                    == old(self).statuses().contains_key(k) && (old(self).statuses().contains_key(k)
                    ==> final(self).statuses()[k] == old(self).statuses()[k])),
    {
        let source = plan.source_shard.clone();
        let target = plan.target_shard.clone();
        let pid = plan.id.clone();
        let had_source = self.shard_statuses.contains(source.as_str());
        if had_source {
            if let Some(mut st) = self.shard_statuses.remove(source.as_str()) {
                st.add_migration(pid.clone(), target.clone());
                self.shard_statuses.insert(source.clone(), st);
            }
        }
        let target_status = ShardStatus::new(target.clone(), plan.centroids.clone());
        self.shard_statuses.insert(target.clone(), target_status);
        plan.update_progress(0);
        let mut success: usize = 0;
        let mut failure: usize = 0;
        let mut i: usize = 0;
        while i < outcomes.len()
            invariant
                i <= outcomes@.len(),
                outcomes@.len() == plan.vectors@.len(),
                plan.vectors == old(plan).vectors,
                plan.centroids == old(plan).centroids,
                plan.id == old(plan).id,
                plan.source_shard == old(plan).source_shard,
                plan.target_shard == old(plan).target_shard,
                !is_terminal(plan.status),
                success == count_true(outcomes@.take(i as int)),
                success + failure == i,
            decreases outcomes@.len() - i,
        {
            proof {
                assert(outcomes@.take(i as int + 1).drop_last() =~= outcomes@.take(i as int));
                lemma_count_true_bound(outcomes@.take(i as int));
            }
            if outcomes[i] {
                success += 1;
            } else {
                failure += 1;
            }
            if (i + 1) % 10 == 0 {
                plan.update_progress(i + 1);
            }
            i += 1;
        }
        assert(outcomes@.take(i as int) =~= outcomes@);
        if had_source {
            if let Some(mut st) = self.shard_statuses.remove(source.as_str()) {
                let remaining = st.vector_count.saturating_sub(success);
                st.update_vector_count(remaining);
                st.remove_migration(pid.as_str());
                self.shard_statuses.insert(source.clone(), st);
            }
        }
        if let Some(mut st) = self.shard_statuses.remove(target.as_str()) {
            st.update_vector_count(success);
            self.shard_statuses.insert(target.clone(), st);
        }
        plan.complete(success, failure);
    }

    /// Active migrations of every shard, as (shard id, migration id) pairs, for an
    /// operator to inspect; refused when the circuit breaker is open at `now`.
    pub fn sync_shards_at(&mut self, now: u64) -> (r: Result<Vec<(String, String)>, ShardError>)
        requires
            old(self).wf(),
        ensures
            final(self).wf(),
            final(self).statuses() == old(self).statuses(),
            final(self).spec_config() == old(self).spec_config(),
            (r is Err) == !allow_step(old(self).breaker().spec_state(), old(self).breaker().spec_config(), now).0,
            r is Err ==> r matches Err(ShardError::CircuitBreakerOpen),
            r is Ok ==> lists_migrations(old(self).statuses(), r->Ok_0@),
    {
        if !self.circuit_breaker.allow_operation_at(now) {
            return Err(ShardError::CircuitBreakerOpen);
        }
        let shard_ids = self.shard_statuses.keys();
        let mut found: Vec<(String, String)> = Vec::new();
        let ghost mut done: Set<Seq<char>> = Set::empty();
        let mut i: usize = 0;
        while i < shard_ids.len()
            invariant
                self.wf(),
                self.statuses() == old(self).statuses(),
                i <= shard_ids@.len(),
                forall|k: Seq<char>| #[trigger] self.statuses().contains_key(k) <==> exists|j: int| 0 <= j < shard_ids@.len() && shard_ids@[j]@ == k,
                forall|j: int| 0 <= j < i ==> done.contains(#[trigger] shard_ids@[j]@),
                forall|j: int|
                    0 <= j < found@.len() ==> self.statuses().contains_key((#[trigger] found@[j]).0@)
                        && self.statuses()[found@[j].0@].migrations().contains_key(found@[j].1@),
                forall|s: Seq<char>, m: Seq<char>|
                    done.contains(s) && self.statuses().contains_key(s) && #[trigger] self.statuses()[s].migrations().contains_key(m)
                        ==> lists_pair(found@, s, m),
            decreases shard_ids@.len() - i,
        {
            let sid = &shard_ids[i];
            assert(self.statuses().contains_key(shard_ids@[i as int]@));
            if let Some(st) = self.shard_statuses.get(sid.as_str()) {
                let mids = st.migration_ids();
                let mut j: usize = 0;
                while j < mids.len()
                    invariant
                        self.wf(),
                        self.statuses() == old(self).statuses(),
                        self.statuses().contains_key(sid@),
                        *st == self.statuses()[sid@],
                        j <= mids@.len(),
                        forall|k: Seq<char>| #[trigger] st.migrations().contains_key(k) <==> exists|a: int| 0 <= a < mids@.len() && mids@[a]@ == k,
                        forall|a: int|
                            0 <= a < found@.len() ==> self.statuses().contains_key((#[trigger] found@[a]).0@)
                                && self.statuses()[found@[a].0@].migrations().contains_key(found@[a].1@),
                        forall|s: Seq<char>, m: Seq<char>|
                            done.contains(s) && self.statuses().contains_key(s) && #[trigger] self.statuses()[s].migrations().contains_key(m)
                                ==> lists_pair(found@, s, m),
                        forall|a: int| 0 <= a < j ==> lists_pair(found@, sid@, #[trigger] mids@[a]@),
                    decreases mids@.len() - j,
                {
                    assert(st.migrations().contains_key(mids@[j as int]@));
                    let ghost before = found@;
                    found.push((sid.clone(), mids[j].clone()));
                    proof {
                        assert forall|s: Seq<char>, m: Seq<char>| lists_pair(before, s, m) implies lists_pair(found@, s, m) by {
                            let w = choose|w: int| 0 <= w < before.len() && before[w].0@ == s && before[w].1@ == m;
                            assert(found@[w] == before[w]);
                        }
                        let n = before.len() as int;
                        assert(found@[n].0@ == sid@ && found@[n].1@ == mids@[j as int]@);
                        assert(lists_pair(found@, sid@, mids@[j as int]@));
                        assert forall|a: int| 0 <= a < found@.len() implies self.statuses().contains_key((#[trigger] found@[a]).0@)
                            && self.statuses()[found@[a].0@].migrations().contains_key(found@[a].1@) by {
                            if a < n {
                                assert(found@[a] == before[a]);
                            }
                        }
                    }
                    j += 1;
                }
                proof {
                    assert forall|m: Seq<char>| #[trigger] self.statuses()[sid@].migrations().contains_key(m) implies lists_pair(found@, sid@, m) by {
                        let a = choose|a: int| 0 <= a < mids@.len() && mids@[a]@ == m;
                        assert(lists_pair(found@, sid@, mids@[a]@));
                    }
                }
            }
            proof {
                done = done.insert(sid@);
            }
            i += 1;
        }
        proof {
            assert forall|s: Seq<char>, m: Seq<char>|
                self.statuses().contains_key(s) && #[trigger] self.statuses()[s].migrations().contains_key(m) implies lists_pair(found@, s, m) by {
                let j = choose|j: int| 0 <= j < shard_ids@.len() && shard_ids@[j]@ == s;
                assert(done.contains(shard_ids@[j]@));
            }
        }
        Ok(found)
    }

    /// Active migrations of every shard, checked against the breaker now.
    pub fn sync_shards(&mut self) -> (r: Result<Vec<(String, String)>, ShardError>)
        requires
            old(self).wf(),
        ensures
            final(self).wf(),
            final(self).statuses() == old(self).statuses(),
            final(self).spec_config() == old(self).spec_config(),
            exists|now: u64| (r is Err) == !allow_step(old(self).breaker().spec_state(), old(self).breaker().spec_config(), now).0,
            r is Err ==> r matches Err(ShardError::CircuitBreakerOpen),
            r is Ok ==> lists_migrations(old(self).statuses(), r->Ok_0@),
    {
        self.sync_shards_at(now_millis())
    }
}

} // verus!
