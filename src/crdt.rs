//! Causal bookkeeping of a replicated cluster centroid: per-replica version
//! vectors, and the count and timestamp that decide how two replicas merge.

use vstd::prelude::*;
use crate::clock::now_millis;
use crate::table::KeyedTable;

verus! {

/// Counter of `replica` in `v`; a missing replica counts as 0.
pub open spec fn counter(v: Map<Seq<char>, u64>, replica: Seq<char>) -> u64 {
    if v.contains_key(replica) {
        v[replica]
    } else {
        0
    }
}

/// Replica-wise maximum of two version vectors over the union of their replicas.
pub open spec fn join(a: Map<Seq<char>, u64>, b: Map<Seq<char>, u64>) -> Map<Seq<char>, u64> {
    Map::new(
        |k: Seq<char>| a.contains_key(k) || b.contains_key(k),
        |k: Seq<char>|
            if counter(a, k) >= counter(b, k) {
                counter(a, k)
            } else {
                counter(b, k)
            },
    )
}

/// `a` has seen everything `b` has: every replica of `b` is present in `a` with a
/// counter at least as large. A replica missing from `a` is not dominated.
pub open spec fn dominates(a: Map<Seq<char>, u64>, b: Map<Seq<char>, u64>) -> bool {
    forall|k: Seq<char>| #[trigger] b.contains_key(k) ==> a.contains_key(k) && a[k] >= b[k]
}

pub struct VersionVector {
    versions: KeyedTable<u64>,
}

impl View for VersionVector {
    type V = Map<Seq<char>, u64>;

    closed spec fn view(&self) -> Map<Seq<char>, u64> {
        self.versions@
    }
}

impl VersionVector {
    pub closed spec fn wf(&self) -> bool {
        self.versions.wf()
    }

    pub fn new() -> (r: Self)
        ensures
            r.wf(),
            r@ == Map::<Seq<char>, u64>::empty(),
    {
        VersionVector { versions: KeyedTable::new() }
    }

    /// Counter of `replica`, 0 when it has none.
    pub fn get(&self, replica: &str) -> (r: u64)
        requires
            self.wf(),
        ensures
            r == counter(self@, replica@),
    {
        match self.versions.get(replica) {
            Some(v) => *v,
            None => 0,
        }
    }

    /// Advances the counter of `replica` by one.
    pub fn increment(&mut self, replica: &str)
        requires
            old(self).wf(),
            counter(old(self)@, replica@) < u64::MAX,
        ensures
            final(self).wf(),
            final(self)@ == old(self)@.insert(replica@, (counter(old(self)@, replica@) + 1) as u64),
    {
        let current = self.get(replica);
        self.versions.insert(replica.to_owned(), current + 1);
    }

    /// Takes the replica-wise maximum with `other`.
    pub fn merge(&mut self, other: &VersionVector)
        requires
            old(self).wf(),
            other.wf(),
        ensures
            final(self).wf(),
            final(self)@ == join(old(self)@, other@),
    {
        let keys = other.versions.keys();
        let ghost done: Set<Seq<char>> = Set::empty();
        let mut i: usize = 0;
        while i < keys.len()
            invariant
                self.wf(),
                other.wf(),
                i <= keys@.len(),
                forall|k: Seq<char>| #[trigger] other@.contains_key(k) <==> exists|j: int| 0 <= j < keys@.len() && keys@[j]@ == k,
                forall|j: int| 0 <= j < i ==> done.contains(#[trigger] keys@[j]@),
                forall|k: Seq<char>| #[trigger] done.contains(k) ==> other@.contains_key(k),
                forall|k: Seq<char>| #[trigger] self@.contains_key(k) == (old(self)@.contains_key(k) || done.contains(k)),
                forall|k: Seq<char>| #[trigger] self@.contains_key(k) ==> self@[k] == if done.contains(k) {
                    join(old(self)@, other@)[k]
                } else {
                    old(self)@[k]
                },
            decreases keys@.len() - i,
        {
            let key = &keys[i];
            assert(other@.contains_key(keys@[i as int]@));
            let theirs = other.get(key.as_str());
            let mine = self.get(key.as_str());
            let best = if mine >= theirs { mine } else { theirs };
            proof {
                let k = key@;
                if done.contains(k) {
                    assert(self@[k] == join(old(self)@, other@)[k]);
                }
            }
            self.versions.insert(key.clone(), best);
            proof {
                done = done.insert(key@);
            }
            i += 1;
        }
        proof {
            assert forall|k: Seq<char>| #[trigger] other@.contains_key(k) implies done.contains(k) by {
                let j = choose|j: int| 0 <= j < keys@.len() && keys@[j]@ == k;
                assert(done.contains(keys@[j]@));
            }
        }
        assert(self@ =~= join(old(self)@, other@));
    }

    /// Whether this vector has seen everything `other` has.
    pub fn dominates(&self, other: &VersionVector) -> (r: bool)
        requires
            self.wf(),
            other.wf(),
        ensures
            r == dominates(self@, other@),
    {
        let keys = other.versions.keys();
        let mut i: usize = 0;
        while i < keys.len()
            invariant
                self.wf(),
                other.wf(),
                i <= keys@.len(),
                forall|k: Seq<char>| #[trigger] other@.contains_key(k) <==> exists|j: int| 0 <= j < keys@.len() && keys@[j]@ == k,
                forall|j: int|
                    0 <= j < i ==> self@.contains_key(#[trigger] keys@[j]@) && self@[keys@[j]@] >= other@[keys@[j]@],
            decreases keys@.len() - i,
        {
            let key = &keys[i];
            assert(other@.contains_key(keys@[i as int]@));
            let theirs = other.get(key.as_str());
            if !self.versions.contains(key.as_str()) {
                return false;
            }
            let mine = self.get(key.as_str());
            if mine < theirs {
                return false;
            }
            i += 1;
        }
        proof {
            assert forall|k: Seq<char>| #[trigger] other@.contains_key(k) implies self@.contains_key(k) && self@[k] >= other@[k] by {
                let j = choose|j: int| 0 <= j < keys@.len() && keys@[j]@ == k;
                assert(self@.contains_key(keys@[j]@));
            }
        }
        true
    }

    /// A copy with the same counters.
    pub fn duplicate(&self) -> (r: VersionVector)
        requires
            self.wf(),
        ensures
            r.wf(),
            r@ == self@,
    {
        let mut r = VersionVector::new();
        r.merge(self);
        assert(r@ =~= self@);
        r
    }
}

/// How a merge changed the local replica.
#[derive(Clone, Copy, Debug, PartialEq, Eq, Structural)]
pub enum MergeOutcome {
    /// The local replica had already seen the other one.
    Unchanged,
    /// The other replica had seen everything local: its state was taken whole.
    Replaced,
    /// Concurrent replicas: centroids are blended with weights proportional to
    /// these counts, counts add up and version vectors join.
    Blended { self_count: u64, other_count: u64 },
}

/// Abstract state of a centroid replica: observation count, version vector and
/// timestamp in milliseconds.
pub type CentroidView = (nat, Map<Seq<char>, u64>, u64);

/// Outcome of merging replica `b` into replica `a`.
pub open spec fn merge_outcome(a: CentroidView, b: CentroidView) -> MergeOutcome {
    if dominates(a.1, b.1) {
        MergeOutcome::Unchanged
    } else if dominates(b.1, a.1) {
        MergeOutcome::Replaced
    } else {
        MergeOutcome::Blended { self_count: a.0 as u64, other_count: b.0 as u64 }
    }
}

/// State of replica `a` after merging replica `b` into it.
pub open spec fn merge_result(a: CentroidView, b: CentroidView) -> CentroidView {
    if dominates(a.1, b.1) {
        a
    } else if dominates(b.1, a.1) {
        b
    } else {
        (a.0 + b.0, join(a.1, b.1), if a.2 >= b.2 { a.2 } else { b.2 })
    }
}

/// The merged count fits in 64 bits.
pub open spec fn merge_fits(a: CentroidView, b: CentroidView) -> bool {
    merge_result(a, b).0 <= u64::MAX
}

/// Causal part of a replicated centroid; the centroid's coordinates travel beside
/// it and are blended as the merge outcome says.
pub struct CentroidMeta {
    count: u64,
    version_vector: VersionVector,
    timestamp: u64,
}

impl View for CentroidMeta {
    type V = CentroidView;

    closed spec fn view(&self) -> CentroidView {
        (self.count as nat, self.version_vector@, self.timestamp)
    }
}

impl CentroidMeta {
    /// The version vector is well formed and at least one vector was observed.
    pub closed spec fn wf(&self) -> bool {
        self.version_vector.wf() && self.count >= 1
    }

    /// A well-formed replica has observed at least one vector.
    pub proof fn lemma_count_positive(&self)
        requires
            self.wf(),
        ensures
            self@.0 >= 1,
    {
    }

    /// A replica created from one vector at time `now`.
    pub fn new_at(now: u64) -> (r: Self)
        ensures
            r.wf(),
            r@ == (1nat, Map::<Seq<char>, u64>::empty(), now),
    {
        CentroidMeta { count: 1, version_vector: VersionVector::new(), timestamp: now }
    }

    /// A replica created from one vector now.
    pub fn new() -> (r: Self)
        ensures
            r.wf(),
            r@.0 == 1,
            r@.1 == Map::<Seq<char>, u64>::empty(),
    {
        Self::new_at(now_millis())
    }

    /// A copy with the same count, version vector and timestamp.
    pub fn duplicate(&self) -> (r: Self)
        requires
            self.wf(),
        ensures
            r.wf(),
            r@ == self@,
    {
        CentroidMeta { count: self.count, version_vector: self.version_vector.duplicate(), timestamp: self.timestamp }
    }

    pub fn count(&self) -> (r: u64)
        ensures
            r == self@.0,
    {
        self.count
    }

    pub fn timestamp(&self) -> (r: u64)
        ensures
            r == self@.2,
    {
        self.timestamp
    }

    /// Counter of `replica` in the version vector.
    pub fn version_of(&self, replica: &str) -> (r: u64)
        requires
            self.wf(),
        ensures
            r == counter(self@.1, replica@),
    {
        self.version_vector.get(replica)
    }

    /// One more vector observed by `replica` at time `now`. The caller folds the
    /// vector into the running mean with weight `1 / new count`.
    pub fn update_at(&mut self, replica: &str, now: u64)
        requires
            old(self).wf(),
            old(self)@.0 < u64::MAX,
            counter(old(self)@.1, replica@) < u64::MAX,
        ensures
            final(self).wf(),
            final(self)@ == (
                old(self)@.0 + 1,
                old(self)@.1.insert(replica@, (counter(old(self)@.1, replica@) + 1) as u64),
                now,
            ),
    {
        self.count = self.count + 1;
        self.version_vector.increment(replica);
        self.timestamp = now;
    }

    /// One more vector observed by `replica` now.
    pub fn update(&mut self, replica: &str)
        requires
            old(self).wf(),
            old(self)@.0 < u64::MAX,
            counter(old(self)@.1, replica@) < u64::MAX,
        ensures
            final(self).wf(),
            final(self)@.0 == old(self)@.0 + 1,
            final(self)@.1 == old(self)@.1.insert(replica@, (counter(old(self)@.1, replica@) + 1) as u64),
    {
        self.update_at(replica, now_millis());
    }

    /// Merges another replica into this one.
    pub fn merge(&mut self, other: &CentroidMeta) -> (r: MergeOutcome)
        requires
            old(self).wf(),
            other.wf(),
            merge_fits(old(self)@, other@),
        ensures
            final(self).wf(),
            final(self)@ == merge_result(old(self)@, other@),
            r == merge_outcome(old(self)@, other@),
    {
        if self.version_vector.dominates(&other.version_vector) {
            return MergeOutcome::Unchanged;
        }
        if other.version_vector.dominates(&self.version_vector) {
            self.count = other.count;
            self.version_vector = other.version_vector.duplicate();
            self.timestamp = other.timestamp;
            return MergeOutcome::Replaced;
        }
        let outcome = MergeOutcome::Blended { self_count: self.count, other_count: other.count };
        self.count = self.count + other.count;
        self.version_vector.merge(&other.version_vector);
        if other.timestamp > self.timestamp {
            self.timestamp = other.timestamp;
        }
        outcome
    }
}

/// Joining version vectors does not depend on the order of the two sides.
pub proof fn lemma_join_commutative(a: Map<Seq<char>, u64>, b: Map<Seq<char>, u64>)
    ensures
        join(a, b) == join(b, a),
{
    assert(join(a, b) =~= join(b, a));
}

/// Joining version vectors does not depend on how three of them are grouped.
pub proof fn lemma_join_associative(a: Map<Seq<char>, u64>, b: Map<Seq<char>, u64>, c: Map<Seq<char>, u64>)
    ensures
        join(join(a, b), c) == join(a, join(b, c)),
{
    assert(join(join(a, b), c) =~= join(a, join(b, c)));
}

/// Joining a version vector with itself changes nothing.
pub proof fn lemma_join_idempotent(a: Map<Seq<char>, u64>)
    ensures
        join(a, a) == a,
{
    assert(join(a, a) =~= a);
}

/// Merging replica states is idempotent: a replica merged with itself is unchanged.
pub proof fn lemma_merge_idempotent(a: CentroidView)
    ensures
        merge_result(a, a) == a,
        merge_outcome(a, a) == MergeOutcome::Unchanged,
{
    assert(dominates(a.1, a.1));
}

/// Merging two replica states gives the same state in either order, unless their
/// version vectors are equal while the rest differs (each then keeps its own).
pub proof fn lemma_merge_commutative(a: CentroidView, b: CentroidView)
    requires
        !(dominates(a.1, b.1) && dominates(b.1, a.1)),
    ensures
        merge_result(a, b) == merge_result(b, a),
{
    lemma_join_commutative(a.1, b.1);
}

/// After a merge the replica has seen everything that either side had seen, so
/// repeated merging only moves version vectors upward.
pub proof fn lemma_merge_dominates(a: CentroidView, b: CentroidView)
    ensures
        dominates(merge_result(a, b).1, a.1),
        dominates(merge_result(a, b).1, b.1),
{
    assert(dominates(a.1, a.1));
    assert(dominates(b.1, b.1));
}

/// Whatever branch a merge takes, the version vector it leaves is the join of
/// the two sides.
pub proof fn lemma_merge_joins_versions(a: CentroidView, b: CentroidView)
    ensures
        merge_result(a, b).1 == join(a.1, b.1),
{
    if dominates(a.1, b.1) {
        assert(join(a.1, b.1) =~= a.1);
    } else if dominates(b.1, a.1) {
        assert(join(a.1, b.1) =~= b.1);
    }
}

/// Replicas that exchange states converge in their version vectors whatever the
/// order and grouping of the merges: merging three states in any arrangement
/// leaves the same vector.
pub proof fn lemma_merge_versions_converge(a: CentroidView, b: CentroidView, c: CentroidView)
    ensures
        merge_result(merge_result(a, b), c).1 == merge_result(a, merge_result(b, c)).1,
        merge_result(merge_result(a, b), c).1 == merge_result(merge_result(c, b), a).1,
        merge_result(a, b).1 == merge_result(b, a).1,
{
    lemma_merge_joins_versions(a, b);
    lemma_merge_joins_versions(b, a);
    lemma_merge_joins_versions(b, c);
    lemma_merge_joins_versions(c, b);
    lemma_merge_joins_versions(merge_result(a, b), c);
    lemma_merge_joins_versions(a, merge_result(b, c));
    lemma_merge_joins_versions(merge_result(c, b), a);
    lemma_join_commutative(a.1, b.1);
    lemma_join_commutative(b.1, c.1);
    lemma_join_associative(a.1, b.1, c.1);
    lemma_join_associative(c.1, b.1, a.1);
    lemma_join_commutative(join(c.1, b.1), a.1);
}

/// Delivering the same replica again after a merge changes nothing, so duplicate
/// delivery is harmless.
pub proof fn lemma_merge_redelivery(a: CentroidView, b: CentroidView)
    ensures
        merge_result(merge_result(a, b), b) == merge_result(a, b),
        merge_outcome(merge_result(a, b), b) == MergeOutcome::Unchanged,
{
    lemma_merge_dominates(a, b);
}

} // verus!
