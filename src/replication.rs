//! Federated rounds: model updates are validated and buffered, then a round folds
//! the buffer into a new global model whose version exceeds every participant's.

use vstd::prelude::*;
use crate::error::ShardError;

verus! {

/// A participant's model update as the round bookkeeping sees it: its version,
/// number of weights, sample count and contributor. The weights, bias and metrics
/// themselves travel in `payload`.
pub struct Submission<P> {
    pub version: u32,
    pub weights_len: usize,
    pub samples_count: u32,
    pub contributor: String,
    pub timestamp: u64,
    pub payload: P,
}

/// What a round produces apart from the averaged values: the new version, the
/// total sample count, and who took part, in submission order.
pub struct RoundPlan {
    pub version: u32,
    pub samples_count: u128,
    pub weights_len: usize,
    pub participants: Vec<String>,
}

/// Largest version among the submissions (0 when there are none).
pub open spec fn max_version<P>(s: Seq<Submission<P>>) -> nat
    decreases s.len(),
{
    if s.len() == 0 {
        0
    } else {
        let rest = max_version(s.drop_last());
        if s.last().version as nat >= rest {
            s.last().version as nat
        } else {
            rest
        }
    }
}

/// Sum of the sample counts.
pub open spec fn samples_total<P>(s: Seq<Submission<P>>) -> nat
    decreases s.len(),
{
    if s.len() == 0 {
        0
    } else {
        samples_total(s.drop_last()) + s.last().samples_count as nat
    }
}

proof fn lemma_samples_total_bound<P>(s: Seq<Submission<P>>)
    ensures
        samples_total(s) <= s.len() * 0xffff_ffff,
    decreases s.len(),
{
    if s.len() > 0 {
        lemma_samples_total_bound(s.drop_last());
    }
}

/// All submissions carry as many weights as the first.
pub open spec fn same_width<P>(s: Seq<Submission<P>>) -> bool {
    forall|j: int| 0 <= j < s.len() ==> #[trigger] s[j].weights_len == s[0].weights_len
}

/// `p` is the round over the submissions `s`.
pub open spec fn plans_round<P>(p: RoundPlan, s: Seq<Submission<P>>) -> bool {
    &&& p.version == max_version(s) + 1
    &&& p.samples_count == samples_total(s)
    &&& p.weights_len == s[0].weights_len
    &&& p.participants@.len() == s.len()
    &&& forall|j: int| 0 <= j < p.participants@.len() ==> #[trigger] p.participants@[j] == s[j].contributor
}

/// The updates a round takes: the oldest ones, at most `cap` of them.
pub open spec fn round_batch<P>(pending: Seq<Submission<P>>, cap: u32) -> Seq<Submission<P>> {
    if pending.len() <= cap {
        pending
    } else {
        pending.take(cap as int)
    }
}

pub struct ReplicationManager<P> {
    replication_interval_ms: u64,
    max_participants_per_round: u32,
    running: bool,
    current_version: Option<u32>,
    pending: Vec<Submission<P>>,
}

impl<P> ReplicationManager<P> {
    /// Version of the current global model, if one is known.
    pub closed spec fn spec_current_version(&self) -> Option<u32> {
        self.current_version
    }

    /// Buffered submissions, oldest first.
    pub closed spec fn spec_pending(&self) -> Seq<Submission<P>> {
        self.pending@
    }

    pub closed spec fn spec_running(&self) -> bool {
        self.running
    }

    /// Largest number of updates that one round takes.
    pub closed spec fn spec_max_participants(&self) -> u32 {
        self.max_participants_per_round
    }

    pub fn new(replication_interval_ms: u64, max_participants_per_round: u32) -> (r: Self)
        ensures
            r.spec_current_version() is None,
            r.spec_pending().len() == 0,
            r.spec_max_participants() == max_participants_per_round,
            r.spec_interval() == replication_interval_ms,
            !r.spec_running(),
    {
        ReplicationManager {
            replication_interval_ms,
            max_participants_per_round,
            running: false,
            current_version: None,
            pending: Vec::new(),
        }
    }

    /// Cadence of federated rounds, in milliseconds.
    pub closed spec fn spec_interval(&self) -> u64 {
        self.replication_interval_ms
    }

    pub fn replication_interval_ms(&self) -> (r: u64)
        ensures
            r == self.spec_interval(),
    {
        self.replication_interval_ms
    }

    pub fn max_participants_per_round(&self) -> (r: u32)
        ensures
            r == self.spec_max_participants(),
    {
        self.max_participants_per_round
    }

    /// Starts the manager with the version of the latest global model in the ledger.
    pub fn start(&mut self, latest_version: Option<u32>)
        ensures
            final(self).spec_running(),
            final(self).spec_pending() == old(self).spec_pending(),
            final(self).spec_current_version() == if latest_version is Some {
                latest_version
            } else {
                old(self).spec_current_version()
            },
            final(self).spec_max_participants() == old(self).spec_max_participants(),
    {
        self.running = true;
        self.sync_state(latest_version);
    }

    pub fn stop(&mut self)
        ensures
            !final(self).spec_running(),
            final(self).spec_pending() == old(self).spec_pending(),
            final(self).spec_current_version() == old(self).spec_current_version(),
            final(self).spec_max_participants() == old(self).spec_max_participants(),
    {
        self.running = false;
    }

    /// Adopts the version of the latest global model found in the ledger.
    pub fn sync_state(&mut self, latest_version: Option<u32>)
        ensures
            final(self).spec_running() == old(self).spec_running(),
            final(self).spec_pending() == old(self).spec_pending(),
            final(self).spec_current_version() == if latest_version is Some {
                latest_version
            } else {
                old(self).spec_current_version()
            },
            final(self).spec_max_participants() == old(self).spec_max_participants(),
    {
        if latest_version.is_some() {
            self.current_version = latest_version;
        }
    }

    pub fn current_version(&self) -> (r: Option<u32>)
        ensures
            r == self.spec_current_version(),
    {
        self.current_version
    }

    pub fn pending_updates(&self) -> (r: &Vec<Submission<P>>)
        ensures
            r@ == self.spec_pending(),
    {
        &self.pending
    }

    /// Refuses an update without weights, or one whose version does not exceed the
    /// current global model's.
    pub fn validate_model_update(&self, update: &Submission<P>) -> (r: Result<(), ShardError>)
        ensures
            r is Ok <==> (update.weights_len > 0 && match self.spec_current_version() {
                Some(v) => update.version > v,
                None => true,
            }),
            r is Err ==> r matches Err(ShardError::ValidationError { .. }),
    {
        if update.weights_len == 0 {
            return Err(ShardError::ValidationError { reason: "Empty weights not allowed".to_owned() });
        }
        match self.current_version {
            Some(v) => {
                if update.version <= v {
                    return Err(ShardError::ValidationError { reason: "Invalid version number".to_owned() });
                }
            },
            None => {},
        }
        Ok(())
    }

    /// Buffers a valid update for the next round; an invalid one is refused and the
    /// buffer is left as it was.
    pub fn receive_model_update(&mut self, update: Submission<P>) -> (r: Result<(), ShardError>)
        ensures
            r is Ok <==> (update.weights_len > 0 && match old(self).spec_current_version() {
                Some(v) => update.version > v,
                None => true,
            }),
            r is Err ==> r matches Err(ShardError::ValidationError { .. }),
            r is Ok ==> final(self).spec_pending() == old(self).spec_pending().push(update),
            r is Err ==> final(self).spec_pending() == old(self).spec_pending(),
            final(self).spec_current_version() == old(self).spec_current_version(),
            final(self).spec_running() == old(self).spec_running(),
            final(self).spec_max_participants() == old(self).spec_max_participants(),
    {
        match self.validate_model_update(&update) {
            Ok(()) => {
                self.pending.push(update);
                Ok(())
            },
            Err(e) => Err(e),
        }
    }

    /// Plans a round over the oldest buffered updates, at most
    /// `max_participants_per_round` of them: none gives `None`; updates of
    /// different widths are a dimension mismatch; otherwise the new version is one
    /// above the largest participant version, sample counts add up, and every
    /// contributor is listed. The buffer is left as it is.
    pub fn begin_round(&self) -> (r: Result<Option<RoundPlan>, ShardError>)
        ensures
            ({
                let batch = round_batch(self.spec_pending(), self.spec_max_participants());
                &&& batch.len() == 0 ==> (r matches Ok(None))
                &&& batch.len() > 0 && !same_width(batch) ==> (r matches Err(ShardError::DimensionMismatch { .. }))
                &&& batch.len() > 0 && same_width(batch) && max_version(batch) == u32::MAX ==> (r matches Err(
                    ShardError::ValidationError { .. },
                ))
                &&& batch.len() > 0 && same_width(batch) && max_version(batch) < u32::MAX ==> (r matches Ok(Some(p))
                    && plans_round(p, batch))
            }),
    {
        let n = if self.pending.len() <= self.max_participants_per_round as usize {
            self.pending.len()
        } else {
            self.max_participants_per_round as usize
        };
        let ghost batch = self.pending@.take(n as int);
        assert(batch =~= round_batch(self.spec_pending(), self.spec_max_participants()));
        if n == 0 {
            return Ok(None);
        }
        let width = self.pending[0].weights_len;
        let mut top: u32 = 0;
        let mut samples: u128 = 0;
        let mut participants: Vec<String> = Vec::new();
        let mut i: usize = 0;
        while i < n
            invariant
                n == batch.len(),
                n <= self.pending@.len(),
                batch == round_batch(self.spec_pending(), self.spec_max_participants()),
                n > 0,
                width == batch[0].weights_len,
                i <= n,
                forall|j: int| 0 <= j < i ==> #[trigger] batch[j].weights_len == width,
                top as nat == max_version(batch.take(i as int)),
                samples as nat == samples_total(batch.take(i as int)),
                participants@.len() == i,
                forall|j: int| 0 <= j < i ==> #[trigger] participants@[j] == batch[j].contributor,
            decreases n - i,
        {
            proof {
                assert(batch.take(i as int + 1).drop_last() =~= batch.take(i as int));
                lemma_samples_total_bound(batch.take(i as int));
                assert(i * 0xffff_ffffnat <= 0xffff_ffff_ffff_ffff * 0xffff_ffffnat) by (nonlinear_arith)
                    requires
                        i <= 0xffff_ffff_ffff_ffffnat,
                ;
            }
            let u = &self.pending[i];
            assert(*u == batch[i as int]);
            if u.weights_len != width {
                assert(batch[i as int].weights_len != batch[0].weights_len);
                assert(!same_width(batch));
                return Err(ShardError::DimensionMismatch { left: width, right: u.weights_len });
            }
            if u.version > top {
                top = u.version;
            }
            samples = samples + u.samples_count as u128;
            participants.push(u.contributor.clone());
            i += 1;
        }
        assert(batch.take(i as int) =~= batch);
        if top == u32::MAX {
            return Err(ShardError::ValidationError { reason: "Model version space exhausted".to_owned() });
        }
        Ok(Some(RoundPlan { version: top + 1, samples_count: samples, weights_len: width, participants }))
    }

    /// Adopts the round's model as current once the ledger holds it, and drops the
    /// updates that took part (the oldest `plan.participants.len()`); updates that
    /// arrived meanwhile stay buffered.
    pub fn commit_round(&mut self, plan: &RoundPlan)
        requires
            plan.participants@.len() <= old(self).spec_pending().len(),
        ensures
            final(self).spec_current_version() == Some(plan.version),
            final(self).spec_pending() == old(self).spec_pending().skip(plan.participants@.len() as int),
            final(self).spec_running() == old(self).spec_running(),
            final(self).spec_max_participants() == old(self).spec_max_participants(),
    {
        let taken = plan.participants.len();
        let rest = self.pending.split_off(taken);
        self.pending = rest;
        self.current_version = Some(plan.version);
    }
}

} // verus!
