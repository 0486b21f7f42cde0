//! A three-state fault isolator: closed while calls succeed, open after repeated
//! failures, half-open while recovery is probed.

use vstd::prelude::*;
use crate::clock::now_millis;

verus! {

#[derive(Clone, Copy, Debug, PartialEq, Eq, Structural)]
pub enum CircuitState {
    Closed { failures: u32 },
    Open { since: u64 },
    HalfOpen { attempts: u32, successes: u32 },
}

#[derive(Clone, Copy, Debug, PartialEq, Eq, Structural)]
pub struct CircuitBreakerConfig {
    pub failure_threshold: u32,
    /// Milliseconds an open breaker waits before it probes again.
    pub reset_timeout_ms: u64,
    pub half_open_max_attempts: u32,
}

/// Milliseconds from `since` to `now`; 0 when `now` is earlier.
pub open spec fn elapsed(since: u64, now: u64) -> int {
    if now >= since {
        now - since
    } else {
        0
    }
}

/// Whether an operation may run at `now`, and the state afterwards.
pub open spec fn allow_step(s: CircuitState, c: CircuitBreakerConfig, now: u64) -> (bool, CircuitState) {
    match s {
        CircuitState::Closed { .. } => (true, s),
        CircuitState::Open { since } => if elapsed(since, now) > c.reset_timeout_ms {
            (true, CircuitState::HalfOpen { attempts: 0, successes: 0 })
        } else {
            (false, s)
        },
        CircuitState::HalfOpen { attempts, .. } => (attempts < c.half_open_max_attempts, s),
    }
}

/// State after a successful operation.
pub open spec fn success_step(s: CircuitState, c: CircuitBreakerConfig) -> CircuitState {
    match s {
        CircuitState::Closed { .. } => s,
        CircuitState::HalfOpen { attempts, successes } => if successes + 1 >= c.half_open_max_attempts {
            CircuitState::Closed { failures: 0 }
        } else {
            CircuitState::HalfOpen { attempts, successes: (successes + 1) as u32 }
        },
        CircuitState::Open { .. } => CircuitState::HalfOpen { attempts: 1, successes: 1 },
    }
}

/// State after a failed operation at `now`.
pub open spec fn failure_step(s: CircuitState, c: CircuitBreakerConfig, now: u64) -> CircuitState {
    match s {
        CircuitState::Closed { failures } => if failures + 1 >= c.failure_threshold {
            CircuitState::Open { since: now }
        } else {
            CircuitState::Closed { failures: (failures + 1) as u32 }
        },
        _ => CircuitState::Open { since: now },
    }
}

/// State after `k` consecutive failures at time `now`.
pub open spec fn after_failures(s: CircuitState, c: CircuitBreakerConfig, now: u64, k: nat) -> CircuitState
    decreases k,
{
    if k == 0 {
        s
    } else {
        failure_step(after_failures(s, c, now, (k - 1) as nat), c, now)
    }
}

/// State after `k` consecutive successes.
pub open spec fn after_successes(s: CircuitState, c: CircuitBreakerConfig, k: nat) -> CircuitState
    decreases k,
{
    if k == 0 {
        s
    } else {
        success_step(after_successes(s, c, (k - 1) as nat), c)
    }
}

/// A closed breaker counts consecutive failures and opens on the
/// `failure_threshold`-th one, not before.
pub proof fn lemma_failures_open_breaker(c: CircuitBreakerConfig, now: u64, k: nat)
    requires
        k <= c.failure_threshold,
    ensures
        k < c.failure_threshold ==> after_failures(CircuitState::Closed { failures: 0 }, c, now, k)
            == (CircuitState::Closed { failures: k as u32 }),
        k == c.failure_threshold && k >= 1 ==> after_failures(CircuitState::Closed { failures: 0 }, c, now, k)
            == (CircuitState::Open { since: now }),
    decreases k,
{
    if k > 0 {
        lemma_failures_open_breaker(c, now, (k - 1) as nat);
    }
}

/// A freshly half-open breaker counts consecutive successes and closes, with no
/// failures, on the `half_open_max_attempts`-th one, not before.
pub proof fn lemma_successes_close_breaker(c: CircuitBreakerConfig, k: nat)
    requires
        k <= c.half_open_max_attempts,
    ensures
        k < c.half_open_max_attempts ==> after_successes(CircuitState::HalfOpen { attempts: 0, successes: 0 }, c, k)
            == (CircuitState::HalfOpen { attempts: 0, successes: k as u32 }),
        k == c.half_open_max_attempts && k >= 1 ==> after_successes(
            CircuitState::HalfOpen { attempts: 0, successes: 0 },
            c,
            k,
        ) == (CircuitState::Closed { failures: 0 }),
    decreases k,
{
    if k > 0 {
        lemma_successes_close_breaker(c, (k - 1) as nat);
    }
}

pub struct CircuitBreaker {
    state: CircuitState,
    config: CircuitBreakerConfig,
}

impl CircuitBreaker {
    pub closed spec fn spec_state(&self) -> CircuitState {
        self.state
    }

    pub closed spec fn spec_config(&self) -> CircuitBreakerConfig {
        self.config
    }

    /// A closed breaker that opens after 5 failures, probes again after 60 s and
    /// closes after 3 successful probes.
    pub fn new() -> (r: Self)
        ensures
            r.spec_state() == (CircuitState::Closed { failures: 0 }),
            r.spec_config() == (CircuitBreakerConfig {
                failure_threshold: 5,
                reset_timeout_ms: 60_000,
                half_open_max_attempts: 3,
            }),
    {
        Self::with_config(
            CircuitBreakerConfig { failure_threshold: 5, reset_timeout_ms: 60_000, half_open_max_attempts: 3 },
        )
    }

    /// A closed breaker with the given limits.
    pub fn with_config(config: CircuitBreakerConfig) -> (r: Self)
        ensures
            r.spec_state() == (CircuitState::Closed { failures: 0 }),
            r.spec_config() == config,
    {
        Self { state: CircuitState::Closed { failures: 0 }, config }
    }

    pub fn state(&self) -> (r: CircuitState)
        ensures
            r == self.spec_state(),
    {
        self.state
    }

    pub fn config(&self) -> (r: CircuitBreakerConfig)
        ensures
            r == self.spec_config(),
    {
        self.config
    }

    /// Whether an operation may run at time `now` (milliseconds). An open breaker
    /// whose timeout has passed turns half-open and lets this call through.
    pub fn allow_operation_at(&mut self, now: u64) -> (r: bool)
        ensures
            final(self).spec_config() == old(self).spec_config(),
            (r, final(self).spec_state()) == allow_step(old(self).spec_state(), old(self).spec_config(), now),
    {
        match self.state {
            CircuitState::Closed { .. } => true,
            CircuitState::Open { since } => {
                let waited = now.saturating_sub(since);
                if waited > self.config.reset_timeout_ms {
                    self.state = CircuitState::HalfOpen { attempts: 0, successes: 0 };
                    true
                } else {
                    false
                }
            },
            CircuitState::HalfOpen { attempts, .. } => attempts < self.config.half_open_max_attempts,
        }
    }

    /// Whether an operation may run now.
    pub fn allow_operation(&mut self) -> (r: bool)
        ensures
            final(self).spec_config() == old(self).spec_config(),
            exists|now: u64|
                (r, final(self).spec_state()) == allow_step(
                    old(self).spec_state(),
                    old(self).spec_config(),
                    now,
                ),
    {
        let now = now_millis();
        self.allow_operation_at(now)
    }

    pub fn record_success(&mut self)
        ensures
            final(self).spec_config() == old(self).spec_config(),
            final(self).spec_state() == success_step(old(self).spec_state(), old(self).spec_config()),
    {
        match self.state {
            CircuitState::Closed { .. } => {},
            CircuitState::HalfOpen { attempts, successes } => {
                if successes as u64 + 1 >= self.config.half_open_max_attempts as u64 {
                    self.state = CircuitState::Closed { failures: 0 };
                } else {
                    self.state = CircuitState::HalfOpen { attempts, successes: successes + 1 };
                }
            },
            CircuitState::Open { .. } => {
                self.state = CircuitState::HalfOpen { attempts: 1, successes: 1 };
            },
        }
    }

    /// Records a failed operation at time `now` (milliseconds).
    pub fn record_failure_at(&mut self, now: u64)
        ensures
            final(self).spec_config() == old(self).spec_config(),
            final(self).spec_state() == failure_step(old(self).spec_state(), old(self).spec_config(), now),
    {
        match self.state {
            CircuitState::Closed { failures } => {
                if failures as u64 + 1 >= self.config.failure_threshold as u64 {
                    self.state = CircuitState::Open { since: now };
                } else {
                    self.state = CircuitState::Closed { failures: failures + 1 };
                }
            },
            _ => {
                self.state = CircuitState::Open { since: now };
            },
        }
    }

    /// Records a failed operation now.
    pub fn record_failure(&mut self)
        ensures
            final(self).spec_config() == old(self).spec_config(),
            exists|now: u64|
                final(self).spec_state() == failure_step(old(self).spec_state(), old(self).spec_config(), now),
    {
        let now = now_millis();
        self.record_failure_at(now)
    }

    /// Closes the breaker whatever its state.
    pub fn reset(&mut self)
        ensures
            final(self).spec_config() == old(self).spec_config(),
            final(self).spec_state() == (CircuitState::Closed { failures: 0 }),
    {
        self.state = CircuitState::Closed { failures: 0 };
    }
}

} // verus!
