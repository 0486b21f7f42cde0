//! Exponential backoff with full jitter for calls that may fail transiently.

use rand::Rng;
use vstd::prelude::*;

verus! {

/// `2^e`.
pub open spec fn exp2(e: nat) -> nat
    decreases e,
{
    if e == 0 {
        1
    } else {
        2 * exp2((e - 1) as nat)
    }
}

proof fn lemma_exp2_monotone(a: nat, b: nat)
    requires
        a <= b,
    ensures
        1 <= exp2(a) <= exp2(b),
    decreases b,
{
    if b > a {
        lemma_exp2_monotone(a, (b - 1) as nat);
    } else if a > 0 {
        lemma_exp2_monotone((a - 1) as nat, (a - 1) as nat);
    }
}

/// Largest delay allowed before retry number `attempt`: `base * 2^attempt`,
/// capped at `cap`.
pub open spec fn backoff_ceiling(base: nat, cap: nat, attempt: nat) -> nat {
    if base * exp2(attempt) < cap {
        base * exp2(attempt)
    } else {
        cap
    }
}

/// Relies on rand's `thread_rng().gen_range(0..=bound)`: a uniform draw from an
/// inclusive range, which here is never empty, so it does not panic.
#[verifier::external_body]
fn uniform_up_to(bound: u64) -> (r: u64)
    ensures
        r <= bound,
{
    rand::thread_rng().gen_range(0..=bound)
}

/// Retry schedule: delays in milliseconds, at most `max_attempts` of them.
pub struct RetryStrategy {
    base: u64,
    cap: u64,
    attempts: u32,
    max_attempts: u32,
}

impl RetryStrategy {
    /// Delay of the first retry, in milliseconds.
    pub closed spec fn spec_base(&self) -> u64 {
        self.base
    }

    /// Upper bound of every delay, in milliseconds.
    pub closed spec fn spec_cap(&self) -> u64 {
        self.cap
    }

    /// Delays handed out since creation or the last reset.
    pub closed spec fn spec_attempts(&self) -> u32 {
        self.attempts
    }

    pub closed spec fn spec_max_attempts(&self) -> u32 {
        self.max_attempts
    }

    /// A schedule with no delay handed out yet; `base` and `cap` in milliseconds.
    pub fn new(base: u64, cap: u64, max_attempts: u32) -> (r: Self)
        ensures
            r.spec_base() == base,
            r.spec_cap() == cap,
            r.spec_attempts() == 0,
            r.spec_max_attempts() == max_attempts,
    {
        Self { base, cap, attempts: 0, max_attempts }
    }

    /// Ceiling of the next delay: `min(cap, base * 2^attempts)`.
    pub fn current_ceiling(&self) -> (r: u64)
        ensures
            r == backoff_ceiling(self.spec_base() as nat, self.spec_cap() as nat, self.spec_attempts() as nat),
    {
        let cap = self.cap;
        let mut t: u64 = if self.base < cap { self.base } else { cap };
        let mut i: u32 = 0;
        assert(exp2(0) == 1);
        assert(self.base as nat * exp2(0) == self.base as nat);
        while i < self.attempts && t < cap
            invariant
                cap == self.cap,
                i <= self.attempts,
                t as nat == backoff_ceiling(self.base as nat, cap as nat, i as nat),
            decreases self.attempts - i,
        {
            proof {
                assert(exp2((i + 1) as nat) == 2 * exp2(i as nat));
                assert(self.base as nat * exp2((i + 1) as nat) == 2 * (self.base as nat * exp2(i as nat)))
                    by (nonlinear_arith)
                    requires
                        exp2((i + 1) as nat) == 2 * exp2(i as nat),
                ;
            }
            t = if t > cap - t { cap } else { t + t };
            i += 1;
        }
        proof {
            if i < self.attempts {
                lemma_exp2_monotone(i as nat, self.attempts as nat);
                assert(self.base as nat * exp2(i as nat) <= self.base as nat * exp2(self.attempts as nat))
                    by (nonlinear_arith)
                    requires
                        exp2(i as nat) <= exp2(self.attempts as nat),
                ;
            }
        }
        t
    }

    /// The next delay: a uniform draw between 0 and the current ceiling, or
    /// `None` once `max_attempts` delays have been handed out.
    pub fn next_delay(&mut self) -> (r: Option<u64>)
        ensures
            final(self).spec_base() == old(self).spec_base(),
            final(self).spec_cap() == old(self).spec_cap(),
            final(self).spec_max_attempts() == old(self).spec_max_attempts(),
            old(self).spec_attempts() >= old(self).spec_max_attempts() ==> r is None
                && final(self).spec_attempts() == old(self).spec_attempts(),
            old(self).spec_attempts() < old(self).spec_max_attempts() ==> r is Some
                && r->0 <= backoff_ceiling(
                old(self).spec_base() as nat,
                old(self).spec_cap() as nat,
                old(self).spec_attempts() as nat,
            ) && final(self).spec_attempts() == old(self).spec_attempts() + 1,
    {
        if self.attempts >= self.max_attempts {
            return None;
        }
        let ceiling = self.current_ceiling();
        let jitter = uniform_up_to(ceiling);
        self.attempts = self.attempts + 1;
        Some(jitter)
    }

    /// Starts the schedule over.
    pub fn reset(&mut self)
        ensures
            final(self).spec_base() == old(self).spec_base(),
            final(self).spec_cap() == old(self).spec_cap(),
            final(self).spec_max_attempts() == old(self).spec_max_attempts(),
            final(self).spec_attempts() == 0,
    {
        self.attempts = 0;
    }
}

} // verus!
