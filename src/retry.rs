//! Bounded retries with a fixed delay around one remote operation.
use vstd::prelude::*;

use crate::error::Error;

verus! {

/// How often an operation is tried, and how long to wait in between.
#[derive(Clone, Copy, Debug, PartialEq, Eq, Structural)]
pub struct RetryPolicy {
    pub max_attempts: u32,
    pub delay_ms: u64,
}

/// What to do after a failed attempt.
#[derive(Debug)]
pub enum Decision {
    /// Wait this many milliseconds, then try again.
    RetryAfter(u64),
    /// Stop, and report this error.
    GiveUp(Error),
}

/// The error reported once the attempts are used up, carrying the last
/// failure.
pub open spec fn exhausted(e: Error) -> Error {
    Error::ExhaustedRetries(Box::new(e))
}

/// The decision after the `failures`-th failure, `e`.
pub open spec fn decision(p: RetryPolicy, failures: nat, e: Error) -> Decision {
    if failures < p.max_attempts {
        Decision::RetryAfter(p.delay_ms)
    } else {
        Decision::GiveUp(exhausted(e))
    }
}

/// Where an operation ends whose attempts give `attempts`, once it has
/// failed `failures` times already; `None` if the attempts run out first.
pub open spec fn outcome_of<T>(p: RetryPolicy, failures: nat, attempts: Seq<Result<T, Error>>) -> Option<Result<T, Error>>
    decreases attempts.len(),
{
    if attempts.len() == 0 {
        None
    } else {
        match attempts[0] {
            Ok(v) => Some(Ok(v)),
            Err(e) => match decision(p, failures + 1, e) {
                Decision::GiveUp(x) => Some(Err(x)),
                Decision::RetryAfter(_) => outcome_of(p, failures + 1, attempts.drop_first()),
            },
        }
    }
}

impl RetryPolicy {
    pub fn new(max_attempts: u32, delay_ms: u64) -> (r: RetryPolicy)
        requires
            max_attempts >= 1,
        ensures
            r.max_attempts == max_attempts,
            r.delay_ms == delay_ms,
    {
        RetryPolicy { max_attempts, delay_ms }
    }

    /// Three attempts, 50 ms apart.
    pub fn standard() -> (r: RetryPolicy)
        ensures
            r.max_attempts == 3,
            r.delay_ms == 50,
    {
        RetryPolicy { max_attempts: 3, delay_ms: 50 }
    }
}

/// The attempts made so far at one operation.
#[derive(Clone, Copy, Debug)]
pub struct Retry {
    pub policy: RetryPolicy,
    pub failures: u32,
}

impl Retry {
    pub open spec fn wf(&self) -> bool {
        self.policy.max_attempts >= 1 && self.failures <= self.policy.max_attempts
    }

    /// Whether another failure may still be recorded.
    pub open spec fn active(&self) -> bool {
        self.failures < self.policy.max_attempts
    }

    pub fn new(policy: RetryPolicy) -> (r: Retry)
        requires
            policy.max_attempts >= 1,
        ensures
            r.wf(),
            r.active(),
            r.policy == policy,
            r.failures == 0,
    {
        Retry { policy, failures: 0 }
    }

    /// Records a failed attempt and says what comes next: another attempt
    /// after the policy's delay, or, after the last attempt, the error
    /// `ExhaustedRetries` carrying this failure.
    pub fn record_failure(&mut self, e: Error) -> (d: Decision)
        requires
            old(self).wf(),
            old(self).active(),
        ensures
            final(self).wf(),
            final(self).policy == old(self).policy,
            final(self).failures == old(self).failures + 1,
            d == decision(old(self).policy, final(self).failures as nat, e),
    {
        self.failures = self.failures + 1;
        if self.failures < self.policy.max_attempts {
            Decision::RetryAfter(self.policy.delay_ms)
        } else {
            Decision::GiveUp(Error::ExhaustedRetries(Box::new(e)))
        }
    }
}

/// With three attempts allowed: an operation that fails twice and then
/// succeeds ends in that success; one that fails three times ends in
/// `ExhaustedRetries` carrying the third failure.
pub proof fn lemma_three_attempts<T>(p: RetryPolicy, e1: Error, e2: Error, e3: Error, v: T)
    requires
        p.max_attempts == 3,
    ensures
        outcome_of(p, 0, seq![Err(e1), Err(e2), Ok(v)]) == Some(Ok::<T, Error>(v)),
        outcome_of(p, 0, seq![Err::<T, Error>(e1), Err(e2), Err(e3)]) == Some(
            Err::<T, Error>(exhausted(e3)),
        ),
{
    let s = seq![Err::<T, Error>(e1), Err(e2), Ok(v)];
    assert(s.drop_first().drop_first() =~= seq![Ok::<T, Error>(v)]);
    assert(s.drop_first() =~= seq![Err::<T, Error>(e2), Ok(v)]);
    assert(outcome_of(p, 2, s.drop_first().drop_first()) == Some(Ok::<T, Error>(v)));
    assert(outcome_of(p, 1, s.drop_first()) == outcome_of(p, 2, s.drop_first().drop_first()));
    assert(outcome_of(p, 0, s) == outcome_of(p, 1, s.drop_first()));
    let t = seq![Err::<T, Error>(e1), Err(e2), Err(e3)];
    assert(t.drop_first().drop_first() =~= seq![Err::<T, Error>(e3)]);
    assert(t.drop_first() =~= seq![Err::<T, Error>(e2), Err(e3)]);
    assert(outcome_of(p, 2, t.drop_first().drop_first()) == Some(Err::<T, Error>(exhausted(e3))));
    assert(outcome_of(p, 1, t.drop_first()) == outcome_of(p, 2, t.drop_first().drop_first()));
    assert(outcome_of(p, 0, t) == outcome_of(p, 1, t.drop_first()));
}

/// For any policy: an operation that fails fewer times than the attempts
/// allow and then succeeds ends in that success.
pub proof fn lemma_success_within_budget<T>(p: RetryPolicy, failures: nat, errors: Seq<Error>, v: T)
    requires
        failures + errors.len() < p.max_attempts,
    ensures
        outcome_of(p, failures, errors.map_values(|e: Error| Err::<T, Error>(e)).push(Ok(v)))
            == Some(Ok::<T, Error>(v)),
    decreases errors.len(),
{
    let s = errors.map_values(|e: Error| Err::<T, Error>(e)).push(Ok(v));
    if errors.len() > 0 {
        let rest = errors.drop_first();
        assert(s.drop_first() =~= rest.map_values(|e: Error| Err::<T, Error>(e)).push(Ok(v)));
        lemma_success_within_budget(p, failures + 1, rest, v);
    }
}

/// For any policy: an operation that fails on every attempt the policy
/// allows ends in `ExhaustedRetries` carrying the last failure.
pub proof fn lemma_exhausted_at_budget<T>(p: RetryPolicy, failures: nat, errors: Seq<Error>)
    requires
        errors.len() > 0,
        failures + errors.len() == p.max_attempts,
    ensures
        outcome_of(p, failures, errors.map_values(|e: Error| Err::<T, Error>(e))) == Some(
            Err::<T, Error>(exhausted(errors.last())),
        ),
    decreases errors.len(),
{
    let s = errors.map_values(|e: Error| Err::<T, Error>(e));
    if errors.len() > 1 {
        let rest = errors.drop_first();
        assert(s.drop_first() =~= rest.map_values(|e: Error| Err::<T, Error>(e)));
        assert(rest.last() == errors.last());
        lemma_exhausted_at_budget::<T>(p, failures + 1, rest);
    }
}

} // verus!
