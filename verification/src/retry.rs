//! Retry policy of the delivery client: bounded attempts with exponential
//! backoff.
//!
//! The client invokes an operation; on failure it either gives up, when the
//! attempts are used up, or sleeps and tries again. The decisions are made
//! here; the caller performs the operation and the sleep.

use vstd::arithmetic::power2::{
    lemma2_to64, lemma2_to64_rest, lemma_pow2_strictly_increases, lemma_pow2_unfold, pow2,
};
use vstd::prelude::*;

verus! {

/// What the client does after an attempt.
#[derive(Debug, Clone, Copy, PartialEq, Eq, Structural)]
pub enum RetryAction {
    /// The attempt succeeded: return success.
    Succeed,
    /// The attempt failed and no attempt is left: return its error.
    GiveUp,
    /// The attempt failed: sleep for `secs` seconds, then try again.
    Backoff { secs: u64 },
}

/// What follows an attempt, in mathematical terms.
pub enum Decision {
    Succeed,
    GiveUp,
    Backoff { secs: nat },
}

impl RetryAction {
    /// The decision that this action stands for.
    pub open spec fn view(self) -> Decision {
        match self {
            RetryAction::Succeed => Decision::Succeed,
            RetryAction::GiveUp => Decision::GiveUp,
            RetryAction::Backoff { secs } => Decision::Backoff { secs: secs as nat },
        }
    }
}

/// Seconds to sleep after failed attempt number `attempt` (counted from 1):
/// 1, 2, 4, 8, ...
pub open spec fn backoff_secs(attempt: nat) -> nat
    recommends
        attempt >= 1,
{
    pow2((attempt - 1) as nat)
}

/// The decision after attempt number `attempt` (counted from 1) of at most
/// `max_attempts`.
pub open spec fn decide(attempt: nat, max_attempts: nat, succeeded: bool) -> Decision {
    if succeeded {
        Decision::Succeed
    } else if attempt >= max_attempts {
        Decision::GiveUp
    } else {
        Decision::Backoff { secs: backoff_secs(attempt) }
    }
}

/// How a whole call ends.
pub struct Outcome {
    /// How often the operation was invoked.
    pub invocations: nat,
    /// Whether the call returned success.
    pub succeeded: bool,
    /// Seconds slept between the attempts, in all.
    pub slept_secs: nat,
}

/// A whole call, after `made` failed attempts and `slept` seconds of sleep:
/// `script(i)` says whether invocation `i` of the operation (counted from 0)
/// succeeds.
pub open spec fn run_from(
    script: spec_fn(nat) -> bool,
    max_attempts: nat,
    made: nat,
    slept: nat,
) -> Outcome
    decreases max_attempts - made,
{
    let attempt = made + 1;
    match decide(attempt, max_attempts, script(made)) {
        Decision::Succeed => Outcome { invocations: attempt, succeeded: true, slept_secs: slept },
        Decision::GiveUp => Outcome { invocations: attempt, succeeded: false, slept_secs: slept },
        Decision::Backoff { secs } => run_from(script, max_attempts, attempt, slept + secs),
    }
}

/// A whole call of the client on an operation that behaves as `script` says.
pub open spec fn run(script: spec_fn(nat) -> bool, max_attempts: nat) -> Outcome {
    run_from(script, max_attempts, 0, 0)
}

/// Progress of one call of the client.
pub struct RetryState {
    max_attempts: u32,
    made: u32,
    finished: bool,
}

impl RetryState {
    /// The bound on the attempts that the call was started with.
    pub closed spec fn max_attempts(&self) -> nat {
        self.max_attempts as nat
    }

    /// Attempts made so far.
    pub closed spec fn made(&self) -> nat {
        self.made as nat
    }

    /// Whether the call has ended.
    pub closed spec fn finished(&self) -> bool {
        self.finished
    }

    /// While the call runs, an attempt is still left; the first one always is.
    pub closed spec fn wf(&self) -> bool {
        &&& !self.finished ==> (self.made == 0 || self.made < self.max_attempts)
        &&& self.finished ==> self.made >= 1
    }

    /// Starts a call that makes at most `max_attempts` attempts. Each call
    /// counts its attempts afresh.
    pub fn new(max_attempts: u32) -> (state: RetryState)
        ensures
            state.wf(),
            state.max_attempts() == max_attempts,
            state.made() == 0,
            !state.finished(),
    {
        RetryState { max_attempts, made: 0, finished: false }
    }

    /// Whether the call has ended.
    pub fn is_finished(&self) -> (finished: bool)
        ensures
            finished == self.finished(),
    {
        self.finished
    }

    /// Attempts made so far.
    pub fn attempts(&self) -> (made: u32)
        ensures
            made == self.made(),
    {
        self.made
    }

    /// The backoff after the next attempt, should it fail, fits in 64 bits.
    pub open spec fn backoff_fits(&self) -> bool {
        self.made() + 1 < self.max_attempts() ==> self.made() < 64
    }

    /// Records the outcome of the attempt just made and decides what follows.
    pub fn record(&mut self, succeeded: bool) -> (action: RetryAction)
        requires
            old(self).wf(),
            !old(self).finished(),
            !succeeded ==> old(self).backoff_fits(),
        ensures
            final(self).wf(),
            final(self).max_attempts() == old(self).max_attempts(),
            final(self).made() == old(self).made() + 1,
            action@ == decide(old(self).made() + 1, old(self).max_attempts(), succeeded),
            final(self).finished() == !(action is Backoff),
    {
        self.made = self.made + 1;
        if succeeded {
            self.finished = true;
            RetryAction::Succeed
        } else if self.made >= self.max_attempts {
            self.finished = true;
            RetryAction::GiveUp
        } else {
            RetryAction::Backoff { secs: backoff_for(self.made) }
        }
    }
}

/// Seconds to sleep after failed attempt number `attempt` (counted from 1).
pub fn backoff_for(attempt: u32) -> (secs: u64)
    requires
        1 <= attempt <= 64,
    ensures
        secs == backoff_secs(attempt as nat),
{
    let mut secs: u64 = 1;
    let mut done: u32 = 1;
    proof {
        lemma2_to64();
    }
    while done < attempt
        invariant
            1 <= done <= attempt <= 64,
            secs == pow2((done - 1) as nat),
        decreases attempt - done,
    {
        proof {
            lemma_pow2_unfold(done as nat);
            if done < 63 {
                lemma_pow2_strictly_increases(done as nat, 63);
            }
            lemma2_to64();
            lemma2_to64_rest();
        }
        secs = secs * 2;
        done = done + 1;
    }
    secs
}

/// With at least one attempt allowed, an operation that always fails is
/// invoked exactly `max_attempts` times, and the call returns an error.
pub proof fn lemma_always_failing(script: spec_fn(nat) -> bool, max_attempts: nat)
    requires
        max_attempts >= 1,
        forall|i: nat| !#[trigger] script(i),
    ensures
        run(script, max_attempts).invocations == max_attempts,
        !run(script, max_attempts).succeeded,
{
    lemma_failing_from(script, max_attempts, 0, 0);
}

/// An operation that fails `failures` times, fewer than the attempts
/// allowed, and then succeeds is invoked exactly `failures + 1` times, and
/// the call returns success.
pub proof fn lemma_succeeds_after_failures(
    script: spec_fn(nat) -> bool,
    max_attempts: nat,
    failures: nat,
)
    requires
        failures < max_attempts,
        forall|i: nat| i < failures ==> !#[trigger] script(i),
        script(failures),
    ensures
        run(script, max_attempts).invocations == failures + 1,
        run(script, max_attempts).succeeded,
{
    lemma2_to64();
    lemma_succeeding_from(script, max_attempts, failures, 0, 0);
}

/// Before attempt number `k + 1` the client has slept `2^k - 1` seconds in
/// all: the backoffs are 1, 2, 4, ... seconds.
pub proof fn lemma_sleep_before_success(
    script: spec_fn(nat) -> bool,
    max_attempts: nat,
    failures: nat,
)
    requires
        failures < max_attempts,
        forall|i: nat| i < failures ==> !#[trigger] script(i),
        script(failures),
    ensures
        run(script, max_attempts).slept_secs == pow2(failures) - 1,
{
    lemma2_to64();
    lemma_succeeding_from(script, max_attempts, failures, 0, 0);
}

proof fn lemma_failing_from(script: spec_fn(nat) -> bool, max_attempts: nat, made: nat, slept: nat)
    requires
        made < max_attempts,
        forall|i: nat| !#[trigger] script(i),
    ensures
        run_from(script, max_attempts, made, slept).invocations == max_attempts,
        !run_from(script, max_attempts, made, slept).succeeded,
    decreases max_attempts - made,
{
    if made + 1 < max_attempts {
        lemma_failing_from(script, max_attempts, made + 1, slept + backoff_secs(made + 1));
    }
}

proof fn lemma_succeeding_from(
    script: spec_fn(nat) -> bool,
    max_attempts: nat,
    failures: nat,
    made: nat,
    slept: nat,
)
    requires
        made <= failures < max_attempts,
        forall|i: nat| i < failures ==> !#[trigger] script(i),
        script(failures),
        slept == pow2(made) - 1,
    ensures
        run_from(script, max_attempts, made, slept).invocations == failures + 1,
        run_from(script, max_attempts, made, slept).succeeded,
        run_from(script, max_attempts, made, slept).slept_secs == pow2(failures) - 1,
    decreases failures - made,
{
    if made < failures {
        lemma_pow2_unfold(made + 1);
        lemma_succeeding_from(
            script,
            max_attempts,
            failures,
            made + 1,
            slept + backoff_secs(made + 1),
        );
    }
}

} // verus!
