//! The retrying fetcher's decision logic.
//!
//! A fetch is attempted up to `max_retries + 1` times. After the failure of
//! attempt `k` (0-based), if `k < max_retries` the fetch is retried after a
//! delay of `2^k` time units; otherwise it gives up with the last observed
//! error. The caller performs the attempts and the waits; the state machine
//! here decides, and `retry_result` states what the whole loop returns for
//! any sequence of attempt outcomes.

use vstd::arithmetic::power2::{
    lemma2_to64, lemma_pow2_strictly_increases, lemma_pow2_unfold, pow2,
};
use vstd::prelude::*;

use crate::errors::FetchError;

verus! {

/// Retry ceiling for manifest fetches.
pub const MANIFEST_MAX_RETRIES: u64 = 3;

/// Retry ceiling for segment fetches.
pub const SEGMENT_MAX_RETRIES: u64 = 12;

/// Computes `2^e`, the backoff delay in time units after the failure of
/// 0-based attempt `e`.
pub fn pow2_u64(e: u64) -> (r: u64)
    requires
        e < 64,
    ensures
        r == pow2(e as nat),
{
    let mut r: u64 = 1;
    let mut i: u64 = 0;
    proof {
        lemma2_to64();
    }
    while i < e
        invariant
            i <= e < 64,
            r == pow2(i as nat),
        decreases e - i,
    {
        proof {
            lemma_pow2_unfold((i + 1) as nat);
            lemma_pow2_strictly_increases((i + 1) as nat, 64nat);
            lemma2_to64();
        }
        r = r * 2;
        i = i + 1;
    }
    r
}

/// The retrying fetcher's state: how many attempts have failed so far, out
/// of a budget of `max_retries + 1` total attempts.
pub struct RetryState {
    /// The retry ceiling this fetch was started with.
    pub max_retries: u64,
    /// Failed attempts so far; also the 0-based index of the next attempt.
    pub failures: u64,
}

/// What to do after a failed attempt.
#[derive(Clone, Copy, Debug, PartialEq, Eq, Structural)]
pub enum RetryDecision {
    /// Wait this many time units, then attempt again.
    RetryAfter(u64),
    /// The budget is spent: surface the last observed error.
    GiveUp,
}

impl RetryState {
    /// The state is within its budget, and the budget is small enough for
    /// the backoff delay to be computed exactly.
    pub open spec fn wf(self) -> bool {
        self.failures <= self.max_retries && self.max_retries <= 63
    }

    /// A fresh fetch: no attempt has failed yet.
    pub fn new(max_retries: u64) -> (s: RetryState)
        requires
            max_retries <= 63,
        ensures
            s.wf(),
            s.max_retries == max_retries,
            s.failures == 0,
    {
        RetryState { max_retries, failures: 0 }
    }

    /// Records the failure of the current attempt and decides whether to
    /// retry. A retry is granted exactly when attempts remain, and waits
    /// `2^k` time units where `k` is the 0-based index of the attempt that
    /// just failed.
    pub fn on_failure(&mut self) -> (d: RetryDecision)
        requires
            old(self).wf(),
        ensures
            final(self).wf(),
            final(self).max_retries == old(self).max_retries,
            old(self).failures < old(self).max_retries ==> (final(self).failures == old(
                self,
            ).failures + 1 && d == RetryDecision::RetryAfter(
                pow2(old(self).failures as nat) as u64,
            )),
            old(self).failures >= old(self).max_retries ==> (final(self).failures == old(
                self,
            ).failures && d == RetryDecision::GiveUp),
    {
        if self.failures < self.max_retries {
            let delay = pow2_u64(self.failures);
            proof {
                lemma_pow2_strictly_increases(self.failures as nat, 64nat);
                lemma2_to64();
            }
            self.failures = self.failures + 1;
            RetryDecision::RetryAfter(delay)
        } else {
            RetryDecision::GiveUp
        }
    }
}

/// What the retry loop returns from attempt `k` on, given the outcome of
/// each attempt: the first success within the budget, else the outcome of
/// the last attempt.
pub open spec fn retry_from(
    outcomes: Seq<Result<(), FetchError>>,
    max_retries: nat,
    k: nat,
) -> Result<(), FetchError>
    recommends
        k <= max_retries,
        max_retries < outcomes.len(),
    decreases max_retries - k when k <= max_retries
{
    if outcomes[k as int] is Ok {
        Ok(())
    } else if k < max_retries {
        retry_from(outcomes, max_retries, k + 1)
    } else {
        outcomes[k as int]
    }
}

/// What a whole fetch returns, given the outcome of each attempt.
pub open spec fn retry_result(
    outcomes: Seq<Result<(), FetchError>>,
    max_retries: nat,
) -> Result<(), FetchError> {
    retry_from(outcomes, max_retries, 0)
}

proof fn lemma_retry_from_success(
    outcomes: Seq<Result<(), FetchError>>,
    max_retries: nat,
    s: nat,
    k: nat,
)
    requires
        s <= k <= max_retries,
        max_retries < outcomes.len(),
        forall|j: int| s <= j < k ==> outcomes[j] is Err,
        outcomes[k as int] is Ok,
    ensures
        retry_from(outcomes, max_retries, s) == Ok::<(), FetchError>(()),
    decreases k - s,
{
    if s < k {
        lemma_retry_from_success(outcomes, max_retries, s + 1, k);
    }
}

/// A fetch whose first `k <= max_retries` attempts fail and whose attempt
/// `k` succeeds is a success: no error is surfaced.
pub proof fn lemma_retry_success_within_budget(
    outcomes: Seq<Result<(), FetchError>>,
    max_retries: nat,
    k: nat,
)
    requires
        k <= max_retries,
        max_retries < outcomes.len(),
        forall|j: int| 0 <= j < k ==> outcomes[j] is Err,
        outcomes[k as int] is Ok,
    ensures
        retry_result(outcomes, max_retries) == Ok::<(), FetchError>(()),
{
    lemma_retry_from_success(outcomes, max_retries, 0, k);
}

proof fn lemma_retry_from_exhaustion(
    outcomes: Seq<Result<(), FetchError>>,
    max_retries: nat,
    s: nat,
)
    requires
        s <= max_retries,
        max_retries < outcomes.len(),
        forall|j: int| s <= j <= max_retries ==> outcomes[j] is Err,
    ensures
        retry_from(outcomes, max_retries, s) == outcomes[max_retries as int],
    decreases max_retries - s,
{
    if s < max_retries {
        lemma_retry_from_exhaustion(outcomes, max_retries, s + 1);
    }
}

/// A fetch all of whose `max_retries + 1` attempts fail surfaces the last
/// observed error.
pub proof fn lemma_retry_exhaustion(outcomes: Seq<Result<(), FetchError>>, max_retries: nat)
    requires
        max_retries < outcomes.len(),
        forall|j: int| 0 <= j <= max_retries ==> outcomes[j] is Err,
    ensures
        retry_result(outcomes, max_retries) == outcomes[max_retries as int],
{
    lemma_retry_from_exhaustion(outcomes, max_retries, 0);
}

/// Drives the retry state machine over a given sequence of attempt
/// outcomes and returns what the fetch as a whole returns: the machine
/// implements `retry_result`.
pub fn replay_retry(outcomes: &Vec<Result<(), FetchError>>, max_retries: u64) -> (r: Result<
    (),
    FetchError,
>)
    requires
        max_retries <= 63,
        max_retries < outcomes@.len(),
    ensures
        r == retry_result(outcomes@, max_retries as nat),
{
    let mut st = RetryState::new(max_retries);
    loop
        invariant
            st.wf(),
            st.max_retries == max_retries,
            max_retries < outcomes@.len(),
            retry_result(outcomes@, max_retries as nat) == retry_from(
                outcomes@,
                max_retries as nat,
                st.failures as nat,
            ),
        decreases max_retries - st.failures,
    {
        let idx: usize = st.failures as usize;
        let o: Result<(), FetchError> = outcomes[idx];
        match o {
            Ok(()) => {
                return Ok(());
            },
            Err(e) => {
                match st.on_failure() {
                    RetryDecision::RetryAfter(_) => {
                    },
                    RetryDecision::GiveUp => {
                        return Err(e);
                    },
                }
            },
        }
    }
}

} // verus!
