use segment_pipeline::errors::{FetchError, PipelineError};
use segment_pipeline::retry::{
    pow2_u64, replay_retry, RetryDecision, RetryState, MANIFEST_MAX_RETRIES, SEGMENT_MAX_RETRIES,
};
use segment_pipeline::scheduler::{Scheduler, SchedulerAction, CONCURRENCY_LIMIT};

#[test]
fn backoff_delays_are_exact_powers_of_two() {
    assert_eq!(pow2_u64(0), 1);
    assert_eq!(pow2_u64(1), 2);
    assert_eq!(pow2_u64(3), 8);
    assert_eq!(pow2_u64(12), 4096);
    assert_eq!(pow2_u64(63), 1u64 << 63);
}

#[test]
fn default_retry_ceilings() {
    assert_eq!(MANIFEST_MAX_RETRIES, 3);
    assert_eq!(SEGMENT_MAX_RETRIES, 12);
}

#[test]
fn retry_decisions_grow_exponentially_then_give_up() {
    // The exponential delay is the delay actually granted to the caller,
    // not merely a number to log: the decision carries it.
    let mut st = RetryState::new(3);
    assert_eq!(st.on_failure(), RetryDecision::RetryAfter(1));
    assert_eq!(st.on_failure(), RetryDecision::RetryAfter(2));
    assert_eq!(st.on_failure(), RetryDecision::RetryAfter(4));
    assert_eq!(st.on_failure(), RetryDecision::GiveUp);
    assert_eq!(st.on_failure(), RetryDecision::GiveUp);
}

#[test]
fn fetch_that_fails_then_succeeds_within_budget_is_a_success() {
    // Two failures, then a success: k = 2 < max_retries = 3.
    let outcomes = vec![
        Err(FetchError::Transport),
        Err(FetchError::HttpStatus(500)),
        Ok(()),
        Ok(()),
    ];
    assert_eq!(replay_retry(&outcomes, 3), Ok(()));
}

#[test]
fn fetch_that_succeeds_on_the_last_attempt_is_a_success() {
    let outcomes = vec![
        Err(FetchError::Transport),
        Err(FetchError::Transport),
        Err(FetchError::Transport),
        Ok(()),
    ];
    assert_eq!(replay_retry(&outcomes, 3), Ok(()));
}

#[test]
fn fetch_that_exhausts_its_budget_surfaces_the_last_error() {
    let outcomes = vec![
        Err(FetchError::Transport),
        Err(FetchError::HttpStatus(500)),
        Err(FetchError::HttpStatus(502)),
        Err(FetchError::HttpStatus(504)),
        Ok(()),
    ];
    // max_retries + 1 == 4 attempts all fail; the fifth outcome is never reached.
    assert_eq!(replay_retry(&outcomes, 3), Err(FetchError::HttpStatus(504)));
}

#[test]
fn scheduler_never_exceeds_the_concurrency_limit() {
    assert_eq!(CONCURRENCY_LIMIT, 10);
    let total = 25;
    let limit = 3;
    let mut s = Scheduler::new(total, limit);
    let mut launched = Vec::new();
    loop {
        match s.next_action() {
            SchedulerAction::Launch(i) => {
                launched.push(i);
                s.on_launched();
                assert!(s.in_flight <= limit);
            }
            SchedulerAction::Drain => {
                s.on_task_finished(Ok(()));
            }
            SchedulerAction::Finish => break,
            SchedulerAction::Abort(_) => panic!("no task failed"),
        }
    }
    assert_eq!(s.completed, total);
    assert_eq!(launched, (0..total).collect::<Vec<usize>>());
}

#[test]
fn scheduler_stops_launching_after_a_failure_and_drains() {
    let total = 8;
    let limit = 4;
    let mut s = Scheduler::new(total, limit);
    let mut finished = 0usize;
    let mut launched_after_failure = false;
    let mut failed = false;
    let result = loop {
        match s.next_action() {
            SchedulerAction::Launch(_) => {
                if failed {
                    launched_after_failure = true;
                }
                s.on_launched();
            }
            SchedulerAction::Drain => {
                finished += 1;
                if finished == 2 {
                    failed = true;
                    s.on_task_finished(Err(FetchError::HttpStatus(500)));
                } else {
                    s.on_task_finished(Ok(()));
                }
            }
            SchedulerAction::Finish => panic!("a task failed; the run must not finish"),
            SchedulerAction::Abort(e) => break e,
        }
    };
    assert!(!launched_after_failure);
    assert_eq!(s.in_flight, 0);
    assert_eq!(
        result,
        PipelineError::SegmentDownload(FetchError::HttpStatus(500))
    );
}

#[test]
fn scheduler_keeps_the_first_failure() {
    let mut s = Scheduler::new(2, 2);
    s.on_launched();
    s.on_launched();
    s.on_task_finished(Err(FetchError::Transport));
    s.on_task_finished(Err(FetchError::HttpStatus(500)));
    match s.next_action() {
        SchedulerAction::Abort(e) => {
            assert_eq!(e, PipelineError::SegmentDownload(FetchError::Transport));
        }
        _ => panic!("expected the drained scheduler to abort"),
    }
}

#[test]
fn completed_count_grows_by_one_per_success() {
    let mut s = Scheduler::new(3, 2);
    s.on_launched();
    s.on_launched();
    assert_eq!(s.completed, 0);
    s.on_task_finished(Ok(()));
    assert_eq!(s.completed, 1);
    s.on_task_finished(Ok(()));
    assert_eq!(s.completed, 2);
    s.on_launched();
    s.on_task_finished(Ok(()));
    assert_eq!(s.completed, 3);
}
