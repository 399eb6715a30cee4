use kk_slider::retry::{RetryPolicy, RetryStep};
use kk_slider::scheduler::{ResultOrder, Scheduler};
use kk_slider::Error;

/// Runs `op` under the retry decision; gives the number of invocations and
/// the outcome.
fn run_with_retry<T>(policy: &RetryPolicy, mut op: impl FnMut() -> Result<T, String>) -> (usize, Result<T, Vec<String>>) {
    let mut calls = 0;
    let mut retry = policy.start();
    loop {
        calls += 1;
        match retry.next(op()) {
            RetryStep::Again(r) => retry = r,
            RetryStep::Done(v) => return (calls, Ok(v)),
            RetryStep::GaveUp(errors) => return (calls, Err(errors)),
        }
    }
}

#[test]
fn always_failing_operation_is_tried_exactly_max_attempts_times() {
    for n in 1..=5usize {
        let policy = RetryPolicy::new(n).unwrap();
        let mut k = 0;
        let (calls, outcome) = run_with_retry::<()>(&policy, || {
            k += 1;
            Err(format!("failure {k}"))
        });
        assert_eq!(calls, n);
        let errors = outcome.unwrap_err();
        let expected: Vec<String> = (1..=n).map(|i| format!("failure {i}")).collect();
        assert_eq!(errors, expected);
    }
}

#[test]
fn zero_attempts_is_a_configuration_error() {
    assert!(matches!(RetryPolicy::new(0), Err(Error::ConfigError(_))));
    assert_eq!(RetryPolicy::new(3).unwrap().max_attempts(), 3);
}

#[test]
fn operation_recovering_after_k_failures_is_tried_k_plus_one_times() {
    let policy = RetryPolicy::new(4).unwrap();
    for k in 0..4usize {
        let mut seen = 0;
        let (calls, outcome) = run_with_retry(&policy, || {
            seen += 1;
            if seen <= k { Err("transient".to_string()) } else { Ok(seen * 10) }
        });
        assert_eq!(calls, k + 1);
        assert_eq!(outcome, Ok((k + 1) * 10));
    }
}

#[test]
fn retry_counts_attempts() {
    let policy = RetryPolicy::new(3).unwrap();
    let retry = policy.start::<String>();
    assert_eq!(retry.attempts(), 0);
    match retry.next::<()>(Err("x".to_string())) {
        RetryStep::Again(r) => assert_eq!(r.attempts(), 1),
        _ => panic!("a second attempt is due"),
    }
}

#[test]
fn scheduler_zero_limit_is_a_configuration_error() {
    assert!(matches!(Scheduler::<u32>::new(3, 0, ResultOrder::InputOrder), Err(Error::ConfigError(_))));
}

/// Drives a scheduler over `total` units, completing in flight units in a
/// scrambled order. Gives the largest number ever in flight and the results
/// in the order handed back.
fn drive(total: usize, limit: usize, order: ResultOrder) -> (usize, Vec<(usize, usize)>) {
    let mut s = Scheduler::new(total, limit, order).unwrap();
    let mut running: Vec<usize> = Vec::new();
    let mut out = Vec::new();
    let mut max_seen = 0;
    let mut seed: u64 = 12345;
    loop {
        while let Some(u) = s.next_unit() {
            running.push(u);
        }
        max_seen = max_seen.max(s.in_flight());
        assert_eq!(s.in_flight(), running.len());
        if running.is_empty() {
            break;
        }
        seed = seed.wrapping_mul(6364136223846793005).wrapping_add(1442695040888963407);
        let pick = (seed >> 33) as usize % running.len();
        let u = running.swap_remove(pick);
        out.extend(s.complete(u, u * 2));
    }
    assert_eq!(s.delivered(), total);
    (max_seen, out)
}

#[test]
fn never_more_than_limit_in_flight() {
    let (max_seen, out) = drive(1000, 10, ResultOrder::CompletionOrder);
    assert!(max_seen <= 10);
    assert_eq!(max_seen, 10);
    let mut units: Vec<usize> = out.iter().map(|p| p.0).collect();
    units.sort();
    assert_eq!(units, (0..1000).collect::<Vec<_>>());
    assert!(out.iter().all(|&(u, r)| r == 2 * u));
    let (max_ordered, _) = drive(1000, 10, ResultOrder::InputOrder);
    assert!(max_ordered <= 10);
}

#[test]
fn input_order_is_kept_whatever_the_completion_order() {
    let mut s = Scheduler::new(3, 3, ResultOrder::InputOrder).unwrap();
    assert_eq!(s.total(), 3);
    let a = s.next_unit().unwrap();
    let b = s.next_unit().unwrap();
    let c = s.next_unit().unwrap();
    assert_eq!((a, b, c), (0, 1, 2));
    assert_eq!(s.next_unit(), None);
    assert!(s.is_running(c) && !s.is_running(3));
    assert!(s.complete(c, "resultC").is_empty());
    assert!(!s.is_running(c));
    assert_eq!(s.complete(a, "resultA"), vec![(0, "resultA")]);
    assert_eq!(s.complete(b, "resultB"), vec![(1, "resultB"), (2, "resultC")]);
    let (_, out) = drive(50, 4, ResultOrder::InputOrder);
    assert_eq!(out, (0..50).map(|u| (u, 2 * u)).collect::<Vec<_>>());
}

#[test]
fn completion_order_hands_results_back_at_once() {
    let mut s = Scheduler::new(3, 2, ResultOrder::CompletionOrder).unwrap();
    assert_eq!(s.next_unit(), Some(0));
    assert_eq!(s.next_unit(), Some(1));
    assert_eq!(s.next_unit(), None);
    assert_eq!(s.complete(1, 'b'), vec![(1, 'b')]);
    assert_eq!(s.next_unit(), Some(2));
    assert_eq!(s.complete(2, 'c'), vec![(2, 'c')]);
    assert_eq!(s.complete(0, 'a'), vec![(0, 'a')]);
    assert_eq!(s.in_flight(), 0);
    assert_eq!(s.delivered(), 3);
}

#[test]
fn scheduler_with_no_units_starts_nothing() {
    let mut s = Scheduler::<()>::new(0, 5, ResultOrder::InputOrder).unwrap();
    assert_eq!(s.next_unit(), None);
    assert_eq!(s.delivered(), 0);
}

#[test]
fn stopped_scheduler_starts_nothing_but_finishes_in_flight_units() {
    let mut s = Scheduler::new(5, 2, ResultOrder::InputOrder).unwrap();
    assert_eq!(s.next_unit(), Some(0));
    assert_eq!(s.next_unit(), Some(1));
    s.stop();
    assert!(s.stopped());
    assert_eq!(s.complete(1, 'b'), vec![]);
    assert_eq!(s.next_unit(), None);
    assert_eq!(s.complete(0, 'a'), vec![(0, 'a'), (1, 'b')]);
    assert_eq!(s.next_unit(), None);
    assert_eq!(s.in_flight(), 0);
}
