use engenho_kubelet::backoff::{
    decide, decide_start, delay_for, max_delay, reset_after, BackoffDecision, StartFailed,
    StartHeld, StartLedger,
};
use engenho_kubelet::time::{Duration, Instant, TestClock};

#[allow(non_snake_case)]
fn S(secs: u64) -> Duration {
    Duration::from_secs(secs)
}

fn at(secs: u64) -> Instant {
    Instant::after_start(S(1_000 + secs))
}

#[test]
fn the_first_restart_is_immediate() {
    assert_eq!(delay_for(0), Duration::zero());
    assert_eq!(decide(0, S(0), S(1)), BackoffDecision::Restart);
}

#[test]
fn the_curve_is_upstreams_ten_seconds_doubling_to_five_minutes() {
    assert_eq!(delay_for(1), S(10));
    assert_eq!(delay_for(2), S(20));
    assert_eq!(delay_for(3), S(40));
    assert_eq!(delay_for(4), S(80));
    assert_eq!(delay_for(5), S(160));
    assert_eq!(delay_for(6), max_delay());
    assert_eq!(delay_for(7), max_delay());
    assert_eq!(max_delay(), S(300));
}

#[test]
fn a_large_restart_count_saturates_rather_than_overflowing() {
    for n in [30u32, 31, 32, 33, 1_000, u32::MAX] {
        assert_eq!(delay_for(n), max_delay(), "restart_count {n} must cap");
    }
}

#[test]
fn waiting_reports_crashloopbackoff_verbatim() {
    let d = decide(3, S(1), S(1));
    assert_eq!(d.waiting_reason(), Some("CrashLoopBackOff"));
    assert_eq!(BackoffDecision::Restart.waiting_reason(), None);
}

#[test]
fn the_remaining_time_is_reported_not_just_the_fact_of_waiting() {
    match decide(2, S(5), S(1)) {
        BackoffDecision::Wait { remaining } => assert_eq!(remaining, S(15)),
        other => panic!("expected a wait, got {other:?}"),
    }
    assert_eq!(decide(2, S(20), S(1)), BackoffDecision::Restart);
    assert_eq!(decide(2, S(21), S(1)), BackoffDecision::Restart);
}

#[test]
fn a_container_that_stayed_up_long_enough_is_forgiven() {
    assert_eq!(decide(10, Duration::zero(), reset_after()), BackoffDecision::Restart);
    let short = Duration { nanos: reset_after().nanos - S(1).nanos };
    assert!(matches!(decide(10, Duration::zero(), short), BackoffDecision::Wait { .. }));
}

#[test]
fn the_measured_incident_would_now_be_visible() {
    let d = decide(160, S(1), S(180));
    assert_eq!(d.waiting_reason(), Some("CrashLoopBackOff"));
    assert!(matches!(d, BackoffDecision::Wait { .. }));
}

#[test]
fn the_first_start_attempt_is_immediate() {
    assert_eq!(decide_start(0, S(0)), BackoffDecision::Restart);
}

#[test]
fn a_failed_start_defers_the_next_attempt_on_the_upstream_curve() {
    assert_eq!(decide_start(1, S(0)), BackoffDecision::Wait { remaining: S(10) });
    assert_eq!(decide_start(1, S(10)), BackoffDecision::Restart);
    assert_eq!(decide_start(2, S(0)), BackoffDecision::Wait { remaining: S(20) });
    assert_eq!(decide_start(3, S(0)), BackoffDecision::Wait { remaining: S(40) });
}

#[test]
fn a_permanently_failing_start_costs_a_handful_of_attempts_a_minute() {
    let mut failures = 0u32;
    let mut since = S(0);
    let mut attempts = 0;
    for _ in 0..120 {
        if decide_start(failures, since) == BackoffDecision::Restart {
            attempts += 1;
            failures += 1;
            since = S(0);
        }
        since = Duration { nanos: since.nanos + Duration::from_millis(500).nanos };
    }
    assert!(
        (2..=4).contains(&attempts),
        "expected a handful of attempts in a minute, got {attempts}"
    );
}

#[test]
fn a_start_penalty_caps_rather_than_growing_forever() {
    assert_eq!(delay_for(u32::MAX), max_delay());
    assert_eq!(
        decide_start(u32::MAX, max_delay()),
        BackoffDecision::Restart,
        "a capped penalty still expires; backoff never becomes give-up"
    );
}

#[test]
fn a_container_with_no_failed_start_is_always_permitted() {
    let ledger = StartLedger::new();
    assert!(ledger.permit("default/p", "app", at(0)).is_ok());
}

#[test]
fn a_failed_start_holds_that_container_and_no_other() {
    let mut ledger = StartLedger::new();
    let permit = ledger.permit("default/p", "app", at(0)).unwrap();
    let failed = ledger.failed(permit);
    assert_eq!(failed, StartFailed { consecutive_failures: 1, next_attempt_in: S(10) });
    assert_eq!(
        ledger.permit("default/p", "app", at(3)).unwrap_err(),
        StartHeld { remaining: S(7), consecutive_failures: 1 }
    );
    assert!(ledger.permit("default/p", "sidecar", at(0)).is_ok());
    assert!(ledger.permit("default/q", "app", at(0)).is_ok());
    assert!(ledger.permit("default/p", "app", at(10)).is_ok());
}

#[test]
fn a_successful_start_clears_the_penalty() {
    let mut ledger = StartLedger::new();
    for n in 0..4u64 {
        let permit = ledger.permit("default/p", "app", at(1_000 * n)).unwrap();
        let _ = ledger.failed(permit);
    }
    let permit = ledger.permit("default/p", "app", at(10_000)).unwrap();
    ledger.succeeded(permit);
    let permit = ledger.permit("default/p", "app", at(10_001)).unwrap();
    assert_eq!(ledger.failed(permit).next_attempt_in, S(10));
}

#[test]
fn a_start_that_always_fails_is_attempted_at_most_sixteen_times_an_hour() {
    let mut ledger = StartLedger::new();
    let mut attempts = Vec::new();
    for second in 0..3_600u64 {
        if let Ok(permit) = ledger.permit("default/p", "app", at(second)) {
            attempts.push(second);
            let _ = ledger.failed(permit);
        }
    }
    let first: Vec<u64> = attempts.iter().copied().take(8).collect();
    assert!(
        attempts.len() <= 16,
        "at most 16 attempts in an hour, got {} (first at {first:?})",
        attempts.len()
    );
    assert!(
        attempts.last().is_some_and(|last| *last >= 3_600 - 300),
        "the cap is a ceiling on the wait, never a stop: last attempt at {:?}",
        attempts.last()
    );
}

#[test]
fn a_pod_that_is_gone_takes_its_penalties_with_it() {
    let mut ledger = StartLedger::new();
    for pod in ["default/gone", "default/kept"] {
        let permit = ledger.permit(pod, "app", at(0)).unwrap();
        let _ = ledger.failed(permit);
    }
    let before = ledger.permit("default/kept", "app", at(3)).unwrap_err();
    ledger.retain_pods(|pod: &str| pod == "default/kept");
    assert!(ledger.permit("default/gone", "app", at(0)).is_ok());
    assert!(ledger.permit("default/kept", "app", at(0)).is_err());
    let after = ledger.permit("default/kept", "app", at(3)).unwrap_err();
    assert_eq!(after.remaining, before.remaining);
    assert_eq!(after.consecutive_failures, before.consecutive_failures);
    assert!(ledger.permit("default/other", "app", at(0)).is_ok());
    ledger.retain_pods(|pod: &str| {
        assert_eq!(pod, "default/kept", "nothing is kept for any other");
        false
    });
    assert!(ledger.permit("default/kept", "app", at(0)).is_ok());
}

#[test]
fn a_clock_moves_only_when_it_is_moved() {
    let mut clock = TestClock::new(at(0));
    assert_eq!(clock.now(), at(0));
    clock.advance(S(7));
    assert_eq!(clock.now(), at(7));
    assert_eq!(clock.now().saturating_duration_since(at(0)), S(7));
    assert_eq!(at(0).saturating_duration_since(clock.now()), Duration::zero());
}
