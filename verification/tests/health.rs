use web3_proxy::block::{BlockRef, Digest};
use web3_proxy::errors::ErrorKind;
use web3_proxy::upstream::{Health, HealthEvent, ThrottleOutcome, Upstream, DEFAULT_OVERSHOOT};

fn block(fill: u8, number: u64) -> BlockRef {
    BlockRef { hash: Digest::new([fill; 32]), number, parent_hash: Digest::new([0; 32]) }
}

#[test]
fn a_new_upstream_is_connecting_and_idle() {
    let u = Upstream::new("a".to_string(), 7, Some(9)).unwrap();
    assert_eq!(u.health, Health::Connecting);
    assert_eq!(u.inflight_count, 0);
    assert_eq!(u.soft_limit, 7);
    assert_eq!(u.hard_limit, Some(9));
    assert_eq!(u.overshoot, DEFAULT_OVERSHOOT);
    assert_eq!(u.head(), None);
    assert_eq!(u.limiter_request(), Some(9));
}

#[test]
fn an_upstream_without_capacity_is_rejected() {
    assert_eq!(Upstream::new("a".to_string(), 0, None), Err(ErrorKind::InvalidConfig));
}

#[test]
fn the_first_head_makes_an_upstream_healthy() {
    assert_eq!(Health::Connecting.step(HealthEvent::HeadObserved { fresh: true }), Health::Healthy);
    assert_eq!(Health::Connecting.step(HealthEvent::HeadObserved { fresh: false }), Health::Healthy);
    let mut u = Upstream::new("a".to_string(), 1, None).unwrap();
    u.observe_head(block(1, 1), 100, 100, 50);
    assert_eq!(u.health, Health::Healthy);
    assert_eq!(u.head(), Some(block(1, 1)));
    assert_eq!(u.last_head_at, Some(100));
}

#[test]
fn three_errors_in_a_row_degrade_a_healthy_upstream() {
    assert_eq!(Health::Healthy.step(HealthEvent::CallFailed { consecutive: 2 }), Health::Healthy);
    assert_eq!(Health::Healthy.step(HealthEvent::CallFailed { consecutive: 3 }), Health::Degraded);
    assert_eq!(
        Health::Connecting.step(HealthEvent::CallFailed { consecutive: 3 }),
        Health::Connecting
    );
    let mut u = Upstream::new("a".to_string(), 10, None).unwrap();
    u.observe_head(block(1, 1), 0, 0, 50);
    for now in 1..=2u64 {
        u.begin_send(ThrottleOutcome::Allowed).unwrap();
        u.end_send(true, now);
        assert_eq!(u.health, Health::Healthy);
    }
    u.begin_send(ThrottleOutcome::Allowed).unwrap();
    u.end_send(true, 3);
    assert_eq!(u.health, Health::Degraded);
    assert_eq!(u.consecutive_errors, 3);
    assert_eq!(u.last_error_at, Some(3));
}

#[test]
fn a_success_breaks_the_run_of_errors() {
    let mut u = Upstream::new("a".to_string(), 10, None).unwrap();
    u.observe_head(block(1, 1), 0, 0, 50);
    for _ in 0..2 {
        u.begin_send(ThrottleOutcome::Allowed).unwrap();
        u.end_send(true, 1);
    }
    u.begin_send(ThrottleOutcome::Allowed).unwrap();
    u.end_send(false, 2);
    assert_eq!(u.consecutive_errors, 0);
    u.begin_send(ThrottleOutcome::Allowed).unwrap();
    u.end_send(true, 3);
    assert_eq!(u.health, Health::Healthy);
    assert_eq!(u.consecutive_errors, 1);
}

#[test]
fn a_stale_head_degrades_and_a_fresh_one_recovers() {
    assert_eq!(Health::Healthy.step(HealthEvent::HeadStale), Health::Degraded);
    assert_eq!(Health::Degraded.step(HealthEvent::HeadObserved { fresh: false }), Health::Degraded);
    assert_eq!(Health::Degraded.step(HealthEvent::HeadObserved { fresh: true }), Health::Healthy);
    let mut u = Upstream::new("a".to_string(), 10, None).unwrap();
    u.observe_head(block(1, 1), 100, 100, 50);
    u.check_head_age(150, 50);
    assert_eq!(u.health, Health::Healthy);
    u.check_head_age(151, 50);
    assert_eq!(u.health, Health::Degraded);
    // an observation that is itself too old does not recover it
    u.observe_head(block(2, 2), 120, 200, 50);
    assert_eq!(u.health, Health::Degraded);
    u.observe_head(block(3, 3), 190, 200, 50);
    assert_eq!(u.health, Health::Healthy);
}

#[test]
fn shutdown_closes_for_good() {
    let events = [
        HealthEvent::HeadObserved { fresh: true },
        HealthEvent::CallFailed { consecutive: 1 },
        HealthEvent::HeadStale,
        HealthEvent::FellBehind,
        HealthEvent::Shutdown,
    ];
    for h in [Health::Connecting, Health::Healthy, Health::Degraded, Health::Closed] {
        assert_eq!(h.step(HealthEvent::Shutdown), Health::Closed);
    }
    for e in events {
        assert_eq!(Health::Closed.step(e), Health::Closed);
    }
    let mut u = Upstream::new("a".to_string(), 10, None).unwrap();
    u.observe_head(block(1, 1), 0, 0, 50);
    u.shutdown();
    assert_eq!(u.health, Health::Closed);
    assert_eq!(u.begin_send(ThrottleOutcome::Allowed), Err(ErrorKind::Canceled));
    u.observe_head(block(2, 2), 1, 1, 50);
    assert_eq!(u.head(), Some(block(1, 1)));
}

#[test]
fn falling_behind_degrades() {
    assert_eq!(Health::Healthy.step(HealthEvent::FellBehind), Health::Degraded);
    assert_eq!(Health::Connecting.step(HealthEvent::FellBehind), Health::Degraded);
    let mut u = Upstream::new("a".to_string(), 10, None).unwrap();
    u.observe_head(block(1, 1), 0, 0, 50);
    u.mark_behind();
    assert_eq!(u.health, Health::Degraded);
}

#[test]
fn the_hard_limit_refuses_with_capacity() {
    let mut u = Upstream::new("a".to_string(), 10, Some(2)).unwrap();
    assert_eq!(u.begin_send(ThrottleOutcome::Allowed), Ok(()));
    assert_eq!(u.begin_send(ThrottleOutcome::Allowed), Ok(()));
    assert_eq!(u.begin_send(ThrottleOutcome::Allowed), Err(ErrorKind::Capacity));
    assert_eq!(u.inflight_count, 2);
    u.end_send(false, 1);
    assert_eq!(u.inflight_count, 1);
    assert_eq!(u.begin_send(ThrottleOutcome::Allowed), Ok(()));
}

#[test]
fn the_limiter_refuses_with_capacity_and_its_failure_permits() {
    let mut u = Upstream::new("a".to_string(), 10, Some(5)).unwrap();
    assert_eq!(u.begin_send(ThrottleOutcome::RetryAt(99)), Err(ErrorKind::Capacity));
    assert_eq!(u.begin_send(ThrottleOutcome::RetryNever), Err(ErrorKind::Capacity));
    assert_eq!(u.inflight_count, 0);
    assert_eq!(u.begin_send(ThrottleOutcome::Error), Ok(()));
    assert_eq!(u.inflight_count, 1);
    assert!(ThrottleOutcome::Allowed.is_permitted());
    assert!(ThrottleOutcome::Error.is_permitted());
    assert!(!ThrottleOutcome::RetryNever.is_permitted());
    assert!(!ThrottleOutcome::RetryAt(0).is_permitted());
}

#[test]
fn inflight_stays_within_the_soft_limit_times_the_overshoot() {
    let mut u = Upstream::new("a".to_string(), 3, None).unwrap();
    let bound = 3 * DEFAULT_OVERSHOOT;
    for _ in 0..bound {
        assert_eq!(u.begin_send(ThrottleOutcome::Allowed), Ok(()));
    }
    assert_eq!(u.begin_send(ThrottleOutcome::Allowed), Err(ErrorKind::Capacity));
    assert_eq!(u.inflight_count, bound);
}
