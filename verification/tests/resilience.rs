use capto::resilience::{backoff_delays, BreakerConfig, CircuitBreaker};
use std::time::Duration;

/// A monotonic clock reading, in milliseconds, standing for "now".
const NOW: u64 = 1_000_000;

fn ten_ms_ago() -> u64 {
    NOW - 10
}

#[test]
fn opens_after_max_failures() {
    let mut b = CircuitBreaker::new(BreakerConfig {
        max_failures: 2,
        cooldown_ms: 5_000,
    });
    assert!(!b.is_open());
    b.on_failure(NOW);
    assert!(!b.is_open(), "one failure below budget");
    b.on_failure(NOW);
    assert!(b.is_open(), "budget exhausted opens breaker");
    assert!(!b.allow(NOW), "fails fast while open");
}

#[test]
fn reopens_after_cooldown_via_probe() {
    let mut b = CircuitBreaker::new(BreakerConfig {
        max_failures: 1,
        cooldown_ms: 50,
    });
    b.on_failure(NOW);
    assert!(b.is_open());
    // Not yet cooled down -> still refused.
    assert!(!b.allow(NOW));
    // After cooldown we probe (half-open).
    let after = NOW + 100;
    assert!(b.allow(after));
    // A failed probe re-opens.
    b.on_failure(after);
    assert!(b.is_open());
    // A successful probe resets to closed.
    let after2 = NOW + 100;
    b.on_success();
    assert!(!b.is_open());
    assert!(b.allow(after2), "closed breaker allows calls");
}

#[test]
fn success_resets_failure_count() {
    let mut b = CircuitBreaker::new(BreakerConfig {
        max_failures: 3,
        cooldown_ms: 5_000,
    });
    b.on_failure(NOW);
    b.on_failure(ten_ms_ago());
    b.on_success();
    b.on_failure(NOW);
    b.on_failure(NOW);
    assert!(!b.is_open(), "two failures after reset stay below budget");
}

#[test]
fn backoff_delays_are_exponential() {
    let d = backoff_delays(3);
    assert_eq!(d.len(), 3);
    assert_eq!(d[0], Duration::from_millis(250));
    assert_eq!(d[1], Duration::from_millis(500));
    assert_eq!(d[2], Duration::from_millis(1000));
    assert_eq!(backoff_delays(0).len(), 0);
}

#[test]
fn default_config_is_three_failures_five_seconds() {
    let cfg = BreakerConfig::default();
    assert_eq!(cfg.max_failures, 3);
    assert_eq!(cfg.cooldown_ms, 5_000);
}

#[test]
fn probe_allowed_exactly_at_cooldown_and_clock_going_back_is_refused() {
    let mut b = CircuitBreaker::new(BreakerConfig {
        max_failures: 1,
        cooldown_ms: 50,
    });
    b.on_failure(NOW);
    assert!(!b.allow(NOW + 49));
    assert!(b.allow(NOW + 50));
    // A reading before the failure counts as no time elapsed.
    assert!(!b.allow(NOW - 1000));
}

#[test]
fn longest_backoff_schedule_doubles_to_the_end() {
    let d = backoff_delays(57);
    assert_eq!(d.len(), 57);
    assert_eq!(d[56], Duration::from_millis(250u64 << 56));
}

#[test]
fn open_state_follows_failures_since_last_success() {
    let mut b = CircuitBreaker::new(BreakerConfig { max_failures: 3, cooldown_ms: 100 });
    for t in 0..5u64 {
        b.on_failure(t);
        assert_eq!(b.failure_count(), (t + 1) as u32);
        assert_eq!(b.is_open(), t + 1 >= 3);
    }
    b.on_success();
    assert_eq!(b.failure_count(), 0);
    assert!(!b.is_open());
    b.on_failure(10);
    b.on_failure(11);
    assert_eq!(b.failure_count(), 2);
    assert!(!b.is_open(), "two failures after a success stay below budget");
    assert!(b.allow(11));
    b.on_failure(12);
    assert!(b.is_open());
}
