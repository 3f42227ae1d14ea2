use file_gateway::errors::GuardError;
use file_gateway::rate::RateLimiter;

#[test]
fn ceiling_calls_admitted_then_next_rejected() {
    let mut limiter = RateLimiter::new();
    for i in 0..10u64 {
        assert!(limiter.check_rate_limit("op", i).is_ok());
    }
    let r = limiter.check_rate_limit("op", 50);
    assert!(matches!(r, Err(GuardError::RateLimitExceeded)));
    let r = limiter.check_rate_limit("op", 999);
    assert!(matches!(r, Err(GuardError::RateLimitExceeded)));
}

#[test]
fn rejected_call_leaves_no_stamp() {
    let mut limiter = RateLimiter::new();
    for _ in 0..10 {
        assert!(limiter.check_rate_limit("op", 0).is_ok());
    }
    assert!(limiter.check_rate_limit("op", 500).is_err());
    // Had the rejected call at 500 been recorded, this one would still be
    // over the ceiling; only the ten stamps at 0 count, and they have aged out.
    assert!(limiter.check_rate_limit("op", 1000).is_ok());
}

#[test]
fn stamp_exactly_one_window_old_is_purged() {
    let mut limiter = RateLimiter::new();
    for _ in 0..10 {
        assert!(limiter.check_rate_limit("op", 0).is_ok());
    }
    assert!(limiter.check_rate_limit("op", 999).is_err());
    assert!(limiter.check_rate_limit("op", 1000).is_ok());
}

#[test]
fn window_slides_rather_than_resets() {
    let mut limiter = RateLimiter::new();
    for i in 0..10u64 {
        assert!(limiter.check_rate_limit("op", i * 100).is_ok());
    }
    // At 1050 the stamp at 0 has aged out, so one slot is free again ...
    assert!(limiter.check_rate_limit("op", 1050).is_ok());
    // ... and is taken at once: at 1060 the nine stamps at 100..=900 plus the
    // one at 1050 fill the window.
    assert!(limiter.check_rate_limit("op", 1060).is_err());
}

#[test]
fn budgets_of_different_operations_are_independent() {
    let mut limiter = RateLimiter::new();
    for _ in 0..10 {
        assert!(limiter.check_rate_limit("first", 0).is_ok());
    }
    assert!(limiter.check_rate_limit("first", 0).is_err());
    for _ in 0..10 {
        assert!(limiter.check_rate_limit("second", 0).is_ok());
    }
    assert!(limiter.check_rate_limit("second", 1).is_err());
    assert!(limiter.check_rate_limit("first", 1).is_err());
}
