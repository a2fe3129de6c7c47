
use bookmark_hub::rate_limit::{AuthRateLimitKey, AuthRateLimiter};

#[test]
fn blocks_after_max_attempts() {
    let mut limiter = AuthRateLimiter::new(2, 60);
    let key = AuthRateLimitKey::new("sign-in", "127.0.0.1".into(), "alice".into());

    assert!(limiter.check(key.clone()).allowed);
    assert!(limiter.check(key.clone()).allowed);

    let decision = limiter.check(key);
    assert!(!decision.allowed);
    assert!(decision.retry_after_secs > 0);
}

#[test]
fn reset_clears_window() {
    let mut limiter = AuthRateLimiter::new(1, 60);
    let key = AuthRateLimitKey::new("sign-in", "127.0.0.1".into(), "alice".into());

    assert!(limiter.check(key.clone()).allowed);
    assert!(!limiter.check(key.clone()).allowed);

    limiter.reset(&key);

    assert!(limiter.check(key).allowed);
}

#[test]
fn refused_attempt_reports_seconds_left_in_window() {
    let mut limiter = AuthRateLimiter::new(1, 60);
    let key = AuthRateLimitKey::new("sign-in", "10.0.0.1".into(), "bob".into());
    let d = limiter.check_at(key.clone(), 0);
    assert!(d.allowed);
    assert_eq!(d.retry_after_secs, 0);
    let d = limiter.check_at(key.clone(), 15_000_000_000);
    assert!(!d.allowed);
    assert_eq!(d.retry_after_secs, 45);
    let d = limiter.check_at(key.clone(), 59_500_000_000);
    assert!(!d.allowed);
    assert_eq!(d.retry_after_secs, 1);
}

#[test]
fn window_expires_after_its_length() {
    let mut limiter = AuthRateLimiter::new(1, 60);
    let key = AuthRateLimitKey::new("sign-in", "10.0.0.1".into(), "bob".into());
    assert!(limiter.check_at(key.clone(), 0).allowed);
    assert!(!limiter.check_at(key.clone(), 59_999_999_999).allowed);
    assert!(limiter.check_at(key.clone(), 60_000_000_000).allowed);
}

#[test]
fn keys_are_counted_separately() {
    let mut limiter = AuthRateLimiter::new(1, 60);
    let alice = AuthRateLimitKey::new("sign-in", "10.0.0.1".into(), "alice".into());
    let bob = AuthRateLimitKey::new("sign-in", "10.0.0.1".into(), "bob".into());
    let alice_up = AuthRateLimitKey::new("sign-up", "10.0.0.1".into(), "alice".into());
    assert!(limiter.check_at(alice.clone(), 5).allowed);
    assert!(limiter.check_at(bob.clone(), 6).allowed);
    assert!(limiter.check_at(alice_up.clone(), 7).allowed);
    assert!(!limiter.check_at(alice.clone(), 8).allowed);
    assert!(!limiter.check_at(bob, 9).allowed);
    limiter.reset(&alice);
    assert!(limiter.check_at(alice, 10).allowed);
}

#[test]
fn zero_attempts_refuses_everything() {
    let mut limiter = AuthRateLimiter::new(0, 60);
    let key = AuthRateLimitKey::new("sign-in", "10.0.0.1".into(), "carol".into());
    let d = limiter.check_at(key, 0);
    assert!(!d.allowed);
    assert_eq!(d.retry_after_secs, 60);
}
