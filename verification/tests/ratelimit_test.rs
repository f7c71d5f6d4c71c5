use auth_core::ratelimit::RateLimiter;

#[test]
fn test_rate_limiter_counts_and_blocks() {
    let mut limiter = RateLimiter::new(2, 60);
    assert!(!limiter.check("ua:client", 0));
    assert!(!limiter.check("ua:client", 1));
    assert!(limiter.check("ua:client", 2));
    assert!(limiter.check("ua:client", 3));
    assert!(!limiter.check("ua:other", 3));
}

#[test]
fn test_rate_limiter_window_resets() {
    let mut limiter = RateLimiter::new(1, 60);
    assert!(!limiter.check("k", 0));
    assert!(limiter.check("k", 30));
    assert!(!limiter.check("k", 61));
    assert!(limiter.check("k", 62));
}

#[test]
fn test_rate_limit_key_shape() {
    let limiter = RateLimiter::new(5, 60);
    assert_eq!(limiter.get_rate_limit_key(Some("test-agent")), "ua:test-agent");
    assert_eq!(limiter.get_rate_limit_key(None), "unknown");
}
