use drhpotter::rate_limit::{RateLimiter, SourceIp};

fn v4(a: u8, b: u8, c: u8, d: u8) -> SourceIp {
    SourceIp::V4(u32::from_be_bytes([a, b, c, d]))
}

#[test]
fn test_rate_limiter_allows_initial() {
    let mut limiter = RateLimiter::new(5, 60);
    let ip = v4(127, 0, 0, 1);
    assert!(limiter.check_and_record(ip, 0));
}

#[test]
fn test_rate_limiter_blocks_excess() {
    let mut limiter = RateLimiter::new(3, 60);
    let ip = v4(192, 168, 1, 1);
    assert!(limiter.check_and_record(ip, 0));
    assert!(limiter.check_and_record(ip, 10));
    assert!(limiter.check_and_record(ip, 20));
    assert!(!limiter.check_and_record(ip, 30));
}

#[test]
fn test_rate_limiter_different_ips() {
    let mut limiter = RateLimiter::new(2, 60);
    let ip1 = v4(192, 168, 1, 1);
    let ip2 = v4(192, 168, 1, 2);
    assert!(limiter.check_and_record(ip1, 0));
    assert!(limiter.check_and_record(ip1, 0));
    assert!(!limiter.check_and_record(ip1, 0));
    assert!(limiter.check_and_record(ip2, 0));
}

#[test]
fn test_get_count() {
    let mut limiter = RateLimiter::new(10, 60);
    let ip = v4(10, 0, 0, 1);
    assert_eq!(limiter.get_count(ip), 0);
    limiter.check_and_record(ip, 0);
    assert_eq!(limiter.get_count(ip), 1);
    limiter.check_and_record(ip, 0);
    assert_eq!(limiter.get_count(ip), 2);
}

#[test]
fn window_elapses_and_count_resets() {
    let mut limiter = RateLimiter::new(2, 60);
    let ip = v4(198, 51, 100, 7);
    assert!(limiter.check_and_record(ip, 1_000));
    assert!(limiter.check_and_record(ip, 30_000));
    assert!(!limiter.check_and_record(ip, 60_999));
    assert_eq!(limiter.get_count(ip), 2);
    assert!(limiter.check_and_record(ip, 61_000));
    assert_eq!(limiter.get_count(ip), 1);
    assert!(limiter.check_and_record(ip, 61_500));
    assert!(!limiter.check_and_record(ip, 62_000));
}

#[test]
fn refusals_do_not_count() {
    let mut limiter = RateLimiter::new(1, 10);
    let ip = SourceIp::V6(1);
    assert!(limiter.check_and_record(ip, 0));
    for t in 1..5 {
        assert!(!limiter.check_and_record(ip, t * 100));
    }
    assert_eq!(limiter.get_count(ip), 1);
}

#[test]
fn v4_and_v6_addresses_are_apart() {
    let mut limiter = RateLimiter::new(1, 10);
    assert!(limiter.check_and_record(SourceIp::V4(1), 0));
    assert!(limiter.check_and_record(SourceIp::V6(1), 0));
    assert!(!limiter.check_and_record(SourceIp::V4(1), 0));
}

#[test]
fn a_clock_going_back_keeps_the_window_open() {
    let mut limiter = RateLimiter::new(1, 10);
    let ip = v4(10, 1, 1, 1);
    assert!(limiter.check_and_record(ip, 50_000));
    assert!(!limiter.check_and_record(ip, 1_000));
}

#[test]
fn clearing_forgets_every_address() {
    let mut limiter = RateLimiter::new(1, 60);
    let ip = v4(10, 2, 2, 2);
    assert!(limiter.check_and_record(ip, 0));
    assert!(!limiter.check_and_record(ip, 0));
    limiter.clear();
    assert_eq!(limiter.get_count(ip), 0);
    assert!(limiter.check_and_record(ip, 0));
}
