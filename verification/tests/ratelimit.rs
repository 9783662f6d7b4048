use kiln_gateway::config::ApiKeyConfig;
use kiln_gateway::config::AuthConfig;
use kiln_gateway::ratelimit::Bucket;
use kiln_gateway::ratelimit::KeyLimiter;
use kiln_gateway::ratelimit::RateLimiter;

const SECOND: u64 = 1_000_000_000;
const T0: u64 = 5 * SECOND;

fn config(name: &str, rpm: Option<u32>, tpm: Option<u32>) -> AuthConfig {
    AuthConfig {
        admin_token_hash: None,
        api_keys: vec![ApiKeyConfig {
            name: name.to_string(),
            key_hash: "unused".to_string(),
            rpm,
            tpm,
        }],
    }
}

fn limiter(rpm: Option<u32>, tpm: Option<u32>) -> KeyLimiter {
    let mut limits = RateLimiter::from_config(&config("k", rpm, tpm), T0);
    let handle = limits.handle("k").expect("key has limits");
    limits.keys.remove(handle.0)
}

#[test]
fn no_handle_for_unlimited_or_unknown_keys() {
    let limits = RateLimiter::from_config(&config("free", None, None), T0);
    assert!(limits.handle("free").is_none());
    assert!(limits.handle("nobody").is_none());
}

#[test]
fn rpm_bucket_denies_past_limit_and_refills_on_schedule() {
    let mut limiter = limiter(Some(2), None);
    assert!(limiter.take_request_at(T0).is_ok());
    assert!(limiter.take_request_at(T0).is_ok());
    let denied = limiter
        .take_request_at(T0)
        .expect_err("third request in the window must be denied");
    // 2/min = 1 token per 30s from an empty bucket.
    assert_eq!(denied.retry_after_secs, 30);
    assert!(!denied.exceeds_capacity);
    // One second before the refill: still denied.
    assert!(limiter.take_request_at(T0 + 29 * SECOND).is_err());
    // At the advertised Retry-After: admitted again.
    assert!(limiter.take_request_at(T0 + 30 * SECOND).is_ok());
}

#[test]
fn rpm_only_key_never_blocks_token_reservations() {
    let mut limiter = limiter(Some(1), None);
    let reservation = limiter
        .reserve_tokens_at(1_000_000, T0)
        .expect("no tpm limit configured");
    assert!(reservation.is_none());
}

#[test]
fn tpm_reserve_settle_refunds_only_unused() {
    let mut limiter = limiter(None, Some(100));
    let mut reservation = limiter
        .reserve_tokens_at(80, T0)
        .expect("fits the fresh bucket")
        .expect("tpm limit configured");
    // 80 held: a 30-token reservation no longer fits.
    assert!(limiter.reserve_tokens_at(30, T0).is_err());
    // Actual usage 10: 70 refunded, 90 available again.
    reservation.settle(&mut limiter, 10);
    assert!(limiter.reserve_tokens_at(90, T0).is_ok());
}

#[test]
fn settle_is_idempotent_and_capped_at_capacity() {
    let mut limiter = limiter(None, Some(100));
    let mut reservation = limiter
        .reserve_tokens_at(80, T0)
        .expect("fits")
        .expect("tpm limit configured");
    reservation.settle(&mut limiter, 0);
    reservation.settle(&mut limiter, 0); // a second settle must not refund twice
    // Exactly the full capacity is back: no more, no less.
    assert!(limiter.reserve_tokens_at(100, T0).is_ok());
    assert!(limiter.reserve_tokens_at(1, T0).is_err());
}

#[test]
fn reservation_larger_than_capacity_flagged_and_consumes_nothing() {
    let mut limiter = limiter(None, Some(100));
    let denied = limiter
        .reserve_tokens_at(150, T0)
        .expect_err("cannot ever fit");
    assert!(denied.exceeds_capacity);
    // The failed attempt took nothing: the whole bucket is still there.
    assert!(limiter.reserve_tokens_at(100, T0).is_ok());
}

#[test]
fn concurrent_rpm_burst_admits_exactly_the_limit() {
    let mut limiter = limiter(Some(8), None);
    let mut admitted = 0;
    for _ in 0..32 {
        if limiter.take_request_at(T0).is_ok() {
            admitted += 1;
        }
    }
    assert_eq!(admitted, 8, "burst must admit exactly the rpm limit");
}

#[test]
fn concurrent_tpm_reservations_cannot_overcommit() {
    let mut limiter = limiter(None, Some(400));
    let mut won = 0;
    for _ in 0..2 {
        if limiter.reserve_tokens_at(330, T0).is_ok() {
            won += 1;
        }
    }
    assert_eq!(won, 1, "330 + 330 > 400: exactly one reservation may win");
}

#[test]
fn buckets_refill_continuously_up_to_capacity() {
    let mut bucket = Bucket::new(60, 0);
    assert!(bucket.try_take_at(60, 0).is_ok());
    assert_eq!(bucket.try_take_at(1, SECOND / 2).expect_err("half").retry_after_secs, 1);
    assert!(bucket.try_take_at(1, SECOND).is_ok());
    // An hour later it is full, not more.
    assert!(bucket.try_take_at(61, 3600 * SECOND).is_err());
    assert!(bucket.try_take_at(60, 3600 * SECOND).is_ok());
    // A clock that goes back refills nothing.
    assert!(bucket.try_take_at(1, 0).is_err());
    // A limit of nothing never refills.
    let mut never = Bucket::new(0, 0);
    let denied = never.try_take_at(1, SECOND).expect_err("nothing per minute");
    assert_eq!(denied.retry_after_secs, u64::MAX);
    assert!(denied.exceeds_capacity);
}

#[test]
fn clients_see_429s_with_retry_after() {
    let mut limits = RateLimiter::from_config(&config("team", Some(1), Some(100)), T0);
    let handle = limits.handle("team");
    assert!(limits.check_rpm(handle, T0).is_ok());
    let e = limits.check_rpm(handle, T0).expect_err("second request");
    assert_eq!(e.status, 429);
    assert_eq!(e.retry_after, Some(60));
    assert!(e.message.contains("team"), "{}", e.message);

    let held = limits
        .reserve_completion_tokens(handle, 40, 40, T0)
        .expect("fits");
    assert_eq!(held.expect("tpm limit").reserved, 80);
    let e = limits
        .reserve_completion_tokens(handle, 30, 20, T0)
        .expect_err("20 left");
    assert_eq!(e.status, 429);
    assert_eq!(e.retry_after, Some(18));
    // What can never fit has no retry time.
    let e = limits
        .reserve_completion_tokens(handle, 100, 1, T0)
        .expect_err("over the whole bucket");
    assert_eq!(e.retry_after, None);
    // A key without limits is never held up.
    assert!(limits.check_rpm(None, T0).is_ok());
    assert!(limits
        .reserve_completion_tokens(None, 9, 9, T0)
        .expect("free")
        .is_none());
}
