use clewdr_pool::credential::{CookieStatus, Reason, UsageWindow, SESSION_WINDOW_SECS};
use clewdr_pool::pool::{CookieActorState, PoolError};

const NOW: i64 = 1_700_000_000;

fn cookie(token: &str) -> CookieStatus {
    CookieStatus::new(token.to_string())
}

fn pool_of(tokens: &[&str]) -> CookieActorState {
    let mut pool = CookieActorState::new();
    for t in tokens {
        assert!(pool.accept(cookie(t)));
    }
    pool
}

fn acquire(pool: &mut CookieActorState, hash: Option<u64>, now: i64) -> String {
    pool.dispatch(hash, now).expect("a credential").cookie
}

#[test]
fn round_robin_over_three_credentials() {
    let mut pool = pool_of(&["A", "B", "C"]);
    assert_eq!(acquire(&mut pool, None, NOW), "A");
    assert_eq!(acquire(&mut pool, None, NOW), "B");
    assert_eq!(acquire(&mut pool, None, NOW), "C");
    assert_eq!(acquire(&mut pool, None, NOW), "A");
}

#[test]
fn rate_limited_credential_cools_down_and_comes_back_after_tick() {
    let mut pool = pool_of(&["A", "B"]);
    let a = pool.dispatch(None, NOW).unwrap();
    assert_eq!(a.cookie, "A");
    assert!(pool.collect(a, Some(Reason::TooManyRequest(NOW + 60))));
    assert_eq!(acquire(&mut pool, None, NOW), "B");
    assert_eq!(acquire(&mut pool, None, NOW), "B");
    assert_eq!(pool.exhausted.len(), 1);
    assert_eq!(pool.exhausted[0].reset_time, Some(NOW + 60));
    pool.check_reset(NOW + 61);
    assert!(pool.exhausted.is_empty());
    assert_eq!(pool.valid.len(), 2);
    assert_eq!(pool.valid[1].cookie, "A");
    assert_eq!(pool.valid[1].reset_time, None);
    // A joined the back of the rotation: it is handed out within two calls.
    assert_eq!(acquire(&mut pool, None, NOW + 61), "B");
    assert_eq!(acquire(&mut pool, None, NOW + 61), "A");
}

#[test]
fn free_tier_credential_is_retired() {
    let mut pool = pool_of(&["A"]);
    assert!(pool.collect(cookie("A"), Some(Reason::Free)));
    assert_eq!(pool.dispatch(None, NOW).unwrap_err(), PoolError::NoCookieAvailable);
    let status = pool.report();
    assert!(status.valid.is_empty());
    assert!(status.exhausted.is_empty());
    assert_eq!(status.invalid.len(), 1);
    assert_eq!(status.invalid[0].cookie, "A");
    assert_eq!(status.invalid[0].reason, Reason::Free);
}

#[test]
fn fingerprint_pins_credential() {
    let mut pool = pool_of(&["A", "B", "C"]);
    assert_eq!(acquire(&mut pool, Some(7), NOW), "A");
    assert_eq!(acquire(&mut pool, Some(7), NOW), "A");
    assert_eq!(acquire(&mut pool, Some(9), NOW), "B");
    assert_eq!(acquire(&mut pool, Some(7), NOW), "A");
}

#[test]
fn duplicate_submit_is_rejected() {
    let mut pool = CookieActorState::new();
    assert!(pool.accept(cookie("A")));
    assert!(!pool.accept(cookie("A")));
    assert_eq!(pool.valid.len(), 1);
    assert_eq!(pool.valid[0].cookie, "A");
}

#[test]
fn due_session_window_expires_on_tick() {
    let mut pool = CookieActorState::new();
    let mut a = cookie("A");
    a.session = UsageWindow { usage: 80, resets_at: Some(NOW - 1), has_reset: Some(true) };
    a.weekly = UsageWindow { usage: 40, resets_at: Some(NOW + 100), has_reset: Some(true) };
    assert!(pool.accept(a));
    assert!(pool.check_reset(NOW));
    let a = &pool.valid[0];
    assert_eq!(a.session.usage, 0);
    assert_eq!(a.session.resets_at, Some(NOW - 1 + 5 * 60 * 60));
    assert_eq!(a.session.resets_at, Some(NOW - 1 + SESSION_WINDOW_SECS));
    assert_eq!(a.weekly.usage, 40);
    assert_eq!(a.weekly.resets_at, Some(NOW + 100));
}
