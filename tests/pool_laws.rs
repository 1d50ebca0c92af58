use clewdr_pool::credential::{CookieStatus, Reason, UsageWindow, WEEKLY_WINDOW_SECS};
use clewdr_pool::pool::{CookieActorState, PoolError};

const NOW: i64 = 1_700_000_000;

fn cookie(token: &str) -> CookieStatus {
    CookieStatus::new(token.to_string())
}

fn tokens<'a, I: IntoIterator<Item = &'a CookieStatus>>(v: I) -> Vec<String> {
    v.into_iter().map(|c| c.cookie.clone()).collect()
}

fn sample_pool() -> CookieActorState {
    let mut pool = CookieActorState::new();
    for t in ["A", "B", "C", "D"] {
        assert!(pool.accept(cookie(t)));
    }
    pool.collect(cookie("C"), Some(Reason::Restricted(NOW + 500)));
    pool.collect(cookie("D"), Some(Reason::Banned));
    pool
}

#[test]
fn every_token_in_one_collection() {
    let mut pool = sample_pool();
    pool.collect(cookie("C"), Some(Reason::Disabled));
    pool.collect(cookie("A"), Some(Reason::TooManyRequest(NOW + 5)));
    pool.collect(cookie("D"), Some(Reason::TooManyRequest(NOW + 5)));
    let status = pool.report();
    let mut all = tokens(&status.valid);
    all.extend(tokens(&status.exhausted));
    all.extend(status.invalid.iter().map(|u| u.cookie.clone()));
    all.sort();
    assert_eq!(all, vec!["A", "B", "C", "D"]);
    assert_eq!(tokens(&status.valid), vec!["B"]);
    assert_eq!(tokens(&status.exhausted), vec!["A"]);
}

#[test]
fn cooling_credentials_after_tick_cool_past_now() {
    let mut pool = sample_pool();
    pool.collect(cookie("A"), Some(Reason::TooManyRequest(NOW + 10)));
    pool.check_reset(NOW + 100);
    for c in pool.exhausted.iter() {
        assert!(c.reset_time.unwrap() > NOW + 100);
    }
    assert_eq!(tokens(&pool.exhausted), vec!["C"]);
    assert_eq!(tokens(&pool.valid), vec!["B", "A"]);
}

#[test]
fn round_robin_permutation_from_head() {
    let mut pool = CookieActorState::new();
    for t in ["P", "Q", "R", "S", "T"] {
        pool.accept(cookie(t));
    }
    let got: Vec<String> = (0..12).map(|_| pool.dispatch(None, NOW).unwrap().cookie).collect();
    let want = ["P", "Q", "R", "S", "T", "P", "Q", "R", "S", "T", "P", "Q"];
    assert_eq!(got, want);
    assert_eq!(tokens(&pool.valid), vec!["R", "S", "T", "P", "Q"]);
}

#[test]
fn submit_then_delete_restores_pool() {
    let mut pool = sample_pool();
    pool.dispatch(Some(3), NOW).unwrap();
    let before = pool.report();
    assert!(pool.accept(cookie("E")));
    assert_eq!(pool.delete(cookie("E")), Ok(()));
    let after = pool.report();
    assert_eq!(tokens(&before.valid), tokens(&after.valid));
    assert_eq!(tokens(&before.exhausted), tokens(&after.exhausted));
    assert_eq!(before.exhausted[0].reset_time, after.exhausted[0].reset_time);
    assert_eq!(before.invalid.len(), after.invalid.len());
    assert_eq!(before.invalid[0].reason, after.invalid[0].reason);
}

#[test]
fn rate_limit_twice_leaves_one_cooling_copy() {
    let mut pool = sample_pool();
    let mut a = cookie("A");
    a.session.usage = 70;
    pool.collect(a.clone(), Some(Reason::TooManyRequest(NOW + 60)));
    pool.collect(a, Some(Reason::TooManyRequest(NOW + 60)));
    let copies: Vec<&CookieStatus> = pool.exhausted.iter().filter(|c| c.cookie == "A").collect();
    assert_eq!(copies.len(), 1);
    assert_eq!(copies[0].reset_time, Some(NOW + 60));
    assert_eq!(copies[0].session.usage, 0);
    assert!(pool.valid.iter().all(|c| c.cookie != "A"));
}

#[test]
fn later_cool_down_time_wins() {
    let mut pool = sample_pool();
    pool.collect(cookie("C"), Some(Reason::TooManyRequest(NOW + 900)));
    assert_eq!(pool.exhausted.len(), 1);
    assert_eq!(pool.exhausted[0].reset_time, Some(NOW + 900));
}

#[test]
fn promoted_credential_reached_within_rotation() {
    let mut pool = CookieActorState::new();
    for t in ["A", "B", "C"] {
        pool.accept(cookie(t));
    }
    pool.collect(cookie("B"), Some(Reason::TooManyRequest(NOW + 30)));
    pool.check_reset(NOW + 30);
    let n = pool.valid.len();
    assert_eq!(n, 3);
    let got: Vec<String> = (0..n).map(|_| pool.dispatch(None, NOW + 30).unwrap().cookie).collect();
    assert!(got.contains(&"B".to_string()));
    assert_eq!(got, vec!["A", "C", "B"]);
}

#[test]
fn affinity_holds_until_credential_leaves_rotation() {
    let mut pool = CookieActorState::new();
    for t in ["A", "B", "C"] {
        pool.accept(cookie(t));
    }
    pool.dispatch(None, NOW).unwrap();
    let pinned = pool.dispatch(Some(42), NOW).unwrap().cookie;
    assert_eq!(pinned, "B");
    for _ in 0..5 {
        assert_eq!(pool.dispatch(Some(42), NOW).unwrap().cookie, "B");
    }
    pool.collect(cookie("B"), Some(Reason::Restricted(NOW + 100)));
    let next = pool.dispatch(Some(42), NOW).unwrap().cookie;
    assert_ne!(next, "B");
    assert_eq!(pool.dispatch(Some(42), NOW).unwrap().cookie, next);
}

#[test]
fn delete_reports_missing_credential() {
    let mut pool = sample_pool();
    assert_eq!(pool.delete(cookie("Z")), Err(PoolError::CookieNotFound));
    assert_eq!(pool.delete(cookie("D")), Ok(()));
    assert_eq!(pool.delete(cookie("C")), Ok(()));
    assert_eq!(pool.delete(cookie("A")), Ok(()));
    assert!(pool.invalid.is_empty() && pool.exhausted.is_empty());
    assert_eq!(tokens(&pool.valid), vec!["B"]);
}

#[test]
fn return_without_reason_overwrites_fields() {
    let mut pool = sample_pool();
    let mut a = cookie("A");
    a.weekly = UsageWindow { usage: 33, resets_at: Some(NOW + WEEKLY_WINDOW_SECS), has_reset: Some(true) };
    a.reset_time = Some(NOW + 5);
    assert!(pool.collect(a, None));
    assert_eq!(pool.valid[0].weekly.usage, 33);
    assert_eq!(pool.valid[0].reset_time, None);
    assert!(!pool.collect(cookie("Z"), None));
    assert!(!pool.collect(cookie("A"), Some(Reason::NormalPro)));
}

#[test]
fn retired_credential_stays_retired() {
    let mut pool = sample_pool();
    assert!(!pool.collect(cookie("D"), Some(Reason::TooManyRequest(NOW + 5))));
    assert!(!pool.collect(cookie("D"), Some(Reason::Null)));
    assert_eq!(pool.invalid.len(), 1);
    assert_eq!(pool.invalid[0].reason, Reason::Banned);
    assert!(pool.exhausted.iter().all(|c| c.cookie != "D"));
}

#[test]
fn cooling_credential_can_be_retired() {
    let mut pool = sample_pool();
    assert!(pool.collect(cookie("C"), Some(Reason::Disabled)));
    assert!(pool.exhausted.is_empty());
    assert_eq!(pool.invalid.len(), 2);
    assert_eq!(pool.invalid[1].reason, Reason::Disabled);
}

#[test]
fn weekly_window_advances_by_seven_days() {
    let mut c = cookie("W");
    c.weekly_opus = UsageWindow { usage: 99, resets_at: Some(NOW), has_reset: Some(true) };
    c.weekly_sonnet = UsageWindow { usage: 12, resets_at: Some(NOW), has_reset: Some(false) };
    assert!(c.refresh_windows(NOW));
    assert_eq!(c.weekly_opus.usage, 0);
    assert_eq!(c.weekly_opus.resets_at, Some(NOW + 7 * 24 * 60 * 60));
    assert_eq!(c.weekly_sonnet.usage, 12);
    assert!(!c.refresh_windows(NOW));
}

#[test]
fn window_reset_time_saturates() {
    let mut w = UsageWindow { usage: 5, resets_at: Some(i64::MAX - 10), has_reset: Some(true) };
    assert!(w.reset_if_due(100, i64::MAX));
    assert_eq!(w.resets_at, Some(i64::MAX));
    assert_eq!(w.usage, 0);
}

#[test]
fn persisted_state_rehydrates() {
    let mut cooling = cookie("B");
    cooling.reset_time = Some(NOW + 50);
    let saved = clewdr_pool::credential::UselessCookie::new("C".to_string(), Reason::Free);
    let pool = CookieActorState::from_config(
        vec![cookie("A"), cooling, cookie("C"), cookie("A")],
        vec![saved],
    );
    assert_eq!(tokens(&pool.valid), vec!["A"]);
    assert_eq!(tokens(&pool.exhausted), vec!["B"]);
    assert_eq!(pool.invalid.len(), 1);
    let persisted = pool.save();
    assert_eq!(tokens(&persisted.cookie_array), vec!["A", "B"]);
    assert_eq!(persisted.wasted_cookie[0].cookie, "C");
}

#[test]
fn promotion_keeps_tokens() {
    let mut pool = CookieActorState::new();
    for t in ["A", "B", "C", "D"] {
        pool.accept(cookie(t));
    }
    pool.collect(cookie("A"), Some(Reason::TooManyRequest(NOW)));
    pool.collect(cookie("C"), Some(Reason::Restricted(NOW + 1)));
    pool.reset(NOW);
    let mut all = tokens(&pool.valid);
    all.extend(tokens(&pool.exhausted));
    all.sort();
    assert_eq!(all, vec!["A", "B", "C", "D"]);
    assert_eq!(tokens(&pool.valid), vec!["B", "D", "A"]);
    assert_eq!(tokens(&pool.exhausted), vec!["C"]);
}
