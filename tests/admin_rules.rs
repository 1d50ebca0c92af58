use clewdr_pool::admin::{
    admin_auth, cache_status_header, cache_verdict, check_mutation, classify_response,
    delete_status, prepare_submit, AdminError, CookieStatusQuery,
};
use clewdr_pool::credential::{CookieStatus, Reason};
use clewdr_pool::pool::PoolError;

fn secret() -> String {
    "SECRET-REDACTED".to_string()
}

#[test]
fn admin_token_must_match() {
    assert_eq!(admin_auth(&secret(), &secret()), Ok(()));
    assert_eq!(admin_auth(&secret(), &"wrong".to_string()), Err(AdminError::Unauthorized));
}

#[test]
fn unhealthy_persistence_blocks_mutations() {
    assert_eq!(check_mutation(&secret(), &secret(), Some(false)), Err(AdminError::PersistenceUnavailable));
    assert_eq!(check_mutation(&secret(), &secret(), Some(true)), Ok(()));
    assert_eq!(check_mutation(&secret(), &secret(), None), Ok(()));
    assert_eq!(check_mutation(&secret(), &"x".to_string(), Some(false)), Err(AdminError::Unauthorized));
}

#[test]
fn submit_requires_a_token_and_clears_cool_down() {
    let mut c = CookieStatus::new("tok".to_string());
    c.reset_time = Some(99);
    let ready = prepare_submit(&secret(), &secret(), None, c).unwrap();
    assert_eq!(ready.cookie, "tok");
    assert_eq!(ready.reset_time, None);
    let empty = CookieStatus::new(String::new());
    assert_eq!(prepare_submit(&secret(), &secret(), None, empty).unwrap_err(), AdminError::BadRequest);
    let c = CookieStatus::new("tok".to_string());
    assert_eq!(prepare_submit(&secret(), &secret(), Some(false), c).unwrap_err(), AdminError::PersistenceUnavailable);
    let c = CookieStatus::new("tok".to_string());
    assert_eq!(prepare_submit(&secret(), &"no".to_string(), None, c).unwrap_err(), AdminError::Unauthorized);
}

#[test]
fn error_status_codes() {
    assert_eq!(AdminError::NoCredentialAvailable.status_code(), 503);
    assert_eq!(AdminError::Unauthorized.status_code(), 401);
    assert_eq!(AdminError::BadRequest.status_code(), 400);
    assert_eq!(AdminError::PersistenceUnavailable.status_code(), 503);
    assert_eq!(AdminError::ActorCommunication.status_code(), 500);
    assert_eq!(AdminError::from_pool(PoolError::NoCookieAvailable), AdminError::NoCredentialAvailable);
    assert_eq!(AdminError::from_pool(PoolError::CookieNotFound), AdminError::ActorCommunication);
}

#[test]
fn delete_answers() {
    assert_eq!(delete_status(&Ok(())), 204);
    assert_eq!(delete_status(&Err(PoolError::CookieNotFound)), 500);
}

#[test]
fn status_cache_hits_unless_refreshed() {
    let v = cache_verdict(false, Some(10), 20);
    assert!(v.hit);
    assert_eq!(v.timestamp, 10);
    let v = cache_verdict(true, Some(10), 20);
    assert!(!v.hit);
    assert_eq!(v.timestamp, 20);
    let v = cache_verdict(false, None, 20);
    assert!(!v.hit);
    assert_eq!(v.timestamp, 20);
    assert_eq!(cache_status_header(true), "HIT");
    assert_eq!(cache_status_header(false), "MISS");
    assert!(!CookieStatusQuery::default().refresh);
}

#[test]
fn upstream_answers_are_classified() {
    assert_eq!(classify_response(200, None), Some(Reason::NormalPro));
    assert_eq!(classify_response(204, Some(5)), Some(Reason::NormalPro));
    assert_eq!(classify_response(429, Some(1234)), Some(Reason::TooManyRequest(1234)));
    assert_eq!(classify_response(429, None), Some(Reason::NormalPro));
    assert_eq!(classify_response(403, Some(77)), Some(Reason::Restricted(77)));
    assert_eq!(classify_response(403, None), Some(Reason::Disabled));
    assert_eq!(classify_response(401, None), Some(Reason::Banned));
    assert_eq!(classify_response(402, None), Some(Reason::Null));
    assert_eq!(classify_response(500, None), None);
    assert_eq!(classify_response(400, None), None);
}
