//! Decisions of the admin interface and of the request pipeline that do not
//! need the network: the admin checks, the HTTP status of each error, the
//! verdict of the status cache, and the classification of upstream answers.

use vstd::prelude::*;
use crate::credential::{CookieStatus, Reason};
use crate::pool::PoolError;

verus! {

/// Query of the credential list: `refresh` bypasses the status cache.
#[derive(Debug, Clone, Copy, PartialEq, Eq, Structural, Default)]
pub struct CookieStatusQuery {
    pub refresh: bool,
}

/// Errors surfaced to callers of the proxy.
#[derive(Debug, Clone, Copy, PartialEq, Eq, Structural)]
pub enum AdminError {
    /// No credential is in rotation.
    NoCredentialAvailable,
    /// The admin token does not match.
    Unauthorized,
    /// The credential payload is malformed.
    BadRequest,
    /// The persistence backend reports unhealthy.
    PersistenceUnavailable,
    /// The pool actor could not be reached, or the credential was not found.
    ActorCommunication,
}

/// The HTTP status of each error.
pub open spec fn status_of(e: AdminError) -> u16 {
    match e {
        AdminError::NoCredentialAvailable => 503,
        AdminError::Unauthorized => 401,
        AdminError::BadRequest => 400,
        AdminError::PersistenceUnavailable => 503,
        AdminError::ActorCommunication => 500,
    }
}

impl AdminError {
    /// The HTTP status code the error surfaces as.
    pub fn status_code(&self) -> (r: u16)
        ensures
            r == status_of(*self),
    {
        match self {
            AdminError::NoCredentialAvailable => 503,
            AdminError::Unauthorized => 401,
            AdminError::BadRequest => 400,
            AdminError::PersistenceUnavailable => 503,
            AdminError::ActorCommunication => 500,
        }
    }

    /// The error a pool error surfaces as.
    pub fn from_pool(e: PoolError) -> (r: AdminError)
        ensures
            e == PoolError::NoCookieAvailable ==> r == AdminError::NoCredentialAvailable,
            e == PoolError::CookieNotFound ==> r == AdminError::ActorCommunication,
    {
        match e {
            PoolError::NoCookieAvailable => AdminError::NoCredentialAvailable,
            PoolError::CookieNotFound => AdminError::ActorCommunication,
        }
    }
}

/// Admin authentication: the bearer token must equal the configured secret.
pub fn admin_auth(secret: &String, bearer: &String) -> (r: Result<(), AdminError>)
    ensures
        r is Ok <==> bearer@ == secret@,
        r is Err ==> r->Err_0 == AdminError::Unauthorized,
{
    if *bearer == *secret {
        Ok(())
    } else {
        Err(AdminError::Unauthorized)
    }
}

/// The checks before a mutating admin operation: authentication first, then
/// the persistence backend's health, when one is configured (`None` when not).
pub fn check_mutation(secret: &String, bearer: &String, persistence_healthy: Option<bool>) -> (r:
    Result<(), AdminError>)
    ensures
        bearer@ != secret@ ==> r == Err::<(), AdminError>(AdminError::Unauthorized),
        bearer@ == secret@ && persistence_healthy == Some(false) ==> r == Err::<(), AdminError>(
            AdminError::PersistenceUnavailable,
        ),
        bearer@ == secret@ && persistence_healthy != Some(false) ==> r is Ok,
{
    admin_auth(secret, bearer)?;
    if persistence_healthy == Some(false) {
        return Err(AdminError::PersistenceUnavailable);
    }
    Ok(())
}

/// Submit through the admin interface: passes those checks, then that the token
/// is not empty, and hands back the credential with its cool-down cleared,
/// ready for the pool.
pub fn prepare_submit(
    secret: &String,
    bearer: &String,
    persistence_healthy: Option<bool>,
    cookie: CookieStatus,
) -> (r: Result<CookieStatus, AdminError>)
    ensures
        bearer@ != secret@ ==> r == Err::<CookieStatus, AdminError>(AdminError::Unauthorized),
        bearer@ == secret@ && persistence_healthy == Some(false) ==> r == Err::<
            CookieStatus,
            AdminError,
        >(AdminError::PersistenceUnavailable),
        bearer@ == secret@ && persistence_healthy != Some(false) && cookie.cookie@.len() == 0
            ==> r == Err::<CookieStatus, AdminError>(AdminError::BadRequest),
        bearer@ == secret@ && persistence_healthy != Some(false) && cookie.cookie@.len() > 0
            ==> r == Ok::<CookieStatus, AdminError>(CookieStatus { reset_time: None, ..cookie }),
{
    check_mutation(secret, bearer, persistence_healthy)?;
    if cookie.cookie.as_str().is_empty() {
        return Err(AdminError::BadRequest);
    }
    let mut c = cookie;
    c.reset_time = None;
    Ok(c)
}

/// The HTTP status of a Delete through the admin interface: 204 when the
/// credential was removed, 500 when it was in no collection.
pub fn delete_status(r: &Result<(), PoolError>) -> (code: u16)
    ensures
        r is Ok ==> code == 204,
        r is Err ==> code == 500,
{
    match r {
        Ok(()) => 204,
        Err(_) => 500,
    }
}

/// Whether the credential list is served from the status cache, and the time
/// stamp the answer carries.
pub struct CacheVerdict {
    pub hit: bool,
    pub timestamp: u64,
}

/// The status cache answers unless a refresh is asked for; a fresh answer is
/// stamped `now`, a cached one keeps the stamp it was stored with.
pub fn cache_verdict(refresh: bool, cached_timestamp: Option<u64>, now: u64) -> (r: CacheVerdict)
    ensures
        r.hit == (!refresh && cached_timestamp is Some),
        r.hit ==> r.timestamp == cached_timestamp->0,
        !r.hit ==> r.timestamp == now,
{
    match cached_timestamp {
        Some(t) if !refresh => CacheVerdict { hit: true, timestamp: t },
        _ => CacheVerdict { hit: false, timestamp: now },
    }
}

/// The value of the cache status header.
pub fn cache_status_header(hit: bool) -> (r: &'static str)
    ensures
        hit ==> r@ == "HIT"@,
        !hit ==> r@ == "MISS"@,
{
    if hit {
        "HIT"
    } else {
        "MISS"
    }
}

/// The verdict on a credential from the status of an upstream answer and the
/// reset time it announced, if any.
pub open spec fn classification(status: u16, reset_at: Option<i64>) -> Option<Reason> {
    if 200 <= status < 300 {
        Some(Reason::NormalPro)
    } else if status == 429 {
        match reset_at {
            Some(t) => Some(Reason::TooManyRequest(t)),
            None => Some(Reason::NormalPro),
        }
    } else if status == 403 {
        match reset_at {
            Some(t) => Some(Reason::Restricted(t)),
            None => Some(Reason::Disabled),
        }
    } else if status == 401 {
        Some(Reason::Banned)
    } else if status == 402 {
        Some(Reason::Null)
    } else {
        None
    }
}

/// Classifies an upstream answer for the Return of its credential: a success
/// keeps it; a rate limit with a reset time cools it down (without one, it is
/// kept unchanged); a restriction cools it down when a reset time is given and
/// retires it otherwise; an authentication failure (401) retires it as
/// banned; the other fatal answer, 402 (the account may not be billed),
/// retires it for an unknown fatal reason. Any other answer (a server error,
/// or a fault of the request itself) leaves it unclassified.
pub fn classify_response(status: u16, reset_at: Option<i64>) -> (r: Option<Reason>)
    ensures
        r == classification(status, reset_at),
{
    if 200 <= status && status < 300 {
        Some(Reason::NormalPro)
    } else if status == 429 {
        match reset_at {
            Some(t) => Some(Reason::TooManyRequest(t)),
            None => Some(Reason::NormalPro),
        }
    } else if status == 403 {
        match reset_at {
            Some(t) => Some(Reason::Restricted(t)),
            None => Some(Reason::Disabled),
        }
    } else if status == 401 {
        Some(Reason::Banned)
    } else if status == 402 {
        Some(Reason::Null)
    } else {
        None
    }
}

} // verus!
