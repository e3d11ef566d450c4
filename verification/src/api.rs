//! How the HTTP services answer failures: a status code with the standard
//! error envelope, for data-layer errors, a missing database, and the token
//! checks in front of provisioning, sync and the agent endpoints.

use vstd::prelude::*;
use crate::client::{ApiError, HealthResponse};
use crate::repo::RepoError;
use crate::sync::spec_bearer;

verus! {

/// An error answer: the HTTP status and the error envelope.
pub type ApiErr = (u16, ApiError);

/// `e` is the answer `status` with code `code` and message `message`.
pub open spec fn is_api_err(e: ApiErr, status: u16, code: Seq<char>, message: Seq<char>) -> bool {
    e.0 == status && e.1.error@ == code && e.1.message@ == message
}

/// An error answer.
pub fn err(status: u16, code: &str, message: &str) -> (r: ApiErr)
    ensures
        is_api_err(r, status, code@, message@),
{
    (status, ApiError::new(code, String::from_str(message)))
}

/// Translate a data-layer error: 404 `not_found`, 409 `conflict` and 400
/// `invalid_reference` (carrying the database's message), and 500 `internal`
/// for anything else, whose detail is not exposed.
pub fn repo_err(e: RepoError) -> (r: ApiErr)
    ensures
        match e {
            RepoError::NotFound => is_api_err(r, 404, "not_found"@, "resource not found"@),
            RepoError::Conflict(m) => is_api_err(r, 409, "conflict"@, m@),
            RepoError::InvalidReference(m) => is_api_err(r, 400, "invalid_reference"@, m@),
            RepoError::Db(_) => is_api_err(r, 500, "internal"@, "database error"@),
        },
{
    match e {
        RepoError::NotFound => err(404, "not_found", "resource not found"),
        RepoError::Conflict(m) => (409, ApiError::new("conflict", m)),
        RepoError::InvalidReference(m) => (400, ApiError::new("invalid_reference", m)),
        RepoError::Db(_) => err(500, "internal", "database error"),
    }
}

/// Handlers that need the database answer 503 `unavailable` when none is
/// configured.
pub fn require_pool(configured: bool) -> (r: Result<(), ApiErr>)
    ensures
        configured ==> r is Ok,
        !configured ==> (r matches Err(e) && is_api_err(e, 503, "unavailable"@, "database not configured"@)),
{
    if configured {
        Ok(())
    } else {
        Err(err(503, "unavailable", "database not configured"))
    }
}

/// Gate provisioning on the admin token when one is configured: the
/// `Authorization` header must carry it as a bearer token, else 401.
pub fn require_admin(expected: Option<&str>, authorization: Option<&str>) -> (r: Result<(), ApiErr>)
    ensures
        match expected {
            None => r is Ok,
            Some(x) => if spec_bearer(
                match authorization {
                    Some(v) => Some(v@),
                    None => None,
                },
            ) == Some(x@) {
                r is Ok
            } else {
                r matches Err(e) && is_api_err(e, 401, "unauthorized"@, "admin token required"@)
            },
        },
{
    match expected {
        None => Ok(()),
        Some(x) => {
            let presented = crate::sync::bearer(authorization);
            let ok = match &presented {
                Some(t) => crate::text::str_eq(t.as_str(), x),
                None => false,
            };
            if ok {
                Ok(())
            } else {
                Err(err(401, "unauthorized", "admin token required"))
            }
        },
    }
}

/// The bearer token a plant or tenant request must carry; 401 with
/// `missing_message` when there is none.
pub fn require_bearer(authorization: Option<&str>, missing_message: &str) -> (r: Result<String, ApiErr>)
    ensures
        match spec_bearer(
            match authorization {
                Some(v) => Some(v@),
                None => None,
            },
        ) {
            Some(t) => r matches Ok(s) && s@ == t,
            None => r matches Err(e) && is_api_err(e, 401, "unauthorized"@, missing_message@),
        },
{
    match crate::sync::bearer(authorization) {
        Some(t) => Ok(t),
        None => Err(err(401, "unauthorized", missing_message)),
    }
}

/// The answer to a token that did not verify: 401 with `invalid_message`.
pub fn token_verdict(valid: bool, invalid_message: &str) -> (r: Result<(), ApiErr>)
    ensures
        valid ==> r is Ok,
        !valid ==> (r matches Err(e) && is_api_err(e, 401, "unauthorized"@, invalid_message@)),
{
    if valid {
        Ok(())
    } else {
        Err(err(401, "unauthorized", invalid_message))
    }
}

/// The readiness answer: 200 with an `ok` health payload when the database is
/// usable, else 503 with status `not_ready`.
pub fn readiness(ready: bool, service: &str, version: &str) -> (r: (u16, HealthResponse))
    ensures
        r.1.service@ == service@,
        r.1.version@ == version@,
        ready ==> r.0 == 200 && r.1.status@ == "ok"@,
        !ready ==> r.0 == 503 && r.1.status@ == "not_ready"@,
{
    if ready {
        (200, HealthResponse::ok(service, version))
    } else {
        (
            503,
            HealthResponse {
                service: String::from_str(service),
                status: String::from_str("not_ready"),
                version: String::from_str(version),
            },
        )
    }
}

} // verus!
