//! Errors of the data layer and how a driver failure maps onto them.

use vstd::prelude::*;
use crate::text::str_eq;

verus! {

/// Errors from repository operations, in terms handlers can translate to HTTP
/// statuses without matching on driver detail.
#[derive(Debug, Clone, PartialEq, Eq)]
pub enum RepoError {
    NotFound,
    Conflict(String),
    InvalidReference(String),
    /// Any other driver failure, carried as the driver's own message.
    Db(String),
}

/// `e` is a `Conflict` carrying `m`.
pub open spec fn is_conflict(e: RepoError, m: Seq<char>) -> bool {
    e matches RepoError::Conflict(s) && s@ == m
}

/// `e` is an `InvalidReference` carrying `m`.
pub open spec fn is_invalid_reference(e: RepoError, m: Seq<char>) -> bool {
    e matches RepoError::InvalidReference(s) && s@ == m
}

/// `e` is a `Db` error carrying `m`.
pub open spec fn is_db(e: RepoError, m: Seq<char>) -> bool {
    e matches RepoError::Db(s) && s@ == m
}

/// `code` is present and equal to `c`.
pub open spec fn code_is(code: Option<&str>, c: Seq<char>) -> bool {
    match code {
        Some(x) => x@ == c,
        None => false,
    }
}

/// A `String` holding the characters of `s`.
pub fn owned(s: &str) -> (r: String)
    ensures
        r@ == s@,
{
    String::from_str(s)
}

/// Map a driver failure: a missing row is `NotFound`; a PostgreSQL unique
/// violation (`23505`) is a `Conflict` and a foreign-key violation (`23503`)
/// an `InvalidReference`, each carrying the database's message; anything
/// else stays a `Db` error carrying the driver's message.
pub fn map_db_error(row_not_found: bool, code: Option<&str>, message: &str) -> (r: RepoError)
    ensures
        row_not_found ==> r == RepoError::NotFound,
        !row_not_found && code_is(code, "23505"@) ==> is_conflict(r, message@),
        !row_not_found && code_is(code, "23503"@) ==> is_invalid_reference(r, message@),
        !row_not_found && !code_is(code, "23505"@) && !code_is(code, "23503"@) ==> is_db(
            r,
            message@,
        ),
{
    proof {
        broadcast use vstd::string::group_string_axioms;
        reveal_strlit("23505");
        reveal_strlit("23503");
        assert("23505"@[4] != "23503"@[4]);
    }
    if row_not_found {
        return RepoError::NotFound;
    }
    match code {
        Some(c) => {
            if str_eq(c, "23505") {
                RepoError::Conflict(owned(message))
            } else if str_eq(c, "23503") {
                RepoError::InvalidReference(owned(message))
            } else {
                RepoError::Db(owned(message))
            }
        },
        None => RepoError::Db(owned(message)),
    }
}

/// What sign-in needs of a user.
#[derive(Debug, Clone)]
pub struct UserAuth {
    pub id: String,
    pub username: String,
    pub role_code: String,
    pub password_hash: Option<String>,
    pub pin_hash: Option<String>,
    pub active: bool,
}

/// The program to transfer for the next queued operation after one completes.
#[derive(Debug, Clone)]
pub struct NextTransfer {
    pub next_op_id: String,
    pub program_id: String,
    pub program_identifier: String,
    pub target_machine: Option<String>,
}

/// A registered signal source.
#[derive(Debug, Clone)]
pub struct SignalSourceRow {
    pub id: String,
    pub work_center_id: String,
    pub source_key: String,
    pub kind: String,
    pub enabled: bool,
}

/// A downtime event `[start, end)` may be split only at an instant strictly
/// inside it; otherwise the split is a `Conflict`. Instants are microseconds.
pub fn check_split_point(at: i64, start: i64, end: i64) -> (r: Result<(), RepoError>)
    ensures
        start < at < end ==> r is Ok,
        !(start < at < end) ==> (r matches Err(e) && is_conflict(
            e,
            "split point must lie strictly inside the event"@,
        )),
{
    if at <= start || at >= end {
        return Err(RepoError::Conflict(owned("split point must lie strictly inside the event")));
    }
    Ok(())
}

/// Material under an active hold cannot be issued: a held lot is a
/// `Conflict` first, then a held serial.
pub fn check_issue_holds(lot_held: bool, serial_held: bool) -> (r: Result<(), RepoError>)
    ensures
        lot_held ==> (r matches Err(e) && is_conflict(e, "lot is on hold"@)),
        !lot_held && serial_held ==> (r matches Err(e) && is_conflict(e, "serial is on hold"@)),
        !lot_held && !serial_held ==> r is Ok,
{
    if lot_held {
        return Err(RepoError::Conflict(owned("lot is on hold")));
    }
    if serial_held {
        return Err(RepoError::Conflict(owned("serial is on hold")));
    }
    Ok(())
}

/// Whether setting a transfer to `status` stamps its completion time: the
/// terminal statuses `completed` and `failed`.
pub fn stamps_completion(status: &str) -> (r: bool)
    ensures
        r == (status@ == "completed"@ || status@ == "failed"@),
{
    str_eq(status, "completed") || str_eq(status, "failed")
}

} // verus!
