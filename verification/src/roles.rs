//! Role codes and the authorization policy: which role may do what. Handlers
//! consult these helpers and never compare role strings inline.

use vstd::prelude::*;
use crate::text::str_eq;

verus! {

pub const ADMIN: &'static str = "Admin";
pub const PLANNER: &'static str = "Planner";
pub const SUPERVISOR: &'static str = "Supervisor";
pub const OPERATOR: &'static str = "Operator";
pub const QUALITY: &'static str = "Quality";

/// Roles that may create, update or delete master data.
pub open spec fn spec_can_write_master(role: Seq<char>) -> bool {
    role == "Admin"@ || role == "Planner"@
}

/// Roles that may promote or reject a program revision.
pub open spec fn spec_can_promote_revision(role: Seq<char>) -> bool {
    role == "Admin"@ || role == "Planner"@ || role == "Supervisor"@
}

/// Roles that may place or release holds and disposition NCRs.
pub open spec fn spec_can_manage_quality(role: Seq<char>) -> bool {
    role == "Admin"@ || role == "Supervisor"@ || role == "Quality"@
}

/// May the role write master data? Admin and Planner only.
pub fn can_write_master(role_code: &str) -> (r: bool)
    ensures
        r == spec_can_write_master(role_code@),
{
    str_eq(role_code, ADMIN) || str_eq(role_code, PLANNER)
}

/// May the role read master data? Every authenticated role may.
pub fn can_read_master(role_code: &str) -> (r: bool)
    ensures
        r,
{
    true
}

/// May the role promote or reject a program revision?
pub fn can_promote_revision(role_code: &str) -> (r: bool)
    ensures
        r == spec_can_promote_revision(role_code@),
{
    str_eq(role_code, ADMIN) || str_eq(role_code, PLANNER) || str_eq(role_code, SUPERVISOR)
}

/// May the role perform quality actions?
pub fn can_manage_quality(role_code: &str) -> (r: bool)
    ensures
        r == spec_can_manage_quality(role_code@),
{
    str_eq(role_code, ADMIN) || str_eq(role_code, SUPERVISOR) || str_eq(role_code, QUALITY)
}

/// Whoever may write master data may also review program revisions.
pub proof fn lemma_master_writers_review_revisions(role: Seq<char>)
    requires
        spec_can_write_master(role),
    ensures
        spec_can_promote_revision(role),
{
}

/// An operator has none of the write, review or quality rights.
pub proof fn lemma_operator_has_no_write_rights()
    ensures
        !spec_can_write_master("Operator"@),
        !spec_can_promote_revision("Operator"@),
        !spec_can_manage_quality("Operator"@),
{
    broadcast use vstd::string::group_string_axioms;
    reveal_strlit("Operator");
    reveal_strlit("Admin");
    reveal_strlit("Planner");
    reveal_strlit("Supervisor");
    reveal_strlit("Quality");
    assert("Operator"@.len() == 8 && "Admin"@.len() == 5 && "Planner"@.len() == 7);
    assert("Supervisor"@.len() == 10 && "Quality"@.len() == 7);
}

} // verus!
