//! A report raised automatically on a critical error: its structure, not
//! the data that produced it.

use vstd::prelude::*;
use crate::diagnostics::str_at;
use crate::json::{jstr, member, Json};

verus! {

/// A report raised automatically on a critical error: its classifier and
/// message, not the data that produced it.
pub fn report(service: &str, version: &str, error_type: &str, error: &str) -> (r: Json)
    ensures
        r matches Json::Object(m) && m@.len() == 6 && str_at(m@, 0, "event"@, "error_trigger"@)
            && str_at(m@, 1, "service"@, service@) && str_at(m@, 2, "version"@, version@) && str_at(
            m@,
            3,
            "error_type"@,
            error_type@,
        ) && str_at(m@, 4, "error"@, error@) && str_at(m@, 5, "level"@, "error"@),
{
    let mut m: Vec<(String, Json)> = Vec::new();
    m.push(member("event", jstr("error_trigger")));
    m.push(member("service", jstr(service)));
    m.push(member("version", jstr(version)));
    m.push(member("error_type", jstr(error_type)));
    m.push(member("error", jstr(error)));
    m.push(member("level", jstr("error")));
    Json::Object(m)
}

} // verus!
