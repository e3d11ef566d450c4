//! The supervisor's "Send Diagnostics" button: a note plus a snapshot of
//! recent buffered events.

use vstd::prelude::*;
use crate::diagnostics::str_at;
use crate::json::{json_clone, jstr, member, same_json, Json};

verus! {

/// A manual report: a note plus a snapshot of recent events.
pub fn report(service: &str, version: &str, note: &str, recent: &[Json]) -> (r: Json)
    ensures
        r matches Json::Object(m) && m@.len() == 5 && str_at(m@, 0, "event"@, "manual"@) && str_at(
            m@,
            1,
            "service"@,
            service@,
        ) && str_at(m@, 2, "version"@, version@) && str_at(m@, 3, "message"@, note@) && m@[4].0@
            == "spans"@ && (m@[4].1 matches Json::Array(a) && a@.len() == recent@.len() && forall|
            i: int,
        |
            0 <= i < recent@.len() ==> same_json(#[trigger] recent@[i], a@[i])),
{
    let mut spans: Vec<Json> = Vec::new();
    let mut i: usize = 0;
    while i < recent.len()
        invariant
            i <= recent@.len(),
            spans@.len() == i,
            forall|j: int| 0 <= j < i ==> same_json(#[trigger] recent@[j], spans@[j]),
        decreases recent@.len() - i,
    {
        spans.push(json_clone(&recent[i]));
        i = i + 1;
    }
    let mut m: Vec<(String, Json)> = Vec::new();
    m.push(member("event", jstr("manual")));
    m.push(member("service", jstr(service)));
    m.push(member("version", jstr(version)));
    m.push(member("message", jstr(note)));
    m.push(member("spans", Json::Array(spans)));
    Json::Object(m)
}

} // verus!
