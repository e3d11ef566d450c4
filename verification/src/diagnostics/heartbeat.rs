//! A scheduled liveness ping carrying only structural identity.

use vstd::prelude::*;
use crate::diagnostics::{num_at, str_at};
use crate::json::{decimal_text, jnum_u64, jstr, member, Json};

verus! {

/// A heartbeat: structural identity only, safe to ship as it is.
pub fn payload(service: &str, version: &str, uptime_secs: u64, os: &str, arch: &str) -> (r:
    Json)
    ensures
        r matches Json::Object(m) && m@.len() == 6 && str_at(m@, 0, "event"@, "heartbeat"@)
            && str_at(m@, 1, "service"@, service@) && str_at(m@, 2, "version"@, version@) && num_at(
            m@,
            3,
            "uptime_secs"@,
            decimal_text(uptime_secs as nat),
        ) && str_at(m@, 4, "os"@, os@) && str_at(m@, 5, "arch"@, arch@),
{
    let mut m: Vec<(String, Json)> = Vec::new();
    m.push(member("event", jstr("heartbeat")));
    m.push(member("service", jstr(service)));
    m.push(member("version", jstr(version)));
    m.push(member("uptime_secs", jnum_u64(uptime_secs)));
    m.push(member("os", jstr(os)));
    m.push(member("arch", jstr(arch)));
    Json::Object(m)
}

} // verus!
