//! Diagnostics: heartbeat, error-triggered, manual and crash reports, a
//! bounded buffer of recent (already redacted) events, and the decision of
//! what leaves the box. Shipping is opt-in per customer and always redacts
//! first; the shipping itself is done by the caller.

pub mod buffer;
pub mod crash;
pub mod error_trigger;
pub mod heartbeat;
pub mod manual;

use vstd::prelude::*;
use crate::json::{str_member, Json};
use crate::redact::{redact, redacted};

verus! {

/// Errors of the diagnostics path.
#[derive(Debug, Clone, PartialEq, Eq)]
pub enum DiagnosticsError {
    Failed(String),
    Ship(String),
}

/// What a send attempt did.
#[derive(Debug, Clone, Copy, PartialEq, Eq, Structural)]
pub enum SendOutcome {
    /// Shipping is disabled for this customer: nothing left the box.
    Skipped,
    /// The redacted bundle was shipped.
    Shipped,
}

/// Per-customer shipping configuration.
#[derive(Debug, Clone)]
pub struct ShipConfig {
    /// Opt-in switch, off by default.
    pub enabled: bool,
    /// Target repository, `owner/name`.
    pub repo: String,
    /// Token with write access to issues on the repository.
    pub token: String,
}

/// Member `i` of `m` is named `key` and holds the string `val`.
pub open spec fn str_at(m: Seq<(String, Json)>, i: int, key: Seq<char>, val: Seq<char>) -> bool {
    0 <= i < m.len() && m[i].0@ == key && (m[i].1 matches Json::Str(s) && s@ == val)
}

/// Member `i` of `m` is named `key` and holds the number text `val`.
pub open spec fn num_at(m: Seq<(String, Json)>, i: int, key: Seq<char>, val: Seq<char>) -> bool {
    0 <= i < m.len() && m[i].0@ == key && (m[i].1 matches Json::Number(s) && s@ == val)
}

/// Member `i` of `m` is named `key` and holds `v` (a non-text value).
pub open spec fn val_at(m: Seq<(String, Json)>, i: int, key: Seq<char>, v: Json) -> bool {
    0 <= i < m.len() && m[i].0@ == key && m[i].1 == v
}

/// The service name a shipped bundle is titled with: its `service` string, or
/// `mes` when there is none.
pub open spec fn title_service(v: Json) -> Seq<char> {
    match str_member(v, "service"@) {
        Some(s) => s,
        None => "mes"@,
    }
}

/// The event name a shipped bundle is titled with: its `event` string, or
/// `diagnostics` when there is none.
pub open spec fn title_event(v: Json) -> Seq<char> {
    match str_member(v, "event"@) {
        Some(s) => s,
        None => "diagnostics"@,
    }
}

/// The single path a diagnostic bundle takes off the box. With shipping
/// disabled, nothing is to be shipped. Otherwise the payload is redacted and
/// titled `[diagnostics] <service>: <event>` from the redacted payload; the
/// caller serialises the redacted payload as the body and ships it.
pub fn plan_send(config: &ShipConfig, payload: &Json) -> (r: Option<(String, Json)>)
    ensures
        !config.enabled ==> r is None,
        config.enabled ==> (r matches Some(p) && redacted(p.1, *payload) && p.0@ == "[diagnostics] "@
            + title_service(p.1) + ": "@ + title_event(p.1)),
{
    if !config.enabled {
        return None;
    }
    let redacted_payload = redact(payload);
    let mut title = String::from_str("[diagnostics] ");
    match crate::json::get_str(&redacted_payload, "service") {
        Some(s) => title.append(s.as_str()),
        None => title.append("mes"),
    }
    title.append(": ");
    match crate::json::get_str(&redacted_payload, "event") {
        Some(s) => title.append(s.as_str()),
        None => title.append("diagnostics"),
    }
    Some((title, redacted_payload))
}

} // verus!
