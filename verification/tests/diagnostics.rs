use mes::diagnostics::buffer::DiagBuffer;
use mes::diagnostics::crash::{self, hash};
use mes::diagnostics::{error_trigger, heartbeat, manual, plan_send, SendOutcome, ShipConfig};
use mes::json::{get, Json};
use mes::redact::{redact, safe_key, scrub_string};

fn s(t: &str) -> Json {
    Json::Str(t.to_string())
}

fn n(t: &str) -> Json {
    Json::Number(t.to_string())
}

fn obj(members: Vec<(&str, Json)>) -> Json {
    Json::Object(members.into_iter().map(|(k, v)| (k.to_string(), v)).collect())
}

/// The JSON text of a value, for leak checks.
fn as_text(v: &Json) -> String {
    match v {
        Json::Null => "null".to_string(),
        Json::Bool(b) => b.to_string(),
        Json::Number(t) => t.clone(),
        Json::Str(t) => format!("{:?}", t),
        Json::Array(items) => format!("[{}]", items.iter().map(as_text).collect::<Vec<_>>().join(",")),
        Json::Object(m) => format!(
            "{{{}}}",
            m.iter().map(|(k, x)| format!("{:?}:{}", k, as_text(x))).collect::<Vec<_>>().join(",")
        ),
    }
}

fn str_at<'a>(v: &'a Json, key: &str) -> Option<&'a str> {
    match get(v, key) {
        Some(Json::Str(t)) => Some(t.as_str()),
        _ => None,
    }
}

fn sensitive_fixture() -> Json {
    obj(vec![
        ("service", s("mes-edge")),
        ("version", s("0.1.0")),
        ("level", s("error")),
        ("error", s("insert failed")),
        ("part_number", s("PN-SECRET-123")),
        ("customer_name", s("Acme Aerospace Pvt Ltd")),
        ("price", n("148500.75")),
        ("measured_value", n("10.037")),
        ("scrap_reason", s("porosity in weld")),
        ("lot_no", s("LOT-9987")),
        ("serial_no", s("SN-ABC-0001")),
        ("operator_pin", s("4821")),
        (
            "nested",
            obj(vec![
                ("wo_number", s("WO-CONFIDENTIAL-42")),
                ("inspection_value", n("9.98")),
                ("status", s("fail")),
            ]),
        ),
        ("rows", Json::Array(vec![obj(vec![("part_name", s("Titanium bracket")), ("qty_good", n("12"))])])),
        ("spans", Json::Array(vec![obj(vec![("status", s("fail")), ("part_number", s("PN-INNER-77"))])])),
    ])
}

#[test]
fn no_business_field_survives_redaction() {
    let redacted = redact(&sensitive_fixture());
    let text = as_text(&redacted);
    for leak in [
        "PN-SECRET-123",
        "Acme Aerospace",
        "148500",
        "10.037",
        "porosity",
        "LOT-9987",
        "SN-ABC-0001",
        "4821",
        "WO-CONFIDENTIAL-42",
        "9.98",
        "Titanium bracket",
        "PN-INNER-77",
    ] {
        assert!(!text.contains(leak), "leaked sensitive value: {leak}");
    }
}

#[test]
fn structural_fields_are_kept() {
    let redacted = redact(&sensitive_fixture());
    assert_eq!(str_at(&redacted, "service"), Some("mes-edge"));
    assert_eq!(str_at(&redacted, "version"), Some("0.1.0"));
    assert_eq!(str_at(&redacted, "level"), Some("error"));
    assert_eq!(str_at(&redacted, "error"), Some("insert failed"));
    assert!(get(&redacted, "nested").is_none());
    let spans = match get(&redacted, "spans") {
        Some(Json::Array(items)) => items,
        other => panic!("spans missing: {:?}", other),
    };
    assert_eq!(str_at(&spans[0], "status"), Some("fail"));
    assert!(get(&spans[0], "part_number").is_none());
}

#[test]
fn embedded_email_and_token_are_scrubbed() {
    let v = obj(vec![("message", s("user jane@acme.com token abcdef0123456789ABCDEF9999 failed"))]);
    let text = as_text(&redact(&v));
    assert!(!text.contains("jane@acme.com"));
    assert!(!text.contains("abcdef0123456789ABCDEF9999"));
    assert!(text.contains("failed"));
}

#[test]
fn non_safe_container_keys_are_dropped() {
    let redacted = redact(&sensitive_fixture());
    assert!(get(&redacted, "rows").is_none());
}

#[test]
fn scrubbing_keeps_whitespace_and_plain_words() {
    assert_eq!(
        scrub_string("mail a@b.c  now\tkey 0123456789abcdefghijklmn\n"),
        "mail [redacted]  now\tkey [redacted]\n"
    );
    assert_eq!(scrub_string("@home.io x@nodot"), "@home.io x@nodot");
    assert_eq!(scrub_string("abcdefghijklmnopqrstuvwxyz"), "abcdefghijklmnopqrstuvwxyz");
    assert_eq!(scrub_string(""), "");
}

#[test]
fn allowlist_is_exact() {
    assert!(safe_key("backtrace_hash"));
    assert!(safe_key("reason_code"));
    assert!(!safe_key("part_number"));
    assert!(!safe_key("Service"));
}

#[test]
fn evicts_oldest_and_redacts() {
    let mut b = DiagBuffer::new(2);
    b.push(&obj(vec![("event", s("a")), ("part_number", s("PN-1"))]));
    b.push(&obj(vec![("event", s("b"))]));
    b.push(&obj(vec![("event", s("c"))]));
    let snap = b.snapshot();
    assert_eq!(snap.len(), 2);
    assert_eq!(str_at(&snap[0], "event"), Some("b"));
    assert_eq!(str_at(&snap[1], "event"), Some("c"));
    assert!(as_text(&Json::Array(snap)).find("PN-1").is_none());
}

#[test]
fn zero_capacity_buffer_holds_one() {
    let mut b = DiagBuffer::new(0);
    assert!(b.is_empty());
    b.push(&obj(vec![("event", s("a"))]));
    b.push(&obj(vec![("event", s("b"))]));
    assert_eq!(b.len(), 1);
    assert_eq!(str_at(&b.snapshot()[0], "event"), Some("b"));
}

#[test]
fn crash_report_hides_message() {
    let r = crash::report("mes-edge", "0.1.0", "panicked at part PN-SECRET", Some("main.rs:10"));
    assert_eq!(str_at(&r, "event"), Some("crash"));
    assert_eq!(str_at(&r, "location"), Some("main.rs:10"));
    let text = as_text(&r);
    assert!(!text.contains("PN-SECRET"));
    assert!(str_at(&r, "backtrace_hash").unwrap().len() == 16);
    assert_eq!(get(&r, "panic"), Some(&Json::Bool(true)));
}

#[test]
fn crash_report_without_location_is_null() {
    let r = crash::report("mes-edge", "0.1.0", "boom", None);
    assert_eq!(get(&r, "location"), Some(&Json::Null));
    assert_eq!(str_at(&r, "backtrace_hash").map(str::to_string), Some(hash("boom")));
}

#[test]
fn hash_is_stable() {
    assert_eq!(hash("same"), hash("same"));
    assert_ne!(hash("a"), hash("b"));
}

#[test]
fn hash_is_lowercase_hex() {
    let h = hash("anything");
    assert_eq!(h.len(), 16);
    assert!(h.chars().all(|c| c.is_ascii_digit() || ('a'..='f').contains(&c)));
}

#[test]
fn error_report_shape() {
    let r = error_trigger::report("mes-cloud", "0.1.0", "db_pool_exhausted", "no connections");
    assert_eq!(str_at(&r, "event"), Some("error_trigger"));
    assert_eq!(str_at(&r, "error_type"), Some("db_pool_exhausted"));
    assert_eq!(str_at(&r, "level"), Some("error"));
}

#[test]
fn heartbeat_is_structural() {
    let p = heartbeat::payload("mes-edge", "0.1.0", 3600, "linux", "x86_64");
    assert_eq!(str_at(&p, "event"), Some("heartbeat"));
    assert_eq!(str_at(&p, "service"), Some("mes-edge"));
    assert_eq!(get(&p, "uptime_secs"), Some(&n("3600")));
    assert_eq!(redact(&p), p);
}

#[test]
fn manual_report_shape() {
    let r = manual::report("mes-edge", "0.1.0", "operator says machine stalls", &[]);
    assert_eq!(str_at(&r, "event"), Some("manual"));
    assert_eq!(str_at(&r, "message"), Some("operator says machine stalls"));
    assert_eq!(get(&r, "spans"), Some(&Json::Array(vec![])));
}

fn cfg(enabled: bool) -> ShipConfig {
    ShipConfig { enabled, repo: "acme/mes-diagnostics".to_string(), token: "t".to_string() }
}

#[test]
fn disabled_plans_nothing() {
    assert!(plan_send(&cfg(false), &obj(vec![("event", s("manual"))])).is_none());
    let _ = SendOutcome::Skipped;
}

#[test]
fn enabled_send_is_redacted_and_titled() {
    let payload = obj(vec![
        ("event", s("manual")),
        ("service", s("mes-edge")),
        ("version", s("0.1.0")),
        ("message", s("stall after op")),
        ("part_number", s("PN-SECRET-9")),
        ("customer_name", s("Acme Aerospace")),
        ("measured_value", n("10.42")),
    ]);
    let (title, body) = plan_send(&cfg(true), &payload).unwrap();
    assert_eq!(title, "[diagnostics] mes-edge: manual");
    let text = as_text(&body);
    for leak in ["PN-SECRET-9", "Acme Aerospace", "10.42"] {
        assert!(!text.contains(leak), "leaked {leak}");
    }
    assert!(text.contains("stall after op"));
    let (title2, _) = plan_send(&cfg(true), &obj(vec![("part_number", s("x"))])).unwrap();
    assert_eq!(title2, "[diagnostics] mes: diagnostics");
}

#[test]
fn redacting_twice_changes_nothing() {
    let once = redact(&sensitive_fixture());
    let twice = redact(&once);
    assert_eq!(once, twice);
    let text = "mail jane@acme.com key abcdef0123456789ABCDEF9999 end";
    assert_eq!(scrub_string(&scrub_string(text)), scrub_string(text));
    assert_eq!(scrub_string(text), "mail [redacted] key [redacted] end");
}
