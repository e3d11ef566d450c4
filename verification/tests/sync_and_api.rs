use mes::api::{readiness, repo_err, require_admin, require_bearer, require_pool, token_verdict};
use mes::client::{ApiError, HealthResponse};
use mes::decimal::Dec;
use mes::hex::hex;
use mes::json::{get, Json};
use mes::repo::RepoError;
use mes::sync::{
    apply_action, bearer, check_push_batch, default_priority, draft, hash_token, i32_text,
    i64_text, mint_plant_token, pull_limit, remote_work_order_payload, tally, token_matches,
    work_order_command, ApplyAction, MAX_BATCH,
};

fn api(status: u16, code: &str, message: &str) -> (u16, ApiError) {
    (status, ApiError::new(code, message.to_string()))
}

#[test]
fn ok_helper_sets_status() {
    let h = HealthResponse::ok("mes-edge", "0.1.0");
    assert_eq!(h.status, "ok");
    assert_eq!(h.service, "mes-edge");
}

#[test]
fn health_response_names_the_cloud() {
    let body = HealthResponse::ok("mes-cloud", "0.1.0");
    assert_eq!(body.status, "ok");
    assert_eq!(body.service, "mes-cloud");
}

#[test]
fn readiness_without_a_database_is_503() {
    let (status, body) = readiness(false, "mes-cloud", "0.1.0");
    assert_eq!(status, 503);
    assert_eq!(body.status, "not_ready");
    let (status, body) = readiness(true, "mes-cloud", "0.1.0");
    assert_eq!(status, 200);
    assert_eq!(body.status, "ok");
}

#[test]
fn token_hash_is_sha256_hex() {
    assert_eq!(
        hash_token("abc"),
        "ba7816bf8f01cfea414140de5dae2223b00361a396177a9cb410ff61f20015ad"
    );
    assert_eq!(hash_token("abc").len(), 64);
    assert_ne!(hash_token("abc"), hash_token("abd"));
}

#[test]
fn stored_hash_matches_only_its_token() {
    let h = hash_token("plant_secret");
    assert!(token_matches(Some(&h), "plant_secret"));
    assert!(!token_matches(Some(&h), "plant_other"));
    assert!(!token_matches(None, "plant_secret"));
}

#[test]
fn minted_tokens_are_plant_ulids() {
    let a = mint_plant_token();
    let b = mint_plant_token();
    assert!(a.starts_with("plant_"));
    assert_eq!(a.len(), 32);
    assert_ne!(a, b);
}

#[test]
fn hex_is_lowercase_pairs() {
    assert_eq!(hex(&[0x00, 0x0f, 0xab, 0xff]), "000fabff");
    assert_eq!(hex(&[]), "");
}

#[test]
fn bearer_scheme_is_required() {
    assert_eq!(bearer(Some("Bearer abc")), Some("abc".to_string()));
    assert_eq!(bearer(Some("Bearer ")), Some("".to_string()));
    assert_eq!(bearer(Some("Basic abc")), None);
    assert_eq!(bearer(Some("Bearer")), None);
    assert_eq!(bearer(None), None);
}

#[test]
fn provisioning_is_gated_only_when_configured() {
    assert_eq!(require_admin(None, None), Ok(()));
    assert_eq!(require_admin(Some("adm"), Some("Bearer adm")), Ok(()));
    let denied = Err(api(401, "unauthorized", "admin token required"));
    assert_eq!(require_admin(Some("adm"), Some("Bearer nope")), denied);
    assert_eq!(require_admin(Some("adm"), None), denied);
    assert_eq!(require_admin(Some("adm"), Some("adm")), denied);
}

#[test]
fn plant_and_tenant_tokens() {
    assert_eq!(require_bearer(Some("Bearer t1"), "missing plant token"), Ok("t1".to_string()));
    assert_eq!(
        require_bearer(None, "missing tenant token"),
        Err(api(401, "unauthorized", "missing tenant token"))
    );
    assert_eq!(token_verdict(true, "invalid plant token"), Ok(()));
    assert_eq!(
        token_verdict(false, "invalid plant token"),
        Err(api(401, "unauthorized", "invalid plant token"))
    );
}

#[test]
fn repo_errors_become_http_answers() {
    assert_eq!(repo_err(RepoError::NotFound), api(404, "not_found", "resource not found"));
    assert_eq!(repo_err(RepoError::Conflict("dup".to_string())), api(409, "conflict", "dup"));
    assert_eq!(
        repo_err(RepoError::InvalidReference("fk".to_string())),
        api(400, "invalid_reference", "fk")
    );
    assert_eq!(repo_err(RepoError::Db("secret detail".to_string())), api(500, "internal", "database error"));
    assert_eq!(require_pool(true), Ok(()));
    assert_eq!(require_pool(false), Err(api(503, "unavailable", "database not configured")));
}

#[test]
fn push_batches_are_capped() {
    assert_eq!(MAX_BATCH, 500);
    assert_eq!(check_push_batch(0), Ok(()));
    assert_eq!(check_push_batch(500), Ok(()));
    assert_eq!(
        check_push_batch(501),
        Err(api(400, "batch_too_large", "batch exceeds 500 entries"))
    );
}

#[test]
fn pull_limit_defaults_and_caps() {
    assert_eq!(pull_limit(None), 500);
    assert_eq!(pull_limit(Some(20)), 20);
    assert_eq!(pull_limit(Some(10_000)), 500);
    assert_eq!(pull_limit(Some(-1)), -1);
}

#[test]
fn replayed_entries_are_skipped_in_the_tally() {
    assert_eq!(apply_action(1, "work_order"), ApplyAction::ApplyWorkOrder);
    assert_eq!(apply_action(1, "lot"), ApplyAction::RecordOnly);
    assert_eq!(apply_action(0, "work_order"), ApplyAction::AlreadyApplied);
    assert_eq!(tally(&[true, true, false]), (2, 1));
    assert_eq!(tally(&[false, false, false]), (0, 3));
    assert_eq!(tally(&[]), (0, 0));
}

#[test]
fn work_order_defaults() {
    assert_eq!(default_priority(), 100);
    assert_eq!(draft(), "draft");
}

#[test]
fn signed_integer_text() {
    assert_eq!(i32_text(-32601), "-32601");
    assert_eq!(i32_text(0), "0");
    assert_eq!(i64_text(i64::MIN), "-9223372036854775808");
    assert_eq!(i64_text(i64::MAX), "9223372036854775807");
}

fn str_at<'a>(v: &'a Json, key: &str) -> Option<&'a str> {
    match get(v, key) {
        Some(Json::Str(t)) => Some(t.as_str()),
        _ => None,
    }
}

#[test]
fn remote_work_order_command_fields() {
    let qty = Dec { mantissa: 125, scale: 1 };
    let p = remote_work_order_payload("01HWO", "WO-REMOTE-1", "part-1", qty, None);
    assert_eq!(str_at(&p, "id"), Some("01HWO"));
    assert_eq!(str_at(&p, "wo_number"), Some("WO-REMOTE-1"));
    assert_eq!(str_at(&p, "part_id"), Some("part-1"));
    assert_eq!(str_at(&p, "qty_ordered"), Some("12.5"));
    assert_eq!(get(&p, "priority"), Some(&Json::Number("100".to_string())));
    assert_eq!(str_at(&p, "status"), Some("draft"));
    let p2 = work_order_command("a", "b", "c", "3".to_string(), Some(7));
    assert_eq!(get(&p2, "priority"), Some(&Json::Number("7".to_string())));
    assert_eq!(str_at(&p2, "qty_ordered"), Some("3"));
}

#[test]
fn remote_quantity_text_pads_and_signs() {
    let cases = [
        (Dec { mantissa: 1050, scale: 2 }, "10.50"),
        (Dec { mantissa: -5, scale: 3 }, "-0.005"),
        (Dec { mantissa: 0, scale: 2 }, "0.00"),
        (Dec { mantissa: 0, scale: 0 }, "0"),
        (Dec { mantissa: 120, scale: 0 }, "120"),
    ];
    for (qty, text) in cases {
        let p = remote_work_order_payload("01HWO", "WO-1", "part-1", qty, Some(5));
        assert_eq!(str_at(&p, "qty_ordered"), Some(text));
    }
}
