//! Edge/cloud sync: enrollment tokens (hashed at rest), the bearer checks that
//! gate provisioning and the push/pull/ack protocol, batch limits, the
//! idempotent-apply decisions, and the payload of a remote work-order command.

use vstd::prelude::*;
use crate::decimal::{decimal_display, Dec};
use crate::hex::{hex, hex_of_bytes};
use crate::id::{is_ulid_text, new_id};
use crate::json::{decimal_text, jstr, member, Json};
use crate::api::{err, is_api_err, ApiErr};
use crate::text::str_eq;
use vstd::string::StringSliceAdditionalSpecFns;

verus! {

/// The most entries one push or pull carries.
pub const MAX_BATCH: usize = 500;

/// The SHA-256 digest of a byte string.
pub uninterp spec fn sha256_digest(data: Seq<u8>) -> Seq<u8>;

/// `sha2::Sha256::digest`: the SHA-256 digest of `data`, as bytes. Claims the
/// digest is a function of the input alone, named `sha256_digest`, and is 32
/// bytes long (SHA-256's output size).
#[verifier::external_body]
fn sha256(data: &[u8]) -> (r: Vec<u8>)
    ensures
        r@ == sha256_digest(data@),
        r@.len() == 32,
{
    <sha2::Sha256 as sha2::Digest>::digest(data).to_vec()
}

/// The stored form of an enrollment token: the lowercase hex SHA-256 of its
/// UTF-8 bytes.
pub open spec fn spec_token_hash(token: &str) -> Seq<char> {
    hex_of_bytes(sha256_digest(token.spec_bytes()))
}

/// SHA-256 hex of an enrollment token (tokens are hashed at rest).
pub fn hash_token(token: &str) -> (r: String)
    ensures
        r@ == spec_token_hash(token),
        r@.len() == 64,
{
    let digest = sha256(token.as_bytes());
    hex(digest.as_slice())
}

/// A presented token matches a stored hash when the hash is present and is
/// the token's hash.
pub open spec fn spec_token_matches(stored_hash: Option<Seq<char>>, token: &str) -> bool {
    stored_hash matches Some(h) && h == spec_token_hash(token)
}

/// Whether a presented token matches a plant's stored hash. A plant without a
/// stored hash (or an unknown plant) matches nothing.
pub fn token_matches(stored_hash: Option<&str>, token: &str) -> (r: bool)
    ensures
        r == spec_token_matches(
            match stored_hash {
                Some(h) => Some(h@),
                None => None,
            },
            token,
        ),
{
    match stored_hash {
        Some(h) => {
            let computed = hash_token(token);
            str_eq(h, computed.as_str())
        },
        None => false,
    }
}

/// The token minted at enrollment verifies against the hash stored for it.
pub proof fn lemma_enrolled_token_verifies(token: &str)
    ensures
        spec_token_matches(Some(spec_token_hash(token)), token),
{
}

/// A fresh plant enrollment token: `plant_` followed by a new ULID. Shown
/// once; only its hash is stored.
pub fn mint_plant_token() -> (r: String)
    ensures
        r@.len() == 32,
        r@.subrange(0, 6) == "plant_"@,
        is_ulid_text(r@.subrange(6, 32)),
{
    let mut t = String::from_str("plant_");
    let id = new_id();
    t.append(id.as_str());
    proof {
        reveal_strlit("plant_");
        assert(t@.subrange(0, 6) =~= "plant_"@);
        assert(t@.subrange(6, 32) =~= id@);
    }
    t
}

/// The token carried by an `Authorization` header value, when it has the
/// `Bearer ` scheme.
pub open spec fn spec_bearer(value: Option<Seq<char>>) -> Option<Seq<char>> {
    match value {
        Some(v) => if v.len() >= 7 && v.subrange(0, 7) == "Bearer "@ {
            Some(v.subrange(7, v.len() as int))
        } else {
            None
        },
        None => None,
    }
}

/// Extract the bearer token of an `Authorization` header value.
pub fn bearer(value: Option<&str>) -> (r: Option<String>)
    ensures
        match spec_bearer(match value {
            Some(v) => Some(v@),
            None => None,
        }) {
            Some(t) => r matches Some(s) && s@ == t,
            None => r is None,
        },
{
    match value {
        Some(v) => {
            let n = v.unicode_len();
            if n < 7 {
                return None;
            }
            let head = v.substring_char(0, 7);
            if str_eq(head, "Bearer ") {
                Some(String::from_str(v.substring_char(7, n)))
            } else {
                None
            }
        },
        None => None,
    }
}

/// A push batch may carry at most `MAX_BATCH` entries; a larger one is
/// answered 400 `batch_too_large`.
pub fn check_push_batch(entries: usize) -> (r: Result<(), ApiErr>)
    ensures
        entries <= MAX_BATCH ==> r is Ok,
        entries > MAX_BATCH ==> (r matches Err(e) && is_api_err(
            e,
            400,
            "batch_too_large"@,
            "batch exceeds 500 entries"@,
        )),
{
    if entries > MAX_BATCH {
        return Err(err(400, "batch_too_large", "batch exceeds 500 entries"));
    }
    Ok(())
}

/// How many commands one pull returns: the requested limit, by default and at
/// most `MAX_BATCH`.
pub fn pull_limit(requested: Option<i64>) -> (r: i64)
    ensures
        r == match requested {
            Some(l) => if l <= 500 {
                l as int
            } else {
                500
            },
            None => 500,
        },
{
    let l = match requested {
        Some(l) => l,
        None => 500i64,
    };
    if l <= 500 {
        l
    } else {
        500
    }
}

/// What applying one change-feed entry does.
#[derive(Debug, Clone, Copy, PartialEq, Eq, Structural)]
pub enum ApplyAction {
    /// The entry id was already applied: a no-op replay.
    AlreadyApplied,
    /// Upsert the work order the entry carries.
    ApplyWorkOrder,
    /// Unknown aggregate: recorded as applied, otherwise ignored.
    RecordOnly,
}

/// Decide how to apply an entry once its id has been claimed (`claimed_rows`
/// is how many rows the claim inserted: 0 when the id was already there).
pub fn apply_action(claimed_rows: u64, aggregate: &str) -> (r: ApplyAction)
    ensures
        claimed_rows == 0 ==> r == ApplyAction::AlreadyApplied,
        claimed_rows != 0 && aggregate@ == "work_order"@ ==> r == ApplyAction::ApplyWorkOrder,
        claimed_rows != 0 && aggregate@ != "work_order"@ ==> r == ApplyAction::RecordOnly,
{
    if claimed_rows == 0 {
        ApplyAction::AlreadyApplied
    } else if str_eq(aggregate, "work_order") {
        ApplyAction::ApplyWorkOrder
    } else {
        ApplyAction::RecordOnly
    }
}

/// How many of a batch's outcomes were newly applied.
pub open spec fn count_applied(results: Seq<bool>) -> nat
    decreases results.len(),
{
    if results.len() == 0 {
        0
    } else {
        count_applied(results.drop_last()) + if results.last() {
            1nat
        } else {
            0nat
        }
    }
}

/// Tally a batch's apply outcomes into (applied, skipped).
pub fn tally(results: &[bool]) -> (r: (usize, usize))
    ensures
        r.0 == count_applied(results@),
        r.0 + r.1 == results@.len(),
{
    let mut applied: usize = 0;
    let mut skipped: usize = 0;
    let mut i: usize = 0;
    while i < results.len()
        invariant
            i <= results@.len(),
            applied == count_applied(results@.subrange(0, i as int)),
            applied + skipped == i,
        decreases results@.len() - i,
    {
        assert(results@.subrange(0, i + 1).drop_last() =~= results@.subrange(0, i as int));
        if results[i] {
            applied = applied + 1;
        } else {
            skipped = skipped + 1;
        }
        i = i + 1;
    }
    assert(results@.subrange(0, results@.len() as int) =~= results@);
    (applied, skipped)
}

/// A replayed batch whose entries were all applied before applies nothing.
pub proof fn lemma_replay_applies_nothing(results: Seq<bool>)
    requires
        forall|i: int| 0 <= i < results.len() ==> !results[i],
    ensures
        count_applied(results) == 0,
    decreases results.len(),
{
    if results.len() > 0 {
        lemma_replay_applies_nothing(results.drop_last());
    }
}

/// The priority a work order gets when none is given.
pub fn default_priority() -> (r: i32)
    ensures
        r == 100,
{
    100
}

/// The status a synced work order gets when none is given.
pub fn draft() -> (r: String)
    ensures
        r@ == "draft"@,
{
    String::from_str("draft")
}

/// The decimal text of a signed integer.
pub open spec fn signed_text(n: int) -> Seq<char> {
    if n < 0 {
        seq!['-'] + decimal_text((-n) as nat)
    } else {
        decimal_text(n as nat)
    }
}

/// The decimal text of an `i64`.
pub fn i64_text(n: i64) -> (r: String)
    ensures
        r@ == signed_text(n as int),
{
    if n < 0 {
        let mag: u64 = (-(n as i128)) as u64;
        let mut s = String::from_str("-");
        s.append(crate::json::u64_text(mag).as_str());
        proof {
            reveal_strlit("-");
        }
        assert(s@ =~= seq!['-'] + decimal_text((-n) as nat));
        s
    } else {
        crate::json::u64_text(n as u64)
    }
}

/// The decimal text of an `i32`.
pub fn i32_text(n: i32) -> (r: String)
    ensures
        r@ == signed_text(n as int),
{
    i64_text(n as i64)
}

/// `rust_decimal::Decimal`'s `to_string` (its `Display` with no width or
/// precision) on the decimal built from `d`: claims the text `decimal_display`
/// spells out, sign, digits and a point `scale` digits from the right.
#[verifier::external_body]
pub(crate) fn decimal_to_string(d: Dec) -> (r: String)
    requires
        d.wf(),
    ensures
        r@ == decimal_display(d.parts()),
{
    rust_decimal::Decimal::from_i128_with_scale(d.mantissa, d.scale).to_string()
}

/// Whether `r` is the command payload of a remote work order: an object with,
/// in order, its id, number, part, ordered quantity as text, priority (100 when
/// none was given) and the `draft` status.
pub open spec fn is_work_order_command(
    r: Json,
    wo_id: Seq<char>,
    wo_number: Seq<char>,
    part_id: Seq<char>,
    qty_text: Seq<char>,
    priority: Option<i32>,
) -> bool {
    r matches Json::Object(m) && m@.len() == 6
        && crate::diagnostics::str_at(m@, 0, "id"@, wo_id)
        && crate::diagnostics::str_at(m@, 1, "wo_number"@, wo_number)
        && crate::diagnostics::str_at(m@, 2, "part_id"@, part_id)
        && crate::diagnostics::str_at(m@, 3, "qty_ordered"@, qty_text)
        && crate::diagnostics::num_at(
        m@,
        4,
        "priority"@,
        signed_text(
            match priority {
                Some(p) => p as int,
                None => 100,
            },
        ),
    ) && crate::diagnostics::str_at(m@, 5, "status"@, "draft"@)
}

/// The command payload of a remote work order, with its ordered quantity
/// already written as decimal text.
pub fn work_order_command(
    wo_id: &str,
    wo_number: &str,
    part_id: &str,
    qty_text: String,
    priority: Option<i32>,
) -> (r: Json)
    ensures
        is_work_order_command(r, wo_id@, wo_number@, part_id@, qty_text@, priority),
{
    let p = match priority {
        Some(p) => p,
        None => default_priority(),
    };
    let mut m: Vec<(String, Json)> = Vec::new();
    m.push(member("id", jstr(wo_id)));
    m.push(member("wo_number", jstr(wo_number)));
    m.push(member("part_id", jstr(part_id)));
    m.push(member("qty_ordered", Json::Str(qty_text)));
    m.push(member("priority", Json::Number(i32_text(p))));
    m.push(member("status", Json::Str(draft())));
    Json::Object(m)
}

/// The command payload of a remote work order, its ordered quantity written
/// as `rust_decimal` writes it.
pub fn remote_work_order_payload(
    wo_id: &str,
    wo_number: &str,
    part_id: &str,
    qty_ordered: Dec,
    priority: Option<i32>,
) -> (r: Json)
    requires
        qty_ordered.wf(),
    ensures
        is_work_order_command(
            r,
            wo_id@,
            wo_number@,
            part_id@,
            decimal_display(qty_ordered.parts()),
            priority,
        ),
{
    let t = decimal_to_string(qty_ordered);
    work_order_command(wo_id, wo_number, part_id, t, priority)
}

} // verus!
