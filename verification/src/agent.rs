//! The read-only agent tools and their two front doors: the tool catalog, the
//! routing of a tool call, the tool results that need no query, the MCP
//! JSON-RPC framing, and the copilot's tool-use loop as a state machine. The
//! queries themselves and the model backend are driven by the caller, always
//! bound to a tenant scope.

use vstd::prelude::*;
use crate::client::{ApiError, CopilotResponse, CopilotToolCall};
use crate::analytics::{lemma_text_lt_strict_total, str_lt, text_lt};
use crate::decimal::Dec;
use crate::json::{
    decimal_text, empty_obj, get, get_spec, get_str, is_arr, is_num, is_obj, is_str, json_clone, jstr,
    member, obj, same_json, str_member, u64_text, Json,
};
use crate::decimal::decimal_display;
use crate::sync::{decimal_to_string, i64_text, signed_text};
use crate::text::str_eq;

verus! {

/// The tenant the tools may see: an organisation id taken from an
/// authenticated token. The tools never widen it.
#[derive(Debug, Clone)]
pub struct TenantScope {
    pub org_id: String,
}

impl TenantScope {
    pub fn new(org_id: &str) -> (r: TenantScope)
        ensures
            r.org_id@ == org_id@,
    {
        TenantScope { org_id: String::from_str(org_id) }
    }
}

/// Errors of a tool call.
#[derive(Debug, Clone, PartialEq, Eq)]
pub enum AgentToolError {
    UnknownTool(String),
    Query(String),
}

/// The text of a tool error.
pub open spec fn agent_tool_error_text(e: AgentToolError) -> Seq<char> {
    match e {
        AgentToolError::UnknownTool(n) => "unknown tool: "@ + n@,
        AgentToolError::Query(m) => "query error: "@ + m@,
    }
}

impl AgentToolError {
    /// The error's message, e.g. `unknown tool: drop_tables`.
    pub fn message(&self) -> (r: String)
        ensures
            r@ == agent_tool_error_text(*self),
    {
        match self {
            AgentToolError::UnknownTool(n) => {
                let mut s = String::from_str("unknown tool: ");
                s.append(n.as_str());
                s
            },
            AgentToolError::Query(m) => {
                let mut s = String::from_str("query error: ");
                s.append(m.as_str());
                s
            },
        }
    }
}

/// A tool's public definition: name, description and a JSON Schema for its
/// input object.
#[derive(Debug)]
pub struct ToolDef {
    pub name: &'static str,
    pub description: &'static str,
    pub input_schema: Json,
}

/// A schema property of the given type.
pub open spec fn plain_prop(j: Json, ty: Seq<char>) -> bool {
    is_obj(j, seq!["type"@], seq![|v: Json| is_str(v, ty)])
}

/// A schema property of the given type, with a description.
pub open spec fn described_prop(j: Json, ty: Seq<char>, d: Seq<char>) -> bool {
    is_obj(j, seq!["type"@, "description"@], seq![|v: Json| is_str(v, ty), |v: Json| is_str(v, d)])
}

/// A string schema property restricted to two values.
pub open spec fn enum_prop(j: Json, a: Seq<char>, b: Seq<char>) -> bool {
    is_obj(
        j,
        seq!["type"@, "enum"@],
        seq![
            |v: Json| is_str(v, "string"@),
            |v: Json| is_arr(v, seq![|w: Json| is_str(w, a), |w: Json| is_str(w, b)]),
        ],
    )
}

/// An object schema with the given properties.
pub open spec fn object_schema(
    j: Json,
    keys: Seq<Seq<char>>,
    props: Seq<spec_fn(Json) -> bool>,
) -> bool {
    is_obj(
        j,
        seq!["type"@, "properties"@],
        seq![|v: Json| is_str(v, "object"@), |v: Json| is_obj(v, keys, props)],
    )
}

/// The number of tools in the catalog.
pub const TOOL_COUNT: usize = 6;

/// The name of the catalog's `i`-th tool.
pub open spec fn catalog_name(i: int) -> Seq<char> {
    if i == 0 {
        "get_wo_status"@
    } else if i == 1 {
        "get_oee"@
    } else if i == 2 {
        "get_downtime_pareto"@
    } else if i == 3 {
        "get_ncr_queue"@
    } else if i == 4 {
        "get_trace"@
    } else {
        "get_maintenance_due"@
    }
}

/// The description of the catalog's `i`-th tool.
pub open spec fn catalog_description(i: int) -> Seq<char> {
    if i == 0 {
        "Work-order status and counts for the caller's plants. Optional `status` filters to one lifecycle status."@
    } else if i == 1 {
        "OEE (A×P×Q) for a work center over a window."@
    } else if i == 2 {
        "Ranked downtime loss by reason for a work center over a window."@
    } else if i == 3 {
        "Open non-conformances (NCRs) for the caller's plants."@
    } else if i == 4 {
        "Forward/backward genealogy for a lot or serial."@
    } else {
        "Preventive-maintenance schedules currently due."@
    }
}

/// The input schema of the catalog's `i`-th tool.
pub open spec fn catalog_schema(i: int, j: Json) -> bool {
    if i == 0 {
        object_schema(
            j,
            seq!["status"@],
            seq![|v: Json| described_prop(v, "string"@, "Filter to a WO status"@)],
        )
    } else if i == 1 {
        object_schema(
            j,
            seq!["work_center_id"@, "start"@, "end"@],
            seq![
                |v: Json| plain_prop(v, "string"@),
                |v: Json| described_prop(v, "string"@, "RFC3339"@),
                |v: Json| described_prop(v, "string"@, "RFC3339"@),
            ],
        )
    } else if i == 2 {
        object_schema(j, seq!["work_center_id"@], seq![|v: Json| plain_prop(v, "string"@)])
    } else if i == 4 {
        object_schema(
            j,
            seq!["entity_type"@, "entity_id"@, "direction"@],
            seq![
                |v: Json| enum_prop(v, "lot"@, "serial"@),
                |v: Json| plain_prop(v, "string"@),
                |v: Json| enum_prop(v, "forward"@, "backward"@),
            ],
        )
    } else {
        object_schema(j, seq![], seq![])
    }
}

fn string_prop() -> (r: Json)
    ensures
        plain_prop(r, "string"@),
{
    let mut m: Vec<(String, Json)> = Vec::new();
    m.push(member("type", jstr("string")));
    let r = obj(m);
    assert(r matches Json::Object(mm) && mm@[0].0@ == "type"@ && is_str(mm@[0].1, "string"@));
    r
}

fn described_string_prop(d: &str) -> (r: Json)
    ensures
        described_prop(r, "string"@, d@),
{
    let mut m: Vec<(String, Json)> = Vec::new();
    m.push(member("type", jstr("string")));
    m.push(member("description", jstr(d)));
    let r = obj(m);
    assert(r matches Json::Object(mm) && mm@[0].0@ == "type"@ && is_str(mm@[0].1, "string"@)
        && mm@[1].0@ == "description"@ && is_str(mm@[1].1, d@));
    r
}

fn enum_string_prop(a: &str, b: &str) -> (r: Json)
    ensures
        enum_prop(r, a@, b@),
{
    let mut choices: Vec<Json> = Vec::new();
    choices.push(jstr(a));
    choices.push(jstr(b));
    let arr = Json::Array(choices);
    assert(arr matches Json::Array(xs) && is_str(xs@[0], a@) && is_str(xs@[1], b@));
    assert(is_arr(arr, seq![|w: Json| is_str(w, a@), |w: Json| is_str(w, b@)]));
    let mut m: Vec<(String, Json)> = Vec::new();
    m.push(member("type", jstr("string")));
    m.push(member("enum", arr));
    let r = obj(m);
    assert(r matches Json::Object(mm) && mm@[0].0@ == "type"@ && is_str(mm@[0].1, "string"@)
        && mm@[1].0@ == "enum"@);
    r
}

fn object_with(props: Json, Ghost(keys): Ghost<Seq<Seq<char>>>, Ghost(vals): Ghost<Seq<spec_fn(Json) -> bool>>) -> (r: Json)
    requires
        is_obj(props, keys, vals),
    ensures
        object_schema(r, keys, vals),
{
    let mut m: Vec<(String, Json)> = Vec::new();
    m.push(member("type", jstr("object")));
    m.push(member("properties", props));
    let r = obj(m);
    assert(r matches Json::Object(mm) && mm@[0].0@ == "type"@ && is_str(mm@[0].1, "object"@)
        && mm@[1].0@ == "properties"@ && is_obj(mm@[1].1, keys, vals));
    r
}

fn tool_def(name: &'static str, description: &'static str, input_schema: Json) -> (r: ToolDef)
    ensures
        r.name@ == name@,
        r.description@ == description@,
        r.input_schema == input_schema,
{
    ToolDef { name, description, input_schema }
}

/// The read-only tool catalog, advertised by both front doors.
pub fn catalog() -> (r: Vec<ToolDef>)
    ensures
        r@.len() == TOOL_COUNT,
        forall|i: int|
            0 <= i < TOOL_COUNT ==> (#[trigger] r@[i]).name@ == catalog_name(i)
                && r@[i].description@ == catalog_description(i) && catalog_schema(
                i,
                r@[i].input_schema,
            ),
{
    let mut out: Vec<ToolDef> = Vec::new();

    let mut p0: Vec<(String, Json)> = Vec::new();
    p0.push(member("status", described_string_prop("Filter to a WO status")));
    let props0 = obj(p0);
    let ghost k0 = seq!["status"@];
    let ghost v0 = seq![|v: Json| described_prop(v, "string"@, "Filter to a WO status"@)];
    assert(props0 matches Json::Object(mm) && mm@[0].0@ == "status"@ && v0[0](mm@[0].1));
    out.push(
        tool_def(
            "get_wo_status",
            "Work-order status and counts for the caller's plants. Optional `status` filters to one lifecycle status.",
            object_with(props0, Ghost(k0), Ghost(v0)),
        ),
    );

    let mut p1: Vec<(String, Json)> = Vec::new();
    p1.push(member("work_center_id", string_prop()));
    p1.push(member("start", described_string_prop("RFC3339")));
    p1.push(member("end", described_string_prop("RFC3339")));
    let props1 = obj(p1);
    let ghost k1 = seq!["work_center_id"@, "start"@, "end"@];
    let ghost v1 = seq![
        |v: Json| plain_prop(v, "string"@),
        |v: Json| described_prop(v, "string"@, "RFC3339"@),
        |v: Json| described_prop(v, "string"@, "RFC3339"@),
    ];
    assert(props1 matches Json::Object(mm) && mm@[0].0@ == k1[0] && v1[0](mm@[0].1) && mm@[1].0@
        == k1[1] && v1[1](mm@[1].1) && mm@[2].0@ == k1[2] && v1[2](mm@[2].1));
    out.push(
        tool_def(
            "get_oee",
            "OEE (A×P×Q) for a work center over a window.",
            object_with(props1, Ghost(k1), Ghost(v1)),
        ),
    );

    let mut p2: Vec<(String, Json)> = Vec::new();
    p2.push(member("work_center_id", string_prop()));
    let props2 = obj(p2);
    let ghost k2 = seq!["work_center_id"@];
    let ghost v2 = seq![|v: Json| plain_prop(v, "string"@)];
    assert(props2 matches Json::Object(mm) && mm@[0].0@ == k2[0] && v2[0](mm@[0].1));
    out.push(
        tool_def(
            "get_downtime_pareto",
            "Ranked downtime loss by reason for a work center over a window.",
            object_with(props2, Ghost(k2), Ghost(v2)),
        ),
    );

    let ghost no_keys: Seq<Seq<char>> = seq![];
    let ghost no_vals: Seq<spec_fn(Json) -> bool> = seq![];
    out.push(
        tool_def(
            "get_ncr_queue",
            "Open non-conformances (NCRs) for the caller's plants.",
            object_with(empty_obj(), Ghost(no_keys), Ghost(no_vals)),
        ),
    );

    let mut p4: Vec<(String, Json)> = Vec::new();
    p4.push(member("entity_type", enum_string_prop("lot", "serial")));
    p4.push(member("entity_id", string_prop()));
    p4.push(member("direction", enum_string_prop("forward", "backward")));
    let props4 = obj(p4);
    let ghost k4 = seq!["entity_type"@, "entity_id"@, "direction"@];
    let ghost v4 = seq![
        |v: Json| enum_prop(v, "lot"@, "serial"@),
        |v: Json| plain_prop(v, "string"@),
        |v: Json| enum_prop(v, "forward"@, "backward"@),
    ];
    assert(props4 matches Json::Object(mm) && mm@[0].0@ == k4[0] && v4[0](mm@[0].1) && mm@[1].0@
        == k4[1] && v4[1](mm@[1].1) && mm@[2].0@ == k4[2] && v4[2](mm@[2].1));
    out.push(
        tool_def(
            "get_trace",
            "Forward/backward genealogy for a lot or serial.",
            object_with(props4, Ghost(k4), Ghost(v4)),
        ),
    );

    out.push(
        tool_def(
            "get_maintenance_due",
            "Preventive-maintenance schedules currently due.",
            object_with(empty_obj(), Ghost(no_keys), Ghost(no_vals)),
        ),
    );
    out
}


/// The tail of the note a not-yet-aggregated tool returns.
pub open spec fn pending_note_tail() -> Seq<char> {
    " is available per-plant on the edge; cloud aggregation for this tool arrives when that aggregate is added to the sync set (additive)."@
}

/// The result of a tenant-scoped tool whose aggregate is not yet synced to the
/// cloud: no items, and a note naming the aggregate.
pub open spec fn is_pending_result(j: Json, aggregate: Seq<char>) -> bool {
    is_obj(
        j,
        seq!["items"@, "note"@],
        seq![
            |v: Json| is_arr(v, seq![]),
            |v: Json| is_str(v, aggregate + pending_note_tail()),
        ],
    )
}

/// The result of a tool whose aggregate is not yet synced to the cloud.
pub fn pending(aggregate: &str) -> (r: Json)
    ensures
        is_pending_result(r, aggregate@),
{
    let mut note = String::from_str(aggregate);
    note.append(
        " is available per-plant on the edge; cloud aggregation for this tool arrives when that aggregate is added to the sync set (additive).",
    );
    let items = Json::Array(Vec::new());
    let mut m: Vec<(String, Json)> = Vec::new();
    m.push(member("items", items));
    m.push(member("note", Json::Str(note)));
    let r = obj(m);
    assert(r matches Json::Object(mm) && mm@[0].0@ == "items"@ && is_arr(mm@[0].1, seq![])
        && mm@[1].0@ == "note"@ && is_str(mm@[1].1, aggregate@ + pending_note_tail()));
    r
}

/// OEE for a work center: not yet aggregated in the cloud, so a pending note for any
/// tenant and arguments.
pub fn get_oee(_scope: &TenantScope, _args: &Json) -> (r: Result<Json, AgentToolError>)
    ensures
        r matches Ok(j) && is_pending_result(j, "OEE"@),
{
    Ok(pending("OEE"))
}

/// The downtime Pareto: not yet aggregated in the cloud, so a pending note for any
/// tenant and arguments.
pub fn get_downtime_pareto(_scope: &TenantScope, _args: &Json) -> (r: Result<Json, AgentToolError>)
    ensures
        r matches Ok(j) && is_pending_result(j, "Downtime Pareto"@),
{
    Ok(pending("Downtime Pareto"))
}

/// The open NCR queue: not yet aggregated in the cloud, so a pending note for any
/// tenant and arguments.
pub fn get_ncr_queue(_scope: &TenantScope, _args: &Json) -> (r: Result<Json, AgentToolError>)
    ensures
        r matches Ok(j) && is_pending_result(j, "The NCR queue"@),
{
    Ok(pending("The NCR queue"))
}

/// Lot and serial genealogy: not yet aggregated in the cloud, so a pending note for any
/// tenant and arguments.
pub fn get_trace(_scope: &TenantScope, _args: &Json) -> (r: Result<Json, AgentToolError>)
    ensures
        r matches Ok(j) && is_pending_result(j, "Traceability"@),
{
    Ok(pending("Traceability"))
}

/// The preventive-maintenance schedules due: not yet aggregated in the cloud, so a pending note for any
/// tenant and arguments.
pub fn get_maintenance_due(_scope: &TenantScope, _args: &Json) -> (r: Result<Json, AgentToolError>)
    ensures
        r matches Ok(j) && is_pending_result(j, "Maintenance-due"@),
{
    Ok(pending("Maintenance-due"))
}

/// The aggregate behind a tool that is answered without a query.
pub open spec fn pending_aggregate(name: Seq<char>) -> Option<Seq<char>> {
    if name == "get_oee"@ {
        Some("OEE"@)
    } else if name == "get_downtime_pareto"@ {
        Some("Downtime Pareto"@)
    } else if name == "get_ncr_queue"@ {
        Some("The NCR queue"@)
    } else if name == "get_trace"@ {
        Some("Traceability"@)
    } else if name == "get_maintenance_due"@ {
        Some("Maintenance-due"@)
    } else {
        None
    }
}

/// What a routed tool call needs.
#[derive(Debug)]
pub enum ToolPlan {
    /// Query the tenant's work orders, optionally filtered to one status.
    WorkOrders { status: Option<String> },
    /// The result is known without a query.
    Ready(Json),
}

/// Route a tool call by name, bound to `scope`. `get_wo_status` needs the tenant's work orders
/// (filtered by the `status` argument when it is a string); the other catalog
/// tools answer with a pending note; any other name is an unknown tool.
pub fn dispatch(scope: &TenantScope, name: &str, args: &Json) -> (r: Result<ToolPlan, AgentToolError>)
    ensures
        name@ == "get_wo_status"@ ==> (r matches Ok(ToolPlan::WorkOrders { status }) && match str_member(
            *args,
            "status"@,
        ) {
            Some(t) => status matches Some(s) && s@ == t,
            None => status is None,
        }),
        pending_aggregate(name@) matches Some(a) ==> (r matches Ok(ToolPlan::Ready(j))
            && is_pending_result(j, a)),
        name@ != "get_wo_status"@ && pending_aggregate(name@) is None ==> (r matches Err(
            AgentToolError::UnknownTool(n),
        ) && n@ == name@),
{
    proof {
        reveal_strlit("get_wo_status");
        reveal_strlit("get_oee");
        reveal_strlit("get_downtime_pareto");
        reveal_strlit("get_ncr_queue");
        reveal_strlit("get_trace");
        reveal_strlit("get_maintenance_due");
    }
    if str_eq(name, "get_wo_status") {
        let status = match get_str(args, "status") {
            Some(s) => Some(s.clone()),
            None => None,
        };
        assert(pending_aggregate(name@) is None) by {
            assert(name@[4] == 'w');
            assert("get_oee"@[4] == 'o');
            assert("get_downtime_pareto"@[4] == 'd');
            assert("get_ncr_queue"@[4] == 'n');
            assert("get_trace"@[4] == 't');
            assert("get_maintenance_due"@[4] == 'm');
        }
        Ok(ToolPlan::WorkOrders { status })
    } else if str_eq(name, "get_oee") {
        match get_oee(scope, args) {
            Ok(j) => Ok(ToolPlan::Ready(j)),
            Err(e) => Err(e),
        }
    } else if str_eq(name, "get_downtime_pareto") {
        match get_downtime_pareto(scope, args) {
            Ok(j) => Ok(ToolPlan::Ready(j)),
            Err(e) => Err(e),
        }
    } else if str_eq(name, "get_ncr_queue") {
        match get_ncr_queue(scope, args) {
            Ok(j) => Ok(ToolPlan::Ready(j)),
            Err(e) => Err(e),
        }
    } else if str_eq(name, "get_trace") {
        match get_trace(scope, args) {
            Ok(j) => Ok(ToolPlan::Ready(j)),
            Err(e) => Err(e),
        }
    } else if str_eq(name, "get_maintenance_due") {
        match get_maintenance_due(scope, args) {
            Ok(j) => Ok(ToolPlan::Ready(j)),
            Err(e) => Err(e),
        }
    } else {
        Err(AgentToolError::UnknownTool(String::from_str(name)))
    }
}

/// One work order as the status tool reads it.
#[derive(Debug, Clone)]
pub struct WoStatusRow {
    pub wo_number: String,
    pub status: String,
    pub qty_ordered: Dec,
    pub plant_id: Option<String>,
}

/// How many entries of `s` equal `x`.
pub open spec fn count_of(s: Seq<Seq<char>>, x: Seq<char>) -> nat
    decreases s.len(),
{
    if s.len() == 0 {
        0
    } else {
        count_of(s.drop_last(), x) + if s.last() == x {
            1nat
        } else {
            0nat
        }
    }
}

proof fn lemma_count_of_le_len(s: Seq<Seq<char>>, x: Seq<char>)
    ensures
        count_of(s, x) <= s.len(),
    decreases s.len(),
{
    if s.len() > 0 {
        lemma_count_of_le_len(s.drop_last(), x);
    }
}

/// The statuses of the rows, in order.
pub open spec fn row_statuses(rows: Seq<WoStatusRow>) -> Seq<Seq<char>> {
    rows.map_values(|r: WoStatusRow| r.status@)
}

/// Counts per status: keys strictly ascending, each key counted exactly, and
/// every status that occurs has a key.
pub open spec fn counts_inv(c: Seq<(String, u64)>, p: Seq<Seq<char>>) -> bool {
    &&& forall|i: int, j: int| 0 <= i < j < c.len() ==> text_lt(#[trigger] c[i].0@, #[trigger] c[j].0@)
    &&& forall|i: int| 0 <= i < c.len() ==> (#[trigger] c[i]).1 == count_of(p, c[i].0@) && c[i].1 >= 1
    &&& forall|y: Seq<char>| #[trigger] count_of(p, y) > 0 ==> exists|i: int| 0 <= i < c.len() && c[i].0@ == y
}

/// Count one more status into the sorted counts.
fn bump_count(counts: &mut Vec<(String, u64)>, x: &String, Ghost(p): Ghost<Seq<Seq<char>>>)
    requires
        counts_inv(old(counts)@, p),
        p.len() < u64::MAX,
    ensures
        counts_inv(final(counts)@, p.push(x@)),
{
    let ghost p2 = p.push(x@);
    assert(p2.drop_last() =~= p);
    assert(forall|y: Seq<char>| #[trigger] count_of(p2, y) == count_of(p, y) + if y == x@ { 1nat } else { 0nat });
    let mut j: usize = 0;
    while j < counts.len() && str_lt(counts[j].0.as_str(), x.as_str())
        invariant
            j <= counts@.len(),
            counts_inv(counts@, p),
            counts@ == old(counts)@,
            forall|i: int| 0 <= i < j ==> text_lt(#[trigger] counts@[i].0@, x@),
        decreases counts@.len() - j,
    {
        j = j + 1;
    }
    let ghost c = counts@;
    proof {
        lemma_count_of_le_len(p, x@);
        assert forall|a: int, b: int| 0 <= a < b < c.len() implies c[a].0@ != c[b].0@ by {
            lemma_text_lt_strict_total(c[a].0@, c[b].0@, c[b].0@);
        }
    }
    if j < counts.len() && str_eq(counts[j].0.as_str(), x.as_str()) {
        let (k, n) = counts.remove(j);
        assert(n == count_of(p, x@));
        counts.insert(j, (k, n + 1));
        assert(counts@ =~= c.update(j as int, (k, (n + 1) as u64)));
        assert forall|i: int| 0 <= i < counts@.len() implies (#[trigger] counts@[i]).1 == count_of(p2, counts@[i].0@)
            && counts@[i].1 >= 1 by {
            if i != j {
                assert(c[i].0@ != c[j as int].0@);
            }
        }
        assert forall|y: Seq<char>| #[trigger] count_of(p2, y) > 0 implies exists|i: int| 0 <= i < counts@.len() && counts@[i].0@ == y by {
            if y == x@ {
                assert(counts@[j as int].0@ == y);
            } else {
                assert(count_of(p, y) > 0);
                let i = choose|i: int| 0 <= i < c.len() && c[i].0@ == y;
                assert(counts@[i].0@ == y);
            }
        }
    } else {
        proof {
            if j < c.len() {
                lemma_text_lt_strict_total(c[j as int].0@, x@, x@);
                assert(text_lt(x@, c[j as int].0@));
            }
            assert forall|i: int| j <= i < c.len() implies text_lt(x@, #[trigger] c[i].0@) by {
                if i > j {
                    lemma_text_lt_strict_total(x@, c[j as int].0@, c[i].0@);
                }
            }
            assert forall|i: int| 0 <= i < c.len() implies #[trigger] c[i].0@ != x@ by {
                if i < j {
                    lemma_text_lt_strict_total(c[i].0@, x@, x@);
                } else {
                    lemma_text_lt_strict_total(x@, c[i].0@, c[i].0@);
                }
            }
            assert(count_of(p, x@) == 0) by {
                if count_of(p, x@) > 0 {
                    let i = choose|i: int| 0 <= i < c.len() && c[i].0@ == x@;
                }
            }
        }
        counts.insert(j, (x.clone(), 1));
        let ghost c2 = counts@;
        assert(c2 =~= c.insert(j as int, c2[j as int]));
        assert forall|a: int, b: int| 0 <= a < b < c2.len() implies text_lt(#[trigger] c2[a].0@, #[trigger] c2[b].0@) by {
            if b == j {
                assert(c2[a] == c[a]);
            } else if a == j {
                assert(c2[b] == c[b - 1]);
            } else {
                let a0 = if a < j { a } else { a - 1 };
                let b0 = if b < j { b } else { b - 1 };
                assert(c2[a] == c[a0]);
                assert(c2[b] == c[b0]);
            }
        }
        assert forall|i: int| 0 <= i < c2.len() implies (#[trigger] c2[i]).1 == count_of(p2, c2[i].0@) && c2[i].1 >= 1 by {
            if i < j {
                assert(c2[i] == c[i]);
            } else if i > j {
                assert(c2[i] == c[i - 1]);
            }
        }
        assert forall|y: Seq<char>| #[trigger] count_of(p2, y) > 0 implies exists|i: int| 0 <= i < c2.len() && c2[i].0@ == y by {
            if y == x@ {
                assert(c2[j as int].0@ == y);
            } else {
                assert(count_of(p, y) > 0);
                let i = choose|i: int| 0 <= i < c.len() && c[i].0@ == y;
                if i < j {
                    assert(c2[i] == c[i]);
                } else {
                    assert(c2[i + 1] == c[i]);
                }
            }
        }
    }
}

/// A work-order item of the status tool's result.
pub open spec fn is_wo_item(j: Json, r: WoStatusRow, qty_text: Seq<char>) -> bool {
    is_obj(
        j,
        seq!["wo_number"@, "status"@, "qty_ordered"@, "plant_id"@],
        seq![
            |v: Json| is_str(v, r.wo_number@),
            |v: Json| is_str(v, r.status@),
            |v: Json| is_str(v, qty_text),
            |v: Json|
                match r.plant_id {
                    Some(p) => is_str(v, p@),
                    None => v == Json::Null,
                },
        ],
    )
}

/// Work-order counts by status: one member per status that occurs, keys
/// strictly ascending, each holding how many rows have that status.
pub open spec fn is_status_counts(j: Json, statuses: Seq<Seq<char>>) -> bool {
    j matches Json::Object(m) && (forall|a: int, b: int|
        0 <= a < b < m@.len() ==> text_lt(#[trigger] m@[a].0@, #[trigger] m@[b].0@)) && (forall|
        i: int,
    |
        0 <= i < m@.len() ==> count_of(statuses, (#[trigger] m@[i]).0@) >= 1 && is_num(
            m@[i].1,
            decimal_text(count_of(statuses, m@[i].0@)),
        )) && (forall|y: Seq<char>|
        #[trigger] count_of(statuses, y) > 0 ==> exists|i: int| 0 <= i < m@.len() && m@[i].0@ == y)
}

/// The sum, over the members of a counts object, of how many of `statuses`
/// each member's key counts.
pub open spec fn counts_total(m: Seq<(String, Json)>, statuses: Seq<Seq<char>>) -> nat
    decreases m.len(),
{
    if m.len() == 0 {
        0
    } else {
        counts_total(m.drop_last(), statuses) + count_of(statuses, m.last().0@)
    }
}

/// How many members of `m` have the key `x`.
spec fn key_count(m: Seq<(String, Json)>, x: Seq<char>) -> nat
    decreases m.len(),
{
    if m.len() == 0 {
        0
    } else {
        key_count(m.drop_last(), x) + if m.last().0@ == x {
            1nat
        } else {
            0nat
        }
    }
}

proof fn lemma_counts_total_push(m: Seq<(String, Json)>, p: Seq<Seq<char>>, x: Seq<char>)
    ensures
        counts_total(m, p.push(x)) == counts_total(m, p) + key_count(m, x),
    decreases m.len(),
{
    assert(p.push(x).drop_last() =~= p);
    if m.len() > 0 {
        lemma_counts_total_push(m.drop_last(), p, x);
    }
}

proof fn lemma_key_count_absent(m: Seq<(String, Json)>, x: Seq<char>)
    requires
        forall|i: int| 0 <= i < m.len() ==> (#[trigger] m[i]).0@ != x,
    ensures
        key_count(m, x) == 0,
    decreases m.len(),
{
    if m.len() > 0 {
        let init = m.drop_last();
        assert forall|i: int| 0 <= i < init.len() implies (#[trigger] init[i]).0@ != x by {
            assert(init[i] == m[i]);
        }
        lemma_key_count_absent(init, x);
        assert(m.last() == m[m.len() - 1]);
    }
}

proof fn lemma_key_count_once(m: Seq<(String, Json)>, x: Seq<char>, k: int)
    requires
        forall|a: int, b: int| 0 <= a < b < m.len() ==> (#[trigger] m[a]).0@ != (#[trigger] m[b]).0@,
        0 <= k < m.len(),
        m[k].0@ == x,
    ensures
        key_count(m, x) == 1,
    decreases m.len(),
{
    let init = m.drop_last();
    if k == m.len() - 1 {
        assert forall|i: int| 0 <= i < init.len() implies (#[trigger] init[i]).0@ != x by {
            assert(init[i] == m[i]);
            assert(m[i].0@ != m[m.len() - 1].0@);
        }
        lemma_key_count_absent(init, x);
    } else {
        assert forall|a: int, b: int| 0 <= a < b < init.len() implies (#[trigger] init[a]).0@ != (
        #[trigger] init[b]).0@ by {
            assert(init[a] == m[a] && init[b] == m[b]);
        }
        assert(init[k] == m[k]);
        lemma_key_count_once(init, x, k);
        assert(m.last() == m[m.len() - 1]);
        assert(m[k].0@ != m[m.len() - 1].0@);
    }
}

proof fn lemma_counts_total_covers(m: Seq<(String, Json)>, statuses: Seq<Seq<char>>)
    requires
        forall|a: int, b: int| 0 <= a < b < m.len() ==> (#[trigger] m[a]).0@ != (#[trigger] m[b]).0@,
        forall|y: Seq<char>| #[trigger] count_of(statuses, y) > 0 ==> exists|i: int|
            0 <= i < m.len() && m[i].0@ == y,
    ensures
        counts_total(m, statuses) == statuses.len(),
    decreases statuses.len(),
{
    if statuses.len() == 0 {
        lemma_counts_total_empty(m, statuses);
    } else {
        let p = statuses.drop_last();
        let x = statuses.last();
        assert(statuses =~= p.push(x));
        assert forall|y: Seq<char>| #[trigger] count_of(p, y) > 0 implies exists|i: int|
            0 <= i < m.len() && m[i].0@ == y by {
            assert(count_of(statuses, y) >= count_of(p, y));
        }
        lemma_counts_total_covers(m, p);
        lemma_counts_total_push(m, p, x);
        assert(count_of(statuses, x) > 0);
        let k = choose|i: int| 0 <= i < m.len() && m[i].0@ == x;
        lemma_key_count_once(m, x, k);
    }
}

proof fn lemma_counts_total_empty(m: Seq<(String, Json)>, statuses: Seq<Seq<char>>)
    requires
        statuses.len() == 0,
    ensures
        counts_total(m, statuses) == 0,
    decreases m.len(),
{
    if m.len() > 0 {
        lemma_counts_total_empty(m.drop_last(), statuses);
    }
}

/// The counts by status add up to the number of work orders: whatever the
/// statuses, the counts object of a status-tool result holds one count per
/// status that occurs, and those counts sum to how many statuses there are.
pub proof fn lemma_status_counts_sum_to_total(j: Json, statuses: Seq<Seq<char>>)
    requires
        is_status_counts(j, statuses),
    ensures
        j matches Json::Object(m) && counts_total(m@, statuses) == statuses.len(),
{
    if let Json::Object(m) = j {
        let s = m@;
        assert forall|a: int, b: int| 0 <= a < b < s.len() implies (#[trigger] s[a]).0@ != (
        #[trigger] s[b]).0@ by {
            lemma_text_lt_strict_total(s[a].0@, s[b].0@, s[b].0@);
            assert(text_lt(s[a].0@, s[b].0@));
        }
        lemma_counts_total_covers(s, statuses);
    }
}

/// The status tool's result: the number of work orders, their counts by
/// status, and the work orders themselves in the order given.
pub open spec fn is_wo_status_result(j: Json, rows: Seq<WoStatusRow>, qty_texts: Seq<Seq<char>>) -> bool {
    is_obj(
        j,
        seq!["total"@, "counts_by_status"@, "work_orders"@],
        seq![
            |v: Json| is_num(v, decimal_text(rows.len())),
            |v: Json| is_status_counts(v, row_statuses(rows)),
            |v: Json|
                v matches Json::Array(a) && a@.len() == rows.len() && forall|i: int|
                    0 <= i < rows.len() ==> is_wo_item(#[trigger] a@[i], rows[i], qty_texts[i]),
        ],
    )
}

fn opt_str(o: &Option<String>) -> (r: Json)
    ensures
        match *o {
            Some(p) => is_str(r, p@),
            None => r == Json::Null,
        },
{
    match o {
        Some(p) => Json::Str(p.clone()),
        None => Json::Null,
    }
}

/// The status tool's result for the tenant's work orders, given the text of
/// each row's ordered quantity.
pub fn wo_status_summary(rows: &Vec<WoStatusRow>, qty_texts: Vec<String>) -> (r: Json)
    requires
        qty_texts@.len() == rows@.len(),
    ensures
        is_wo_status_result(r, rows@, qty_texts@.map_values(|t: String| t@)),
{
    let ghost texts = qty_texts@.map_values(|t: String| t@);
    let ghost statuses = row_statuses(rows@);
    let mut counts: Vec<(String, u64)> = Vec::new();
    let mut items: Vec<Json> = Vec::new();
    let mut i: usize = 0;
    assert(statuses.subrange(0, 0) =~= Seq::<Seq<char>>::empty());
    while i < rows.len()
        invariant
            i <= rows@.len(),
            qty_texts@.len() == rows@.len(),
            texts == qty_texts@.map_values(|t: String| t@),
            statuses == row_statuses(rows@),
            counts_inv(counts@, statuses.subrange(0, i as int)),
            items@.len() == i,
            forall|k: int| 0 <= k < i ==> is_wo_item(#[trigger] items@[k], rows@[k], texts[k]),
        decreases rows@.len() - i,
    {
        let row = &rows[i];
        proof {
            assert(statuses.subrange(0, i + 1) =~= statuses.subrange(0, i as int).push(row.status@));
        }
        bump_count(&mut counts, &row.status, Ghost(statuses.subrange(0, i as int)));
        let mut m: Vec<(String, Json)> = Vec::new();
        m.push(member("wo_number", Json::Str(row.wo_number.clone())));
        m.push(member("status", Json::Str(row.status.clone())));
        m.push(member("qty_ordered", Json::Str(qty_texts[i].clone())));
        m.push(member("plant_id", opt_str(&row.plant_id)));
        let item = obj(m);
        assert(item matches Json::Object(mm) && mm@[0].0@ == "wo_number"@ && is_str(mm@[0].1, rows@[i as int].wo_number@)
            && mm@[1].0@ == "status"@ && is_str(mm@[1].1, rows@[i as int].status@)
            && mm@[2].0@ == "qty_ordered"@ && is_str(mm@[2].1, texts[i as int])
            && mm@[3].0@ == "plant_id"@);
        items.push(item);
        i = i + 1;
    }
    assert(statuses.subrange(0, rows@.len() as int) =~= statuses);
    let mut cm: Vec<(String, Json)> = Vec::new();
    let mut k: usize = 0;
    while k < counts.len()
        invariant
            k <= counts@.len(),
            counts_inv(counts@, statuses),
            cm@.len() == k,
            forall|q: int| 0 <= q < k ==> (#[trigger] cm@[q]).0@ == counts@[q].0@ && is_num(
                cm@[q].1,
                decimal_text(counts@[q].1 as nat),
            ),
        decreases counts@.len() - k,
    {
        cm.push((counts[k].0.clone(), Json::Number(u64_text(counts[k].1))));
        k = k + 1;
    }
    let counts_json = obj(cm);
    assert(is_status_counts(counts_json, statuses)) by {
        assert forall|y: Seq<char>| #[trigger] count_of(statuses, y) > 0 implies exists|q: int|
            0 <= q < cm@.len() && cm@[q].0@ == y by {
            let q = choose|q: int| 0 <= q < counts@.len() && counts@[q].0@ == y;
            assert(cm@[q].0@ == y);
        }
    }
    let items_json = Json::Array(items);
    let mut top: Vec<(String, Json)> = Vec::new();
    top.push(member("total", Json::Number(u64_text(rows.len() as u64))));
    top.push(member("counts_by_status", counts_json));
    top.push(member("work_orders", items_json));
    let r = obj(top);
    assert(r matches Json::Object(mm) && mm@[0].0@ == "total"@ && is_num(mm@[0].1, decimal_text(rows@.len()))
        && mm@[1].0@ == "counts_by_status"@ && is_status_counts(mm@[1].1, statuses)
        && mm@[2].0@ == "work_orders"@ && mm@[2].1 == items_json);
    r
}

/// The status tool's result for the tenant's work orders, each ordered
/// quantity written as `rust_decimal` writes it.
pub fn get_wo_status(rows: &Vec<WoStatusRow>) -> (r: Json)
    requires
        forall|i: int| 0 <= i < rows@.len() ==> (#[trigger] rows@[i]).qty_ordered.wf(),
    ensures
        is_wo_status_result(
            r,
            rows@,
            rows@.map_values(|w: WoStatusRow| decimal_display(w.qty_ordered.parts())),
        ),
{
    let mut texts: Vec<String> = Vec::new();
    let mut i: usize = 0;
    while i < rows.len()
        invariant
            i <= rows@.len(),
            forall|q: int| 0 <= q < rows@.len() ==> (#[trigger] rows@[q]).qty_ordered.wf(),
            texts@.len() == i,
            forall|q: int| 0 <= q < i ==> (#[trigger] texts@[q])@ == decimal_display(
                rows@[q].qty_ordered.parts(),
            ),
        decreases rows@.len() - i,
    {
        texts.push(decimal_to_string(rows[i].qty_ordered));
        i = i + 1;
    }
    let ghost tv = texts@.map_values(|t: String| t@);
    assert(tv =~= rows@.map_values(|w: WoStatusRow| decimal_display(w.qty_ordered.parts())));
    wo_status_summary(rows, texts)
}

/// A JSON-RPC request to the MCP server, by method.
#[derive(Debug)]
pub enum McpCall {
    Initialize,
    /// The `notifications/initialized` notification: answered with nothing.
    Initialized,
    ToolsList,
    ToolsCall { name: String, arguments: Json },
    /// Any other method, by name.
    Unknown(String),
}

/// The method text of a request (empty when absent or not a string).
pub open spec fn method_text(req: Json) -> Seq<char> {
    match str_member(req, "method"@) {
        Some(t) => t,
        None => ""@,
    }
}

/// `r` is the call that a request names by `method` (`params` is the
/// request's `params` member, when present).
pub open spec fn is_mcp_call(r: McpCall, method: Seq<char>, params: Option<Json>) -> bool {
    if method == "initialize"@ {
        r is Initialize
    } else if method == "notifications/initialized"@ {
        r is Initialized
    } else if method == "tools/list"@ {
        r is ToolsList
    } else if method == "tools/call"@ {
        r matches McpCall::ToolsCall { name, arguments } && name@ == (match params {
            Some(p) => match str_member(p, "name"@) {
                Some(t) => t,
                None => ""@,
            },
            None => ""@,
        }) && match params {
            Some(p) => match get_spec(p, "arguments"@) {
                Some(a) => same_json(a, arguments),
                None => is_obj(arguments, seq![], seq![]),
            },
            None => is_obj(arguments, seq![], seq![]),
        }
    } else {
        r matches McpCall::Unknown(m) && m@ == method
    }
}

/// Read a JSON-RPC request: its id (null when absent) and the call it makes.
pub fn mcp_request(req: &Json) -> (r: (Json, McpCall))
    ensures
        match get_spec(*req, "id"@) {
            Some(x) => same_json(x, r.0),
            None => r.0 == Json::Null,
        },
        is_mcp_call(r.1, method_text(*req), get_spec(*req, "params"@)),
{
    let id = match get(req, "id") {
        Some(x) => json_clone(x),
        None => Json::Null,
    };
    let method: &str = match get_str(req, "method") {
        Some(m) => m.as_str(),
        None => "",
    };
    proof {
        reveal_strlit("");
    }
    let call = if str_eq(method, "initialize") {
        McpCall::Initialize
    } else if str_eq(method, "notifications/initialized") {
        McpCall::Initialized
    } else if str_eq(method, "tools/list") {
        McpCall::ToolsList
    } else if str_eq(method, "tools/call") {
        let (name, arguments) = match get(req, "params") {
            Some(p) => {
                let name = match get_str(p, "name") {
                    Some(n) => n.clone(),
                    None => String::from_str(""),
                };
                let arguments = match get(p, "arguments") {
                    Some(a) => json_clone(a),
                    None => empty_obj(),
                };
                (name, arguments)
            },
            None => (String::from_str(""), empty_obj()),
        };
        McpCall::ToolsCall { name, arguments }
    } else {
        McpCall::Unknown(String::from_str(method))
    };
    (id, call)
}

/// The protocol version the MCP server speaks.
pub open spec fn mcp_protocol_version() -> Seq<char> {
    "2024-11-05"@
}

/// The result of `initialize`: protocol version, the tools capability, and the
/// server's name and version.
pub open spec fn is_initialize_result(j: Json, version: Seq<char>) -> bool {
    is_obj(
        j,
        seq!["protocolVersion"@, "capabilities"@, "serverInfo"@],
        seq![
            |v: Json| is_str(v, mcp_protocol_version()),
            |v: Json| is_obj(v, seq!["tools"@], seq![|w: Json| is_obj(w, seq![], seq![])]),
            |v: Json|
                is_obj(
                    v,
                    seq!["name"@, "version"@],
                    seq![|w: Json| is_str(w, "electronix-mes"@), |w: Json| is_str(w, version)],
                ),
        ],
    )
}

/// The result of `initialize` for a server of the given version.
pub fn initialize_result(version: &str) -> (r: Json)
    ensures
        is_initialize_result(r, version@),
{
    let mut caps: Vec<(String, Json)> = Vec::new();
    caps.push(member("tools", empty_obj()));
    let caps = obj(caps);
    assert(caps matches Json::Object(mm) && mm@[0].0@ == "tools"@ && is_obj(mm@[0].1, seq![], seq![]));
    let mut info: Vec<(String, Json)> = Vec::new();
    info.push(member("name", jstr("electronix-mes")));
    info.push(member("version", jstr(version)));
    let info = obj(info);
    assert(info matches Json::Object(mm) && mm@[0].0@ == "name"@ && is_str(mm@[0].1, "electronix-mes"@)
        && mm@[1].0@ == "version"@ && is_str(mm@[1].1, version@));
    let mut m: Vec<(String, Json)> = Vec::new();
    m.push(member("protocolVersion", jstr("2024-11-05")));
    m.push(member("capabilities", caps));
    m.push(member("serverInfo", info));
    let r = obj(m);
    assert(r matches Json::Object(mm) && mm@[0].0@ == "protocolVersion"@ && is_str(mm@[0].1, mcp_protocol_version())
        && mm@[1].0@ == "capabilities"@ && mm@[2].0@ == "serverInfo"@);
    r
}

/// One entry of `tools/list`: the catalog's `i`-th tool.
pub open spec fn is_listed_tool(j: Json, i: int) -> bool {
    is_obj(
        j,
        seq!["name"@, "description"@, "inputSchema"@],
        seq![
            |v: Json| is_str(v, catalog_name(i)),
            |v: Json| is_str(v, catalog_description(i)),
            |v: Json| catalog_schema(i, v),
        ],
    )
}

/// The result of `tools/list`: every catalog tool, in catalog order.
pub fn tools_list_result() -> (r: Json)
    ensures
        is_obj(
            r,
            seq!["tools"@],
            seq![
                |v: Json|
                    v matches Json::Array(a) && a@.len() == TOOL_COUNT && forall|i: int|
                        0 <= i < TOOL_COUNT ==> is_listed_tool(#[trigger] a@[i], i),
            ],
        ),
{
    let mut cat = catalog();
    let ghost full = cat@;
    let mut listed: Vec<Json> = Vec::new();
    let mut k: usize = 0;
    while cat.len() > 0
        invariant
            full.len() == TOOL_COUNT,
            forall|i: int|
                0 <= i < TOOL_COUNT ==> (#[trigger] full[i]).name@ == catalog_name(i)
                    && full[i].description@ == catalog_description(i) && catalog_schema(
                    i,
                    full[i].input_schema,
                ),
            k <= TOOL_COUNT,
            cat@ == full.subrange(k as int, TOOL_COUNT as int),
            listed@.len() == k,
            forall|i: int| 0 <= i < k ==> is_listed_tool(#[trigger] listed@[i], i),
        decreases cat@.len(),
    {
        let t = cat.remove(0);
        assert(t == full[k as int]);
        assert(cat@ =~= full.subrange(k + 1, TOOL_COUNT as int));
        let mut m: Vec<(String, Json)> = Vec::new();
        m.push(member("name", jstr(t.name)));
        m.push(member("description", jstr(t.description)));
        m.push(member("inputSchema", t.input_schema));
        let e = obj(m);
        assert(e matches Json::Object(mm) && mm@[0].0@ == "name"@ && is_str(mm@[0].1, catalog_name(k as int))
            && mm@[1].0@ == "description"@ && is_str(mm@[1].1, catalog_description(k as int))
            && mm@[2].0@ == "inputSchema"@ && catalog_schema(k as int, mm@[2].1));
        listed.push(e);
        k = k + 1;
    }
    let arr = Json::Array(listed);
    let mut m: Vec<(String, Json)> = Vec::new();
    m.push(member("tools", arr));
    let r = obj(m);
    assert(r matches Json::Object(mm) && mm@[0].0@ == "tools"@ && mm@[0].1 == arr);
    r
}

/// The result of `tools/call`: one text content item and whether it is an
/// error.
pub open spec fn is_tool_call_result(j: Json, text: Seq<char>, is_error: bool) -> bool {
    is_obj(
        j,
        seq!["content"@, "isError"@],
        seq![
            |v: Json|
                is_arr(
                    v,
                    seq![
                        |w: Json|
                            is_obj(
                                w,
                                seq!["type"@, "text"@],
                                seq![|x: Json| is_str(x, "text"@), |x: Json| is_str(x, text)],
                            ),
                    ],
                ),
            |v: Json| v == Json::Bool(is_error),
        ],
    )
}

/// The result of `tools/call`: the tool's result as text (its JSON), or the
/// tool error's message marked as an error.
pub fn tools_call_result(outcome: Result<String, AgentToolError>) -> (r: Json)
    ensures
        match outcome {
            Ok(t) => is_tool_call_result(r, t@, false),
            Err(e) => is_tool_call_result(r, agent_tool_error_text(e), true),
        },
{
    let (text, is_error) = match outcome {
        Ok(t) => (t, false),
        Err(e) => (e.message(), true),
    };
    let ghost tv = text@;
    let mut item: Vec<(String, Json)> = Vec::new();
    item.push(member("type", jstr("text")));
    item.push(member("text", Json::Str(text)));
    let item = obj(item);
    assert(item matches Json::Object(mm) && mm@[0].0@ == "type"@ && is_str(mm@[0].1, "text"@)
        && mm@[1].0@ == "text"@ && is_str(mm@[1].1, tv));
    let mut content: Vec<Json> = Vec::new();
    content.push(item);
    let content = Json::Array(content);
    let mut m: Vec<(String, Json)> = Vec::new();
    m.push(member("content", content));
    m.push(member("isError", Json::Bool(is_error)));
    let r = obj(m);
    assert(r matches Json::Object(mm) && mm@[0].0@ == "content"@ && mm@[0].1 == content
        && mm@[1].0@ == "isError"@ && mm@[1].1 == Json::Bool(is_error));
    r
}

/// The JSON-RPC error code for an unknown method.
pub const METHOD_NOT_FOUND: i64 = -32601i64;

/// The error an unknown method is answered with.
pub fn method_not_found(method: &str) -> (r: (i64, String))
    ensures
        r.0 == METHOD_NOT_FOUND,
        r.1@ == "method not found: "@ + method@,
{
    let mut m = String::from_str("method not found: ");
    m.append(method);
    (METHOD_NOT_FOUND, m)
}

/// A JSON-RPC response carrying `result`, or the error `(code, message)`.
pub open spec fn is_rpc_envelope(j: Json, id: Json, result: Result<Json, (i64, String)>) -> bool {
    match result {
        Ok(x) => is_obj(
            j,
            seq!["jsonrpc"@, "id"@, "result"@],
            seq![|v: Json| is_str(v, "2.0"@), |v: Json| v == id, |v: Json| v == x],
        ),
        Err(e) => is_obj(
            j,
            seq!["jsonrpc"@, "id"@, "error"@],
            seq![
                |v: Json| is_str(v, "2.0"@),
                |v: Json| v == id,
                |v: Json|
                    is_obj(
                        v,
                        seq!["code"@, "message"@],
                        seq![|w: Json| is_num(w, signed_text(e.0 as int)), |w: Json| is_str(w, e.1@)],
                    ),
            ],
        ),
    }
}

/// Wrap a result or an error into a JSON-RPC 2.0 response for request `id`.
pub fn rpc_envelope(id: Json, result: Result<Json, (i64, String)>) -> (r: Json)
    ensures
        is_rpc_envelope(r, id, result),
{
    let ghost idv = id;
    let ghost res = result;
    let mut m: Vec<(String, Json)> = Vec::new();
    m.push(member("jsonrpc", jstr("2.0")));
    m.push(member("id", id));
    match result {
        Ok(x) => {
            let ghost xv = x;
            m.push(member("result", x));
            let r = obj(m);
            assert(r matches Json::Object(mm) && mm@[0].0@ == "jsonrpc"@ && is_str(mm@[0].1, "2.0"@)
                && mm@[1].0@ == "id"@ && mm@[1].1 == idv && mm@[2].0@ == "result"@ && mm@[2].1 == xv);
            r
        },
        Err((code, message)) => {
            let ghost mv = message@;
            let mut e: Vec<(String, Json)> = Vec::new();
            e.push(member("code", Json::Number(i64_text(code))));
            e.push(member("message", Json::Str(message)));
            let e = obj(e);
            assert(e matches Json::Object(mm) && mm@[0].0@ == "code"@ && is_num(mm@[0].1, signed_text(code as int))
                && mm@[1].0@ == "message"@ && is_str(mm@[1].1, mv));
            m.push(member("error", e));
            let r = obj(m);
            assert(r matches Json::Object(mm) && mm@[0].0@ == "jsonrpc"@ && is_str(mm@[0].1, "2.0"@)
                && mm@[1].0@ == "id"@ && mm@[1].1 == idv && mm@[2].0@ == "error"@ && mm@[2].1 == e);
            r
        },
    }
}

/// One content block of a conversation turn.
#[derive(Debug)]
pub enum Block {
    Text { text: String },
    ToolUse { id: String, name: String, input: Json },
    ToolResult { tool_use_id: String, content: String },
}

/// One turn of the conversation: who spoke and what.
#[derive(Debug)]
pub struct Message {
    pub role: String,
    pub content: Vec<Block>,
}

/// One assistant turn: its content blocks, text and tool uses.
#[derive(Debug)]
pub struct AssistantReply {
    pub content: Vec<Block>,
}

/// A tool the model asked for.
#[derive(Debug)]
pub struct ToolUseCall {
    pub id: String,
    pub name: String,
    pub input: Json,
}

/// The most model turns one question may take.
pub const MAX_TURNS: usize = 8;

/// The copilot's instructions to the model.
pub const SYSTEM: &'static str = "You are the ElectronIx MES supervisor copilot. Answer questions about this plant's production using the read-only tools provided. All tool results are already scoped to the caller's organisation. Be concise and specific.";

/// The tool-use blocks of a reply, in order.
pub open spec fn tool_uses(blocks: Seq<Block>) -> Seq<Block>
    decreases blocks.len(),
{
    if blocks.len() == 0 {
        seq![]
    } else if blocks.last() is ToolUse {
        tool_uses(blocks.drop_last()).push(blocks.last())
    } else {
        tool_uses(blocks.drop_last())
    }
}

/// The texts of a reply's text blocks, in order.
pub open spec fn text_parts(blocks: Seq<Block>) -> Seq<Seq<char>>
    decreases blocks.len(),
{
    if blocks.len() == 0 {
        seq![]
    } else {
        match blocks.last() {
            Block::Text { text } => text_parts(blocks.drop_last()).push(text@),
            _ => text_parts(blocks.drop_last()),
        }
    }
}

/// Texts joined by newlines.
pub open spec fn join_lines(parts: Seq<Seq<char>>) -> Seq<char>
    decreases parts.len(),
{
    if parts.len() == 0 {
        ""@
    } else if parts.len() == 1 {
        parts[0]
    } else {
        join_lines(parts.drop_last()) + "\n"@ + parts.last()
    }
}

/// `u` is the tool-use block `b`.
pub open spec fn is_use_of(u: ToolUseCall, b: Block) -> bool {
    b matches Block::ToolUse { id, name, input } && u.id@ == id@ && u.name@ == name@ && same_json(
        input,
        u.input,
    )
}

/// `c` records the tool-use block `b`.
pub open spec fn is_call_of(c: CopilotToolCall, b: Block) -> bool {
    b matches Block::ToolUse { name, input, .. } && c.name@ == name@ && same_json(input, c.arguments)
}

/// What the copilot does after a model turn.
#[derive(Debug)]
pub enum CopilotStep {
    /// The model answered: the reply's texts joined by newlines.
    Answer(String),
    /// The model asked for tools: run each, tenant-scoped, and feed the
    /// results back.
    CallTools(Vec<ToolUseCall>),
}

/// The state of one copilot question: turns taken, the conversation so far,
/// and the tools called.
pub struct CopilotSession {
    turns: usize,
    messages: Vec<Message>,
    tool_calls: Vec<CopilotToolCall>,
}

impl CopilotSession {
    /// Model turns taken so far.
    pub closed spec fn turns_taken(self) -> nat {
        self.turns as nat
    }

    /// The conversation so far.
    pub closed spec fn transcript(self) -> Seq<Message> {
        self.messages@
    }

    /// The tools called so far, in order.
    pub closed spec fn calls(self) -> Seq<CopilotToolCall> {
        self.tool_calls@
    }

    /// A new question: the conversation is the user's message alone.
    pub fn start(user_message: &str) -> (r: CopilotSession)
        ensures
            r.turns_taken() == 0,
            r.transcript().len() == 1,
            r.transcript()[0].role@ == "user"@,
            r.transcript()[0].content@.len() == 1,
            r.transcript()[0].content@[0] matches Block::Text { text } && text@ == user_message@,
            r.calls().len() == 0,
    {
        let mut content: Vec<Block> = Vec::new();
        content.push(Block::Text { text: String::from_str(user_message) });
        let mut messages: Vec<Message> = Vec::new();
        messages.push(Message { role: String::from_str("user"), content });
        CopilotSession { turns: 0, messages, tool_calls: Vec::new() }
    }

    /// Whether another model turn may be taken.
    pub fn can_continue(&self) -> (r: bool)
        ensures
            r == (self.turns_taken() < MAX_TURNS),
    {
        self.turns < MAX_TURNS
    }

    /// The conversation so far, to send to the model.
    pub fn messages(&self) -> (r: &Vec<Message>)
        ensures
            r@ == self.transcript(),
    {
        &self.messages
    }

    /// Take the model's reply: record it in the conversation, and either
    /// answer with its text or ask for the tools it uses (recording each
    /// call).
    pub fn on_reply(&mut self, reply: AssistantReply) -> (step: CopilotStep)
        requires
            old(self).turns_taken() < MAX_TURNS,
        ensures
            final(self).turns_taken() == old(self).turns_taken() + 1,
            final(self).transcript() == old(self).transcript().push(final(self).transcript().last()),
            final(self).transcript().last().role@ == "assistant"@,
            final(self).transcript().last().content@ == reply.content@,
            tool_uses(reply.content@).len() == 0 ==> (step matches CopilotStep::Answer(t) && t@ == join_lines(
                text_parts(reply.content@),
            ) && final(self).calls() == old(self).calls()),
            tool_uses(reply.content@).len() > 0 ==> (step matches CopilotStep::CallTools(u)
                && u@.len() == tool_uses(reply.content@).len()
                && (forall|i: int| 0 <= i < u@.len() ==> is_use_of(#[trigger] u@[i], tool_uses(reply.content@)[i]))
                && final(self).calls().len() == old(self).calls().len() + u@.len()
                && final(self).calls().subrange(0, old(self).calls().len() as int) == old(self).calls()
                && forall|i: int| 0 <= i < u@.len() ==> is_call_of(
                    #[trigger] final(self).calls()[old(self).calls().len() + i],
                    tool_uses(reply.content@)[i],
                )),
    {
        let reply = reply.content;
        let ghost rv = reply@;
        let mut uses: Vec<ToolUseCall> = Vec::new();
        let mut text = String::from_str("");
        let mut any_text = false;
        let mut i: usize = 0;
        proof {
            reveal_strlit("");
            assert(rv.subrange(0, 0) =~= Seq::<Block>::empty());
        }
        while i < reply.len()
            invariant
                rv == reply@,
                i <= rv.len(),
                uses@.len() == tool_uses(rv.subrange(0, i as int)).len(),
                forall|k: int|
                    0 <= k < uses@.len() ==> is_use_of(
                        #[trigger] uses@[k],
                        tool_uses(rv.subrange(0, i as int))[k],
                    ),
                text@ == join_lines(text_parts(rv.subrange(0, i as int))),
                any_text == (text_parts(rv.subrange(0, i as int)).len() > 0),
            decreases rv.len() - i,
        {
            let ghost pre = rv.subrange(0, i as int);
            let ghost sub = rv.subrange(0, i + 1);
            assert(sub.drop_last() =~= pre);
            assert(sub.last() == rv[i as int]);
            match &reply[i] {
                Block::ToolUse { id, name, input } => {
                    uses.push(ToolUseCall { id: id.clone(), name: name.clone(), input: json_clone(input) });
                    assert(tool_uses(sub) == tool_uses(pre).push(rv[i as int]));
                    assert forall|k: int| 0 <= k < uses@.len() implies is_use_of(
                        #[trigger] uses@[k],
                        tool_uses(sub)[k],
                    ) by {
                        if k < uses@.len() - 1 {
                            assert(tool_uses(sub)[k] == tool_uses(pre)[k]);
                        }
                    }
                },
                Block::Text { text: t } => {
                    let ghost before = text@;
                    if any_text {
                        text.append("\n");
                    }
                    text.append(t.as_str());
                    proof {
                        reveal_strlit("\n");
                        let parts = text_parts(sub);
                        assert(parts == text_parts(pre).push(t@));
                        if text_parts(pre).len() > 0 {
                            assert(parts.drop_last() =~= text_parts(pre));
                            assert(text@ =~= before + "\n"@ + t@);
                        } else {
                            reveal_strlit("");
                            assert(before =~= ""@);
                            assert(text@ =~= t@);
                        }
                    }
                    any_text = true;
                },
                Block::ToolResult { .. } => {},
            }
            i = i + 1;
        }
        assert(rv.subrange(0, rv.len() as int) =~= rv);
        self.turns = self.turns + 1;
        let ghost old_calls = self.tool_calls@;
        let mut k: usize = 0;
        while k < uses.len()
            invariant
                k <= uses@.len(),
                self.turns == old(self).turns + 1,
                self.messages@ == old(self).messages@,
                uses@.len() == tool_uses(rv).len(),
                forall|q: int| 0 <= q < uses@.len() ==> is_use_of(#[trigger] uses@[q], tool_uses(rv)[q]),
                self.tool_calls@.len() == old_calls.len() + k,
                self.tool_calls@.subrange(0, old_calls.len() as int) == old_calls,
                forall|q: int|
                    0 <= q < k ==> is_call_of(
                        #[trigger] self.tool_calls@[old_calls.len() + q],
                        tool_uses(rv)[q],
                    ),
            decreases uses@.len() - k,
        {
            let call = CopilotToolCall { name: uses[k].name.clone(), arguments: json_clone(&uses[k].input) };
            proof {
                crate::json::lemma_same_json_transitive(
                    match tool_uses(rv)[k as int] {
                        Block::ToolUse { input, .. } => input,
                        _ => Json::Null,
                    },
                    uses@[k as int].input,
                    call.arguments,
                );
            }
            let ghost before = self.tool_calls@;
            self.tool_calls.push(call);
            assert(self.tool_calls@.subrange(0, old_calls.len() as int) =~= before.subrange(
                0,
                old_calls.len() as int,
            ));
            k = k + 1;
        }
        self.messages.push(Message { role: String::from_str("assistant"), content: reply });
        if uses.len() == 0 {
            CopilotStep::Answer(text)
        } else {
            CopilotStep::CallTools(uses)
        }
    }

    /// Feed the tool results back to the model as the user's next turn.
    pub fn on_tool_results(&mut self, results: Vec<Block>)
        ensures
            final(self).turns_taken() == old(self).turns_taken(),
            final(self).calls() == old(self).calls(),
            final(self).transcript() == old(self).transcript().push(final(self).transcript().last()),
            final(self).transcript().last().role@ == "user"@,
            final(self).transcript().last().content@ == results@,
    {
        self.messages.push(Message { role: String::from_str("user"), content: results });
    }

    /// The answer to the question, with the tools called for it.
    pub fn into_response(self, reply: String) -> (r: CopilotResponse)
        ensures
            r.reply == reply,
            r.tool_calls@ == self.calls(),
    {
        CopilotResponse { reply, tool_calls: self.tool_calls }
    }
}

/// The result block answering one tool use.
pub fn tool_result(tool_use_id: String, content: String) -> (r: Block)
    ensures
        r == (Block::ToolResult { tool_use_id, content }),
{
    Block::ToolResult { tool_use_id, content }
}

/// The result content of a failed tool call: an object naming the error.
pub fn tool_error_json(e: &AgentToolError) -> (r: Json)
    ensures
        is_obj(r, seq!["error"@], seq![|v: Json| is_str(v, agent_tool_error_text(*e))]),
{
    let t = e.message();
    let ghost tv = t@;
    let mut m: Vec<(String, Json)> = Vec::new();
    m.push(member("error", Json::Str(t)));
    let r = obj(m);
    assert(r matches Json::Object(mm) && mm@[0].0@ == "error"@ && is_str(mm@[0].1, tv));
    r
}

/// Errors of the copilot.
#[derive(Debug, Clone, PartialEq, Eq)]
pub enum CopilotError {
    /// No model backend is configured or reachable.
    Unavailable(String),
    /// The model call failed.
    Llm(String),
    /// The tool loop took every turn without answering.
    NoConverge,
}

/// The text of a copilot error.
pub open spec fn copilot_error_text(e: CopilotError) -> Seq<char> {
    match e {
        CopilotError::Unavailable(m) => "copilot backend unavailable: "@ + m@,
        CopilotError::Llm(m) => "llm error: "@ + m@,
        CopilotError::NoConverge => "tool loop did not converge"@,
    }
}

impl CopilotError {
    /// The error's message.
    pub fn message(&self) -> (r: String)
        ensures
            r@ == copilot_error_text(*self),
    {
        match self {
            CopilotError::Unavailable(m) => {
                let mut s = String::from_str("copilot backend unavailable: ");
                s.append(m.as_str());
                s
            },
            CopilotError::Llm(m) => {
                let mut s = String::from_str("llm error: ");
                s.append(m.as_str());
                s
            },
            CopilotError::NoConverge => String::from_str("tool loop did not converge"),
        }
    }
}

/// The HTTP status and error body a copilot error is answered with: 503
/// `copilot_unavailable`, 502 `llm_error`, or 500 `no_converge`.
pub fn copilot_err(e: CopilotError) -> (r: (u16, ApiError))
    ensures
        match e {
            CopilotError::Unavailable(m) => r.0 == 503 && r.1.error@ == "copilot_unavailable"@
                && r.1.message@ == m@,
            CopilotError::Llm(m) => r.0 == 502 && r.1.error@ == "llm_error"@ && r.1.message@ == m@,
            CopilotError::NoConverge => r.0 == 500 && r.1.error@ == "no_converge"@ && r.1.message@
                == "tool loop did not converge"@,
        },
{
    match e {
        CopilotError::Unavailable(m) => (503, ApiError::new("copilot_unavailable", m)),
        CopilotError::Llm(m) => (502, ApiError::new("llm_error", m)),
        CopilotError::NoConverge => (
            500,
            ApiError::new("no_converge", String::from_str("tool loop did not converge")),
        ),
    }
}

/// The backend used when no model is configured: every turn fails as
/// unavailable, so the copilot degrades gracefully.
#[derive(Debug, Clone, Copy)]
pub struct NullBackend;

impl NullBackend {
    /// A model turn: always unavailable.
    pub fn turn(&self) -> (r: Result<AssistantReply, CopilotError>)
        ensures
            r matches Err(CopilotError::Unavailable(m)) && m@ == "no model backend configured"@,
    {
        Err(CopilotError::Unavailable(String::from_str("no model backend configured")))
    }
}

} // verus!
