use mes::agent::{
    catalog, copilot_err, dispatch, get_downtime_pareto, get_maintenance_due, get_ncr_queue,
    get_oee, get_trace, get_wo_status, initialize_result, mcp_request,
    method_not_found, pending, rpc_envelope, tool_error_json, tool_result, tools_call_result,
    tools_list_result, wo_status_summary, AgentToolError, Block, CopilotError, CopilotSession,
    CopilotStep, AssistantReply, McpCall, NullBackend, TenantScope, ToolPlan, WoStatusRow, MAX_TURNS,
    METHOD_NOT_FOUND, TOOL_COUNT,
};
use mes::client::{
    to_nodes, ApiError, CoreError, CopilotRequest, SignalEvent, TraceNode,
};
use mes::decimal::Dec;
use mes::json::{get, Json};

fn s(t: &str) -> Json {
    Json::Str(t.to_string())
}

fn obj(members: Vec<(&str, Json)>) -> Json {
    Json::Object(members.into_iter().map(|(k, v)| (k.to_string(), v)).collect())
}

fn str_at<'a>(v: &'a Json, key: &str) -> Option<&'a str> {
    match get(v, key) {
        Some(Json::Str(t)) => Some(t.as_str()),
        _ => None,
    }
}

fn keys(v: &Json) -> Vec<String> {
    match v {
        Json::Object(m) => m.iter().map(|(k, _)| k.clone()).collect(),
        _ => vec![],
    }
}

#[test]
fn tenant_scope_keeps_its_org() {
    assert_eq!(TenantScope::new("org-1").org_id, "org-1");
}

#[test]
fn catalog_lists_the_six_read_only_tools() {
    let c = catalog();
    assert_eq!(c.len(), TOOL_COUNT);
    let names: Vec<_> = c.iter().map(|t| t.name).collect();
    assert_eq!(
        names,
        [
            "get_wo_status",
            "get_oee",
            "get_downtime_pareto",
            "get_ncr_queue",
            "get_trace",
            "get_maintenance_due"
        ]
    );
    assert_eq!(c[1].description, "OEE (A×P×Q) for a work center over a window.");
    let schema = &c[0].input_schema;
    assert_eq!(str_at(schema, "type"), Some("object"));
    let status = get(get(schema, "properties").unwrap(), "status").unwrap();
    assert_eq!(str_at(status, "description"), Some("Filter to a WO status"));
    let trace_props = get(&c[4].input_schema, "properties").unwrap();
    assert_eq!(keys(trace_props), ["entity_type", "entity_id", "direction"]);
    assert_eq!(
        get(get(trace_props, "direction").unwrap(), "enum"),
        Some(&Json::Array(vec![s("forward"), s("backward")]))
    );
    assert_eq!(keys(get(&c[5].input_schema, "properties").unwrap()), Vec::<String>::new());
}

#[test]
fn dispatch_routes_by_name() {
    let scope = TenantScope::new("org-a");
    match dispatch(&scope, "get_wo_status", &obj(vec![("status", s("released"))])) {
        Ok(ToolPlan::WorkOrders { status }) => assert_eq!(status, Some("released".to_string())),
        other => panic!("unexpected {:?}", other),
    }
    match dispatch(&scope, "get_wo_status", &obj(vec![("status", Json::Number("3".to_string()))])) {
        Ok(ToolPlan::WorkOrders { status }) => assert_eq!(status, None),
        other => panic!("unexpected {:?}", other),
    }
    match dispatch(&scope, "get_oee", &obj(vec![])) {
        Ok(ToolPlan::Ready(j)) => assert_eq!(j, pending("OEE")),
        other => panic!("unexpected {:?}", other),
    }
    match dispatch(&scope, "drop_tables", &Json::Null) {
        Err(e) => {
            assert_eq!(e, AgentToolError::UnknownTool("drop_tables".to_string()));
            assert_eq!(e.message(), "unknown tool: drop_tables");
        },
        other => panic!("unexpected {:?}", other),
    }
}

#[test]
fn pending_tools_explain_themselves() {
    let scope = TenantScope::new("org-a");
    let args = Json::Object(vec![]);
    assert_eq!(get_oee(&scope, &args), Ok(pending("OEE")));
    assert_eq!(get_downtime_pareto(&scope, &args), Ok(pending("Downtime Pareto")));
    assert_eq!(get_ncr_queue(&scope, &args), Ok(pending("The NCR queue")));
    assert_eq!(get_trace(&scope, &args), Ok(pending("Traceability")));
    assert_eq!(get_maintenance_due(&scope, &args), Ok(pending("Maintenance-due")));
    let p = pending("The NCR queue");
    assert_eq!(get(&p, "items"), Some(&Json::Array(vec![])));
    assert_eq!(
        str_at(&p, "note"),
        Some("The NCR queue is available per-plant on the edge; cloud aggregation for this tool arrives when that aggregate is added to the sync set (additive).")
    );
}

fn row(wo: &str, status: &str, plant: Option<&str>) -> WoStatusRow {
    WoStatusRow {
        wo_number: wo.to_string(),
        status: status.to_string(),
        qty_ordered: Dec { mantissa: 10, scale: 0 },
        plant_id: plant.map(str::to_string),
    }
}

#[test]
fn work_order_status_counts_by_status() {
    let rows = vec![row("WO-3", "released", Some("p1")), row("WO-2", "draft", None), row("WO-1", "released", Some("p1"))];
    let r = get_wo_status(&rows);
    assert_eq!(keys(&r), ["total", "counts_by_status", "work_orders"]);
    assert_eq!(get(&r, "total"), Some(&Json::Number("3".to_string())));
    assert_eq!(
        get(&r, "counts_by_status"),
        Some(&obj(vec![("draft", Json::Number("1".to_string())), ("released", Json::Number("2".to_string()))]))
    );
    let items = match get(&r, "work_orders") {
        Some(Json::Array(a)) => a,
        other => panic!("unexpected {:?}", other),
    };
    assert_eq!(items.len(), 3);
    assert_eq!(str_at(&items[0], "wo_number"), Some("WO-3"));
    assert_eq!(str_at(&items[0], "qty_ordered"), Some("10"));
    assert_eq!(get(&items[1], "plant_id"), Some(&Json::Null));
    let empty = wo_status_summary(&vec![], vec![]);
    assert_eq!(get(&empty, "total"), Some(&Json::Number("0".to_string())));
    assert_eq!(get(&empty, "counts_by_status"), Some(&obj(vec![])));
}

#[test]
fn mcp_requests_are_read_by_method() {
    let (id, call) = mcp_request(&obj(vec![("jsonrpc", s("2.0")), ("id", Json::Number("7".to_string())), ("method", s("tools/list"))]));
    assert_eq!(id, Json::Number("7".to_string()));
    assert!(matches!(call, McpCall::ToolsList));
    let (_, call) = mcp_request(&obj(vec![
        ("method", s("tools/call")),
        ("params", obj(vec![("name", s("get_wo_status")), ("arguments", obj(vec![("status", s("draft"))]))])),
    ]));
    match call {
        McpCall::ToolsCall { name, arguments } => {
            assert_eq!(name, "get_wo_status");
            assert_eq!(arguments, obj(vec![("status", s("draft"))]));
        },
        other => panic!("unexpected {:?}", other),
    }
    let (id, call) = mcp_request(&obj(vec![("method", s("tools/call"))]));
    assert_eq!(id, Json::Null);
    match call {
        McpCall::ToolsCall { name, arguments } => {
            assert_eq!(name, "");
            assert_eq!(arguments, obj(vec![]));
        },
        other => panic!("unexpected {:?}", other),
    }
    assert!(matches!(mcp_request(&obj(vec![("method", s("initialize"))])).1, McpCall::Initialize));
    assert!(matches!(
        mcp_request(&obj(vec![("method", s("notifications/initialized"))])).1,
        McpCall::Initialized
    ));
    match mcp_request(&obj(vec![("method", s("resources/list"))])).1 {
        McpCall::Unknown(m) => assert_eq!(m, "resources/list"),
        other => panic!("unexpected {:?}", other),
    }
}

#[test]
fn mcp_results_and_envelopes() {
    let init = initialize_result("0.1.0");
    assert_eq!(str_at(&init, "protocolVersion"), Some("2024-11-05"));
    assert_eq!(str_at(get(&init, "serverInfo").unwrap(), "name"), Some("electronix-mes"));
    let list = tools_list_result();
    let tools = match get(&list, "tools") {
        Some(Json::Array(a)) => a,
        other => panic!("unexpected {:?}", other),
    };
    assert_eq!(tools.len(), 6);
    assert_eq!(keys(&tools[2]), ["name", "description", "inputSchema"]);
    assert_eq!(str_at(&tools[2], "name"), Some("get_downtime_pareto"));

    let ok = tools_call_result(Ok("{\"total\":0}".to_string()));
    assert_eq!(get(&ok, "isError"), Some(&Json::Bool(false)));
    let err = tools_call_result(Err(AgentToolError::UnknownTool("x".to_string())));
    assert_eq!(get(&err, "isError"), Some(&Json::Bool(true)));
    let content = match get(&err, "content") {
        Some(Json::Array(a)) => a,
        other => panic!("unexpected {:?}", other),
    };
    assert_eq!(str_at(&content[0], "type"), Some("text"));
    assert_eq!(str_at(&content[0], "text"), Some("unknown tool: x"));

    let (code, message) = method_not_found("resources/list");
    assert_eq!(code, METHOD_NOT_FOUND);
    assert_eq!(message, "method not found: resources/list");
    let env = rpc_envelope(Json::Number("1".to_string()), Err((code, message)));
    assert_eq!(str_at(&env, "jsonrpc"), Some("2.0"));
    let e = get(&env, "error").unwrap();
    assert_eq!(get(e, "code"), Some(&Json::Number("-32601".to_string())));
    let env = rpc_envelope(Json::Null, Ok(obj(vec![])));
    assert_eq!(keys(&env), ["jsonrpc", "id", "result"]);
}

#[test]
fn copilot_loop_answers_after_a_tool_round() {
    let mut session = CopilotSession::start("how many WOs are released?");
    assert_eq!(session.messages().len(), 1);
    assert!(session.can_continue());
    let step = session.on_reply(AssistantReply { content: vec![
        Block::Text { text: "Let me check.".to_string() },
        Block::ToolUse { id: "tu_1".to_string(), name: "get_wo_status".to_string(), input: obj(vec![("status", s("released"))]) },
    ] });
    let uses = match step {
        CopilotStep::CallTools(u) => u,
        other => panic!("unexpected {:?}", other),
    };
    assert_eq!(uses.len(), 1);
    assert_eq!(uses[0].id, "tu_1");
    assert_eq!(uses[0].name, "get_wo_status");
    session.on_tool_results(vec![tool_result("tu_1".to_string(), "{\"total\":2}".to_string())]);
    assert_eq!(session.messages().len(), 3);
    assert_eq!(session.messages()[2].role, "user");
    let step = session.on_reply(AssistantReply { content: vec![
        Block::Text { text: "Two work orders".to_string() },
        Block::Text { text: "are released.".to_string() },
    ] });
    let reply = match step {
        CopilotStep::Answer(t) => t,
        other => panic!("unexpected {:?}", other),
    };
    assert_eq!(reply, "Two work orders\nare released.");
    let resp = session.into_response(reply);
    assert_eq!(resp.tool_calls.len(), 1);
    assert_eq!(resp.tool_calls[0].name, "get_wo_status");
    assert_eq!(resp.tool_calls[0].arguments, obj(vec![("status", s("released"))]));
}

#[test]
fn copilot_stops_after_max_turns() {
    let mut session = CopilotSession::start("loop forever");
    let mut turns = 0;
    while session.can_continue() {
        let step = session.on_reply(AssistantReply { content: vec![Block::ToolUse {
            id: format!("tu_{turns}"),
            name: "get_oee".to_string(),
            input: obj(vec![]),
        }] });
        assert!(matches!(step, CopilotStep::CallTools(_)));
        session.on_tool_results(vec![]);
        turns += 1;
    }
    assert_eq!(turns, MAX_TURNS);
    assert_eq!(
        copilot_err(CopilotError::NoConverge),
        (500, ApiError::new("no_converge", "tool loop did not converge".to_string()))
    );
}

#[test]
fn copilot_degrades_without_a_backend() {
    let e = NullBackend.turn().unwrap_err();
    assert_eq!(e, CopilotError::Unavailable("no model backend configured".to_string()));
    assert_eq!(e.message(), "copilot backend unavailable: no model backend configured");
    assert_eq!(
        copilot_err(e),
        (503, ApiError::new("copilot_unavailable", "no model backend configured".to_string()))
    );
    assert_eq!(
        copilot_err(CopilotError::Llm("anthropic returned 500".to_string())),
        (502, ApiError::new("llm_error", "anthropic returned 500".to_string()))
    );
}

#[test]
fn failed_tool_calls_report_their_error() {
    let j = tool_error_json(&AgentToolError::Query("timeout".to_string()));
    assert_eq!(str_at(&j, "error"), Some("query error: timeout"));
}

#[test]
fn wire_type_behaviours() {
    assert_eq!(SignalEvent::Cycle.event_type(), "cycle");
    assert_eq!(SignalEvent::Heartbeat.event_type(), "heartbeat");
    assert_eq!(SignalEvent::Count { good: 3, scrap: 1 }.event_type(), "count");
    assert_eq!(CoreError::OutOfRange("-1".to_string()).message(), "value out of range: -1");
    assert_eq!(
        CoreError::InvalidTransition("a -> b".to_string()).message(),
        "invalid state transition: a -> b"
    );
    let req = CopilotRequest { message: "hi".to_string() };
    assert_eq!(req.message, "hi");
    let nodes: Vec<TraceNode> = to_nodes(vec![
        ("lot".to_string(), "L1".to_string(), Some("LOT-1".to_string()), 0),
        ("serial".to_string(), "S1".to_string(), None, 1),
    ]);
    assert_eq!(nodes.len(), 2);
    assert_eq!(nodes[0].entity_id, "L1");
    assert_eq!(nodes[0].ref_no.as_deref(), Some("LOT-1"));
    assert_eq!(nodes[1].entity_type, "serial");
    assert_eq!(nodes[1].depth, 1);
}

fn to_value(j: &Json) -> serde_json::Value {
    match j {
        Json::Null => serde_json::Value::Null,
        Json::Bool(b) => serde_json::Value::Bool(*b),
        Json::Number(t) => serde_json::from_str(t).unwrap(),
        Json::Str(t) => serde_json::Value::String(t.clone()),
        Json::Array(items) => serde_json::Value::Array(items.iter().map(to_value).collect()),
        Json::Object(m) => serde_json::Value::Object(m.iter().map(|(k, v)| (k.clone(), to_value(v))).collect()),
    }
}

/// A scripted model: first asks for `get_wo_status`; once a tool result is in
/// the conversation it answers with the count it received.
fn scripted_turn(messages: &[mes::agent::Message]) -> Vec<Block> {
    let last_result = messages.iter().rev().find_map(|m| {
        m.content.iter().find_map(|b| match b {
            Block::ToolResult { content, .. } => Some(content.clone()),
            _ => None,
        })
    });
    if let Some(result) = last_result {
        let data: serde_json::Value = serde_json::from_str(&result).unwrap_or(serde_json::Value::Object(serde_json::Map::new()));
        let total = data["total"].as_i64().unwrap_or(0);
        return vec![Block::Text { text: format!("You have {total} work order(s) across your plants.") }];
    }
    vec![Block::ToolUse { id: "call_1".to_string(), name: "get_wo_status".to_string(), input: obj(vec![]) }]
}

#[test]
fn copilot_round_trips_a_tool_call_tenant_scoped() {
    // The tenant's query returns only its own work order.
    let tenant_rows = vec![row("WO-C-1", "draft", Some("plant-c"))];
    let mut session = CopilotSession::start("How many work orders do we have?");
    let mut answer = None;
    while session.can_continue() {
        let reply = scripted_turn(session.messages());
        match session.on_reply(AssistantReply { content: reply }) {
            CopilotStep::Answer(t) => {
                answer = Some(t);
                break;
            },
            CopilotStep::CallTools(uses) => {
                let mut results = Vec::new();
                for u in uses {
                    let content = match dispatch(&TenantScope::new("org-c"), &u.name, &u.input) {
                        Ok(ToolPlan::WorkOrders { status }) => {
                            assert_eq!(status, None);
                            to_value(&get_wo_status(&tenant_rows)).to_string()
                        },
                        Ok(ToolPlan::Ready(j)) => to_value(&j).to_string(),
                        Err(e) => to_value(&tool_error_json(&e)).to_string(),
                    };
                    results.push(tool_result(u.id, content));
                }
                session.on_tool_results(results);
            },
        }
    }
    let resp = session.into_response(answer.unwrap());
    assert_eq!(resp.tool_calls.len(), 1);
    assert_eq!(resp.tool_calls[0].name, "get_wo_status");
    assert_eq!(resp.reply, "You have 1 work order(s) across your plants.");
}

#[test]
fn status_counts_add_up_to_the_total() {
    let statuses = ["released", "draft", "in_progress", "released", "closed", "draft", "released"];
    let rows: Vec<WoStatusRow> =
        statuses.iter().enumerate().map(|(i, st)| row(&format!("WO-{i}"), st, Some("p1"))).collect();
    let r = get_wo_status(&rows);
    let total: u64 = match get(&r, "total") {
        Some(Json::Number(t)) => t.parse().unwrap(),
        other => panic!("unexpected {:?}", other),
    };
    let sum: u64 = match get(&r, "counts_by_status") {
        Some(Json::Object(m)) => m
            .iter()
            .map(|(_, v)| match v {
                Json::Number(t) => t.parse::<u64>().unwrap(),
                other => panic!("unexpected {:?}", other),
            })
            .sum(),
        other => panic!("unexpected {:?}", other),
    };
    assert_eq!(total, 7);
    assert_eq!(sum, total);
}

#[test]
fn quantities_are_written_as_rust_decimal_writes_them() {
    let mut r = row("WO-9", "draft", None);
    r.qty_ordered = Dec { mantissa: 250, scale: 3 };
    let out = get_wo_status(&vec![r]);
    let items = match get(&out, "work_orders") {
        Some(Json::Array(a)) => a.clone(),
        other => panic!("unexpected {:?}", other),
    };
    assert_eq!(str_at(&items[0], "qty_ordered"), Some("0.250"));
}
