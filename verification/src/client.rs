//! The API's wire types: requests, responses and events shared by the edge
//! and cloud services and their clients, with the few behaviours they carry.
//! Timestamps are microseconds since the Unix epoch (UTC); quantities and
//! limits are exact decimals.

use vstd::prelude::*;
use crate::decimal::Dec;
use crate::json::Json;

verus! {

/// Liveness and version payload of `/healthz` on every service.
#[derive(Debug, Clone)]
pub struct HealthResponse {
    /// Which service answered, e.g. `mes-edge` or `mes-cloud`.
    pub service: String,
    /// Always `ok` when the process can serve requests.
    pub status: String,
    /// Version of the answering binary.
    pub version: String,
}

impl HealthResponse {
    /// An `ok` health response for the named service.
    pub fn ok(service: &str, version: &str) -> (r: HealthResponse)
        ensures
            r.service@ == service@,
            r.status@ == "ok"@,
            r.version@ == version@,
    {
        HealthResponse {
            service: String::from_str(service),
            status: String::from_str("ok"),
            version: String::from_str(version),
        }
    }
}

/// The standard error envelope of the API on non-success responses.
#[derive(Debug, Clone, PartialEq, Eq)]
pub struct ApiError {
    /// Machine-readable code, e.g. `unauthorized`.
    pub error: String,
    /// Human-readable detail.
    pub message: String,
}

impl ApiError {
    pub fn new(error: &str, message: String) -> (r: ApiError)
        ensures
            r.error@ == error@,
            r.message == message,
    {
        ApiError { error: String::from_str(error), message }
    }
}

/// Errors of the pure domain rules.
#[derive(Debug, Clone, PartialEq, Eq)]
pub enum CoreError {
    /// A transition the current state forbids.
    InvalidTransition(String),
    /// A value outside the range the domain permits.
    OutOfRange(String),
}

/// The text of a domain error.
pub open spec fn core_error_text(e: CoreError) -> Seq<char> {
    match e {
        CoreError::InvalidTransition(m) => "invalid state transition: "@ + m@,
        CoreError::OutOfRange(m) => "value out of range: "@ + m@,
    }
}

impl CoreError {
    /// The error's message.
    pub fn message(&self) -> (r: String)
        ensures
            r@ == core_error_text(*self),
    {
        let (head, m) = match self {
            CoreError::InvalidTransition(m) => ("invalid state transition: ", m),
            CoreError::OutOfRange(m) => ("value out of range: ", m),
        };
        let mut s = String::from_str(head);
        s.append(m.as_str());
        s
    }
}

/// Password sign-in.
#[derive(Debug, Clone)]
pub struct LoginRequest {
    pub username: String,
    pub password: String,
}

/// Kiosk sign-in by PIN or badge.
#[derive(Debug, Clone)]
pub struct PinLoginRequest {
    pub username: Option<String>,
    pub pin: Option<String>,
    pub badge_id: Option<String>,
}

/// A signed-in session.
#[derive(Debug, Clone)]
pub struct LoginResponse {
    pub token: String,
    pub user_id: String,
    pub username: String,
    pub role_code: String,
    /// Unix epoch seconds at which the token expires.
    pub expires_at: i64,
}

/// A maintenance work order to open.
#[derive(Debug, Clone)]
pub struct MaintenanceWoInput {
    pub work_center_id: String,
    pub pm_schedule_id: Option<String>,
    /// `PM`, `Corrective` or `Breakdown`.
    pub wo_type: String,
    pub notes: Option<String>,
}

/// A requested maintenance status change.
#[derive(Debug, Clone)]
pub struct MaintenanceTransitionInput {
    /// Target status: `scheduled`, `in_progress`, `completed` or `verified`.
    pub status: String,
    pub technician_id: Option<String>,
    pub failure_code: Option<String>,
}

/// A copilot question from the supervisor panel.
#[derive(Debug, Clone)]
pub struct CopilotRequest {
    pub message: String,
}

/// One tool call the copilot made while answering.
#[derive(Debug)]
pub struct CopilotToolCall {
    pub name: String,
    pub arguments: Json,
}

/// The copilot's answer and the tools it called.
#[derive(Debug)]
pub struct CopilotResponse {
    pub reply: String,
    pub tool_calls: Vec<CopilotToolCall>,
}

/// A manually requested program transfer.
#[derive(Debug, Clone)]
pub struct ManualTransferInput {
    pub program_id: String,
    pub wo_operation_id: Option<String>,
    pub machine: Option<String>,
}

/// What an ERP import created.
#[derive(Debug, Clone)]
pub struct ErpImportResult {
    pub entity: String,
    pub imported: usize,
    pub ids: Vec<String>,
    pub sync_log_id: String,
}

/// An ERP export to run.
#[derive(Debug, Clone)]
pub struct ErpExportRequest {
    pub connection_id: String,
    /// `stock_level` or `procurement_request`.
    pub entity: String,
}

/// A reason to attach to a downtime event.
#[derive(Debug, Clone)]
pub struct ClassifyDowntimeInput {
    pub reason_id: String,
}

/// A machine signal.
#[derive(Debug, Clone, Copy, PartialEq, Eq, Structural)]
pub enum SignalEvent {
    /// One production cycle completed; drives the state machine.
    Cycle,
    /// The machine is alive but not necessarily producing.
    Heartbeat,
    /// A production tally at this instant.
    Count { good: i32, scrap: i32 },
}

/// The stored event type of a signal.
pub open spec fn signal_event_type(e: SignalEvent) -> Seq<char> {
    match e {
        SignalEvent::Cycle => "cycle"@,
        SignalEvent::Heartbeat => "heartbeat"@,
        SignalEvent::Count { .. } => "count"@,
    }
}

impl SignalEvent {
    /// The `machine_events.event_type` text of this signal.
    pub fn event_type(&self) -> (r: &'static str)
        ensures
            r@ == signal_event_type(*self),
    {
        match self {
            SignalEvent::Cycle => "cycle",
            SignalEvent::Heartbeat => "heartbeat",
            SignalEvent::Count { .. } => "count",
        }
    }
}

/// How many signals were stored and how many were dropped.
#[derive(Debug, Clone, Copy)]
pub struct IngestResult {
    /// Signals persisted.
    pub accepted: usize,
    /// Signals dropped because their source was unknown or disabled.
    pub dropped: usize,
}

/// What a recompute wrote.
#[derive(Debug, Clone, Copy)]
pub struct RecomputeResult {
    /// State intervals written.
    pub states: usize,
    /// Unclassified downtime events written.
    pub downtime: usize,
}

/// A site to create.
#[derive(Debug, Clone)]
pub struct SiteInput {
    pub code: String,
    pub name: String,
    /// IANA time zone; `Asia/Kolkata` when omitted.
    pub timezone: Option<String>,
}

/// An area to create.
#[derive(Debug, Clone)]
pub struct AreaInput {
    pub site_id: String,
    pub code: String,
    pub name: String,
}

/// A work center to create.
#[derive(Debug, Clone)]
pub struct WorkCenterInput {
    pub area_id: String,
    pub code: String,
    pub name: String,
    pub external_ref: Option<String>,
}

/// A part to create.
#[derive(Debug, Clone)]
pub struct PartInput {
    pub code: String,
    pub name: String,
    /// Unit of measure; `ea` when omitted.
    pub uom: Option<String>,
}

/// A user to create.
#[derive(Debug, Clone)]
pub struct UserInput {
    pub username: String,
    pub display_name: String,
    pub role_code: String,
    pub password: Option<String>,
    pub pin: Option<String>,
    pub badge_id: Option<String>,
}

/// A program to register.
#[derive(Debug, Clone)]
pub struct ProgramInput {
    pub routing_op_id: Option<String>,
    pub part_id: Option<String>,
    /// The identifier the DNC daemon knows the program by.
    pub program_identifier: String,
    pub target_machine: Option<String>,
}

/// One operation of a work order to create.
#[derive(Debug, Clone)]
pub struct WoOperationInput {
    pub op_no: i32,
    pub routing_op_id: Option<String>,
    pub work_center_id: Option<String>,
}

/// An inspection plan to create.
#[derive(Debug, Clone)]
pub struct PlanInput {
    pub part_id: String,
    pub code: String,
    pub name: String,
}

/// An NCR disposition.
#[derive(Debug, Clone)]
pub struct DispositionInput {
    /// One of `rework`, `scrap`, `use_as_is`, `return`.
    pub disposition: String,
    pub reason: Option<String>,
}

/// An organisation to create.
#[derive(Debug, Clone)]
pub struct OrgInput {
    pub code: String,
    pub name: String,
}

/// A plant to enroll.
#[derive(Debug, Clone)]
pub struct PlantInput {
    pub code: String,
    pub name: String,
}

/// An enrolled plant with its token, shown once.
#[derive(Debug, Clone)]
pub struct PlantEnrollment {
    pub id: String,
    pub org_id: String,
    pub code: String,
    pub name: String,
    /// The plaintext enrollment token; only its hash is stored.
    pub token: String,
}

/// What a push applied.
#[derive(Debug, Clone, Copy)]
pub struct PushResponse {
    /// Entries newly applied by this call.
    pub applied: usize,
    /// Entries skipped because their id was already applied.
    pub skipped: usize,
}

/// Entries a plant has received.
#[derive(Debug, Clone)]
pub struct AckRequest {
    pub plant_id: String,
    pub ids: Vec<String>,
}

/// A serial to create.
#[derive(Debug, Clone)]
pub struct SerialInput {
    pub serial_no: String,
    pub part_id: String,
    pub lot_id: Option<String>,
}

/// One node of a genealogy trace.
#[derive(Debug, Clone)]
pub struct TraceNode {
    pub entity_type: String,
    pub entity_id: String,
    /// The lot or serial number, when the entity exists.
    pub ref_no: Option<String>,
    pub depth: i32,
}

/// Trace rows `(entity_type, entity_id, ref_no, depth)` as nodes, in order.
pub fn to_nodes(rows: Vec<(String, String, Option<String>, i32)>) -> (r: Vec<TraceNode>)
    ensures
        r@.len() == rows@.len(),
        forall|i: int|
            0 <= i < rows@.len() ==> (#[trigger] r@[i]).entity_type == rows@[i].0
                && r@[i].entity_id == rows@[i].1 && r@[i].ref_no == rows@[i].2 && r@[i].depth
                == rows@[i].3,
{
    let mut rows = rows;
    let ghost all = rows@;
    let mut rev: Vec<TraceNode> = Vec::new();
    while rows.len() > 0
        invariant
            rows@ == all.subrange(0, all.len() - rev@.len()),
            rev@.len() <= all.len(),
            forall|k: int|
                0 <= k < rev@.len() ==> (#[trigger] rev@[k]).entity_type == all[all.len() - 1 - k].0
                    && rev@[k].entity_id == all[all.len() - 1 - k].1 && rev@[k].ref_no == all[all.len()
                    - 1 - k].2 && rev@[k].depth == all[all.len() - 1 - k].3,
        decreases rows@.len(),
    {
        let (entity_type, entity_id, ref_no, depth) = rows.pop().unwrap();
        rev.push(TraceNode { entity_type, entity_id, ref_no, depth });
        assert(rows@ =~= all.subrange(0, all.len() - rev@.len()));
    }
    let mut out: Vec<TraceNode> = Vec::new();
    while rev.len() > 0
        invariant
            rev@.len() + out@.len() == all.len(),
            forall|k: int|
                0 <= k < rev@.len() ==> (#[trigger] rev@[k]).entity_type == all[all.len() - 1 - k].0
                    && rev@[k].entity_id == all[all.len() - 1 - k].1 && rev@[k].ref_no == all[all.len()
                    - 1 - k].2 && rev@[k].depth == all[all.len() - 1 - k].3,
            forall|i: int|
                0 <= i < out@.len() ==> (#[trigger] out@[i]).entity_type == all[i].0
                    && out@[i].entity_id == all[i].1 && out@[i].ref_no == all[i].2 && out@[i].depth
                    == all[i].3,
        decreases rev@.len(),
    {
        let n = rev.pop().unwrap();
        out.push(n);
    }
    out
}

/// An entity to put on hold.
#[derive(Debug, Clone)]
pub struct HoldInput {
    pub entity_type: String,
    pub entity_id: String,
    pub reason: Option<String>,
}

/// A decoded barcode.
#[derive(Debug, Clone)]
pub struct BarcodeParsed {
    pub type_code: String,
    pub id: String,
}

/// A live event pushed to connected screens.
#[allow(inconsistent_fields)]
#[derive(Debug, Clone)]
pub enum WsEvent {
    /// A work order changed lifecycle status.
    WorkOrderStatusChanged { work_order_id: String, status: String },
    /// An operation started.
    OperationStarted { work_order_id: String, wo_operation_id: String },
    /// An operation completed.
    OperationCompleted { work_order_id: String, wo_operation_id: String },
    /// Good and scrap counts were recorded against an operation.
    CountRecorded { wo_operation_id: String, good: i32, scrap: i32 },
    /// A downtime event was classified with a reason.
    DowntimeClassified { downtime_event_id: String, reason_id: String },
    /// A program transfer was scheduled: the kiosk shows the fetch prompt.
    DncTransferScheduled {
        transfer_id: String,
        program_id: String,
        program_identifier: String,
        wo_operation_id: Option<String>,
    },
    /// A program transfer completed: the kiosk clears the fetch prompt.
    DncTransferCompleted { transfer_id: String },
    /// An edited program came back as a draft revision for review; drafts are
    /// never promoted automatically.
    ProgramRevisionDrafted { revision_id: String, program_id: String },
}

/// A time window shared by the analytics queries.
#[derive(Debug, Clone, Copy)]
pub struct TimeRange {
    pub start: i64,
    pub end: i64,
}

/// One point of a daily downtime trend.
#[derive(Debug, Clone, Copy)]
pub struct TrendPoint {
    /// Start of the day.
    pub day: i64,
    pub seconds: i64,
}

/// A preventive-maintenance schedule to create.
#[derive(Debug, Clone)]
pub struct PmScheduleInput {
    pub work_center_id: String,
    pub name: String,
    /// `calendar` or `usage_hours`.
    pub trigger_type: String,
    /// Days for a calendar trigger; run-hours for a usage trigger.
    pub interval_value: Dec,
    pub checklist_ref: Option<String>,
}

/// A preventive-maintenance schedule.
#[derive(Debug, Clone)]
pub struct PmSchedule {
    pub id: String,
    pub work_center_id: String,
    pub name: String,
    pub trigger_type: String,
    pub interval_value: Dec,
    pub last_done_at: Option<i64>,
    pub next_due_at: Option<i64>,
    pub last_done_usage_h: Option<Dec>,
    pub next_due_usage_h: Option<Dec>,
    pub checklist_ref: Option<String>,
    pub enabled: bool,
    pub created_at: i64,
    pub updated_at: i64,
}

/// A schedule that is due, with the run-hours it was judged against.
#[derive(Debug, Clone)]
pub struct PmDue {
    pub schedule: PmSchedule,
    pub current_usage_h: Dec,
}

/// A maintenance work order.
#[derive(Debug, Clone)]
pub struct MaintenanceWo {
    pub id: String,
    pub work_center_id: String,
    pub pm_schedule_id: Option<String>,
    pub wo_type: String,
    pub status: String,
    pub technician_id: Option<String>,
    pub failure_code: Option<String>,
    pub notes: Option<String>,
    pub opened_at: i64,
    pub closed_at: Option<i64>,
    pub created_at: i64,
    pub updated_at: i64,
}

/// A spare part to create.
#[derive(Debug, Clone)]
pub struct SparePartInput {
    pub code: String,
    pub name: String,
    pub uom: Option<String>,
    pub reorder_point: Option<Dec>,
    pub reorder_qty: Option<Dec>,
}

/// A spare part with its stock, the sum of its ledger.
#[derive(Debug, Clone)]
pub struct SparePart {
    pub id: String,
    pub code: String,
    pub name: String,
    pub uom: String,
    pub reorder_point: Dec,
    pub reorder_qty: Dec,
    pub stock: Dec,
}

/// A spare movement to record: `qty` is a magnitude, signed by `txn_type`.
#[derive(Debug, Clone)]
pub struct SpareTxnInput {
    pub spare_part_id: String,
    pub maintenance_wo_id: Option<String>,
    /// `issue`, `receive` or `adjust`.
    pub txn_type: String,
    pub qty: Dec,
}

/// A recorded spare movement: the new stock and any reorder request raised.
#[derive(Debug, Clone)]
pub struct SpareTxnResponse {
    pub txn_id: String,
    pub stock: Dec,
    pub procurement_request: Option<ProcurementRequest>,
}

/// A procurement request to raise by hand.
#[derive(Debug, Clone)]
pub struct ProcurementRequestInput {
    pub spare_part_id: String,
    pub qty_requested: Dec,
}

/// A procurement request.
#[derive(Debug, Clone)]
pub struct ProcurementRequest {
    pub id: String,
    pub spare_part_id: String,
    pub qty_requested: Dec,
    pub reason: String,
    pub status: String,
    pub erp_reference: Option<String>,
    pub pushed_at: Option<i64>,
    pub created_at: i64,
    pub updated_at: i64,
}

/// A program transfer as the MES tracks it.
#[derive(Debug, Clone)]
pub struct TransferEvent {
    pub id: String,
    pub wo_operation_id: Option<String>,
    pub program_id: String,
    pub direction: String,
    pub status: String,
    pub dnc_daemon_ref: Option<String>,
    pub triggered_at: i64,
    pub completed_at: Option<i64>,
    pub created_at: i64,
    pub updated_at: i64,
}

/// An operator-edited program revision awaiting review.
#[derive(Debug, Clone)]
pub struct ProgramRevision {
    pub id: String,
    pub program_id: String,
    pub revision_no: i32,
    pub source: String,
    pub content_ref: Option<String>,
    pub status: String,
    pub submitted_by: Option<String>,
    pub submitted_at: i64,
    pub promoted_by: Option<String>,
    pub promoted_at: Option<i64>,
    pub created_at: i64,
    pub updated_at: i64,
}

/// An ERP connection to create or replace. The token is write-only.
#[derive(Debug)]
pub struct ErpConnectionInput {
    pub site_id: Option<String>,
    pub name: String,
    pub endpoint_url: String,
    /// Plaintext token, encrypted at rest and never returned; absent on an
    /// update that keeps the stored one.
    pub auth_token: Option<String>,
    /// `{ "fields": { "<canonical>": "<external>" } }`.
    pub field_mapping: Json,
    /// `import`, `export` or `both`.
    pub direction: Option<String>,
    pub enabled: Option<bool>,
}

/// An ERP connection as clients see it: whether a token is stored, never
/// the token.
#[derive(Debug)]
pub struct ErpConnection {
    pub id: String,
    pub site_id: Option<String>,
    pub name: String,
    pub endpoint_url: String,
    pub has_token: bool,
    pub field_mapping: Json,
    pub direction: String,
    pub enabled: bool,
    pub created_at: i64,
    pub updated_at: i64,
}

/// One row of the ERP sync audit trail.
#[derive(Debug, Clone)]
pub struct ErpSyncLogEntry {
    pub id: String,
    pub connection_id: Option<String>,
    pub direction: String,
    pub entity: String,
    pub record_count: i32,
    pub status: String,
    pub detail: Option<String>,
    pub ts: i64,
}

/// External records to import through a connection's mapping.
#[derive(Debug)]
pub struct ErpImportRequest {
    pub connection_id: String,
    /// `work_order`.
    pub entity: String,
    /// Records in the ERP's own shape.
    pub records: Vec<Json>,
}

/// What an ERP export sent.
#[derive(Debug)]
pub struct ErpExportResult {
    pub entity: String,
    pub record_count: usize,
    /// Whether the POST to the ERP endpoint succeeded.
    pub pushed: bool,
    /// The payload as sent, in the ERP's field names.
    pub payload: Vec<Json>,
    pub sync_log_id: String,
}

/// Good and scrap counts to record against an operation; scrap needs a
/// reason.
#[derive(Debug, Clone)]
pub struct CountInput {
    pub good: i32,
    pub scrap: i32,
    pub scrap_reason_id: Option<String>,
    /// When the count happened; now when absent.
    pub ts: Option<i64>,
}

/// Split a downtime event at `at`, optionally classifying each part.
#[derive(Debug, Clone)]
pub struct SplitDowntimeInput {
    pub at: i64,
    pub first_reason_id: Option<String>,
    pub second_reason_id: Option<String>,
}

/// One raw signal from a device, keyed by its registered source.
#[derive(Debug, Clone)]
pub struct RawSignal {
    pub source_key: String,
    /// When the signal occurred, by the device's clock.
    pub ts: i64,
    pub event: SignalEvent,
}

/// Re-derive a work center's machine states over a window.
#[derive(Debug, Clone)]
pub struct RecomputeRequest {
    pub work_center_id: String,
    pub start: i64,
    pub end: i64,
}

/// A site.
#[derive(Debug, Clone)]
pub struct Site {
    pub id: String,
    pub code: String,
    pub name: String,
    pub timezone: String,
    pub created_at: i64,
    pub updated_at: i64,
}

/// An area of a site.
#[derive(Debug, Clone)]
pub struct Area {
    pub id: String,
    pub site_id: String,
    pub code: String,
    pub name: String,
    pub created_at: i64,
    pub updated_at: i64,
}

/// A work center of an area.
#[derive(Debug, Clone)]
pub struct WorkCenter {
    pub id: String,
    pub area_id: String,
    pub code: String,
    pub name: String,
    pub external_ref: Option<String>,
    pub created_at: i64,
    pub updated_at: i64,
}

/// A part.
#[derive(Debug, Clone)]
pub struct Part {
    pub id: String,
    pub code: String,
    pub name: String,
    pub uom: String,
    pub created_at: i64,
    pub updated_at: i64,
}

/// A user, without any secret.
#[derive(Debug, Clone)]
pub struct User {
    pub id: String,
    pub username: String,
    pub display_name: String,
    pub role_code: String,
    pub active: bool,
    pub created_at: i64,
    pub updated_at: i64,
}

/// A program of the DNC library, linked to a routing operation or a part.
#[derive(Debug, Clone)]
pub struct Program {
    pub id: String,
    pub routing_op_id: Option<String>,
    pub part_id: Option<String>,
    pub program_identifier: String,
    pub target_machine: Option<String>,
    pub created_at: i64,
    pub updated_at: i64,
}

/// A work order to create, with its operations.
#[derive(Debug, Clone)]
pub struct WorkOrderInput {
    pub wo_number: String,
    pub part_id: String,
    pub routing_id: Option<String>,
    pub qty_ordered: Dec,
    pub priority: Option<i32>,
    pub planned_start: Option<i64>,
    pub planned_end: Option<i64>,
    pub operations: Vec<WoOperationInput>,
}

/// A work order.
#[derive(Debug, Clone)]
pub struct WorkOrder {
    pub id: String,
    pub wo_number: String,
    pub part_id: String,
    pub routing_id: Option<String>,
    pub qty_ordered: Dec,
    pub priority: i32,
    pub status: String,
    pub planned_start: Option<i64>,
    pub planned_end: Option<i64>,
    pub created_at: i64,
    pub updated_at: i64,
}

/// An operation of a work order.
#[derive(Debug, Clone)]
pub struct WoOperation {
    pub id: String,
    pub work_order_id: String,
    pub routing_op_id: Option<String>,
    pub op_no: i32,
    pub work_center_id: Option<String>,
    pub status: String,
    pub qty_good: i32,
    pub qty_scrap: i32,
    pub started_at: Option<i64>,
    pub completed_at: Option<i64>,
    pub created_at: i64,
    pub updated_at: i64,
}

/// A work order with its operations.
#[derive(Debug, Clone)]
pub struct WorkOrderDetail {
    pub work_order: WorkOrder,
    pub operations: Vec<WoOperation>,
}

/// An inspection plan.
#[derive(Debug, Clone)]
pub struct Plan {
    pub id: String,
    pub part_id: String,
    pub code: String,
    pub name: String,
    pub created_at: i64,
    pub updated_at: i64,
}

/// A characteristic to add to a plan.
#[derive(Debug, Clone)]
pub struct CharacteristicInput {
    pub plan_id: String,
    pub name: String,
    pub uom: Option<String>,
    pub nominal: Option<Dec>,
    pub lower_limit: Option<Dec>,
    pub upper_limit: Option<Dec>,
}

/// A characteristic with its limits.
#[derive(Debug, Clone)]
pub struct Characteristic {
    pub id: String,
    pub plan_id: String,
    pub name: String,
    pub uom: Option<String>,
    pub lower_limit: Option<Dec>,
    pub upper_limit: Option<Dec>,
}

/// A measurement to record; pass or fail is decided by the service.
#[derive(Debug, Clone)]
pub struct ResultInput {
    pub characteristic_id: String,
    pub lot_id: Option<String>,
    pub serial_id: Option<String>,
    pub wo_operation_id: Option<String>,
    pub measured_value: Dec,
}

/// A recorded inspection result.
#[derive(Debug, Clone)]
pub struct InspectionResult {
    pub id: String,
    pub characteristic_id: String,
    pub lot_id: Option<String>,
    pub serial_id: Option<String>,
    pub measured_value: Dec,
    pub result: String,
    pub created_at: i64,
}

/// A non-conformance report.
#[derive(Debug, Clone)]
pub struct Ncr {
    pub id: String,
    pub ncr_no: String,
    pub inspection_result_id: Option<String>,
    pub lot_id: Option<String>,
    pub serial_id: Option<String>,
    pub part_id: Option<String>,
    pub status: String,
    pub disposition: Option<String>,
    pub reason: Option<String>,
    pub created_at: i64,
    pub updated_at: i64,
}

/// A recorded result and the NCR a failure raised.
#[derive(Debug, Clone)]
pub struct RecordResultResponse {
    pub result: InspectionResult,
    pub ncr: Option<Ncr>,
}

/// A lot to create.
#[derive(Debug, Clone)]
pub struct LotInput {
    pub lot_no: String,
    pub part_id: String,
    pub qty: Option<Dec>,
    pub uom: Option<String>,
}

/// A lot.
#[derive(Debug, Clone)]
pub struct Lot {
    pub id: String,
    pub lot_no: String,
    pub part_id: String,
    pub qty: Dec,
    pub uom: String,
    pub created_at: i64,
    pub updated_at: i64,
}

/// A serial.
#[derive(Debug, Clone)]
pub struct Serial {
    pub id: String,
    pub serial_no: String,
    pub part_id: String,
    pub lot_id: Option<String>,
    pub created_at: i64,
    pub updated_at: i64,
}

/// A genealogy edge: `parent` consumed `child`.
#[derive(Debug, Clone)]
pub struct GenealogyEdgeInput {
    pub parent_type: String,
    pub parent_id: String,
    pub child_type: String,
    pub child_id: String,
    pub qty: Option<Dec>,
}

/// Material to issue against a work-order operation.
#[derive(Debug, Clone)]
pub struct IssueMaterialInput {
    pub lot_id: Option<String>,
    pub serial_id: Option<String>,
    pub qty: Dec,
    pub wo_operation_id: Option<String>,
}

} // verus!
