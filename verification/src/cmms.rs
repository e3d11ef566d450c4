//! Maintenance: PM-due decisions, the maintenance-WO and procurement
//! lifecycles, and the spare-parts ledger rules.
//!
//! A PM schedule triggers on a calendar interval (days) or on cumulative
//! machine run-hours. This module decides, from a schedule's next-due marker
//! and the current clock or run-hours, whether it is due.
//!
//! Timestamps are microseconds since the Unix epoch.

use vstd::prelude::*;
use crate::decimal::{dec_less, decimal_sum, exact_add, holds_exact_sum, sum_fits_exactly, sum_in_range, Dec};
use crate::repo::{is_conflict, is_invalid_reference, owned, RepoError};
use crate::text::str_eq;

verus! {

/// Microseconds in one day.
pub const MICROS_PER_DAY: i64 = 86_400_000_000i64;

/// How a PM schedule is triggered.
#[derive(Debug, Clone, Copy, PartialEq, Eq, Structural)]
pub enum PmTrigger {
    /// Every N days of wall-clock time since the last service.
    Calendar,
    /// Every N cumulative running hours since the last service.
    UsageHours,
}

pub open spec fn pm_trigger_text(t: PmTrigger) -> Seq<char> {
    match t {
        PmTrigger::Calendar => "calendar"@,
        PmTrigger::UsageHours => "usage_hours"@,
    }
}

pub open spec fn pm_trigger_of_text(t: Seq<char>) -> Option<PmTrigger> {
    if t == "calendar"@ {
        Some(PmTrigger::Calendar)
    } else if t == "usage_hours"@ {
        Some(PmTrigger::UsageHours)
    } else {
        None
    }
}

impl PmTrigger {
    pub fn parse(s: &str) -> (r: Option<PmTrigger>)
        ensures
            r == pm_trigger_of_text(s@),
    {
        if str_eq(s, "calendar") {
            Some(PmTrigger::Calendar)
        } else if str_eq(s, "usage_hours") {
            Some(PmTrigger::UsageHours)
        } else {
            None
        }
    }

    pub fn as_str(self) -> (r: &'static str)
        ensures
            r@ == pm_trigger_text(self),
    {
        match self {
            PmTrigger::Calendar => "calendar",
            PmTrigger::UsageHours => "usage_hours",
        }
    }
}

/// Next calendar due time: last service plus `interval_days` whole days.
pub fn calendar_next_due(last_done: i64, interval_days: i64) -> (r: i64)
    requires
        i64::MIN <= last_done + interval_days * MICROS_PER_DAY <= i64::MAX,
        i64::MIN <= interval_days * MICROS_PER_DAY <= i64::MAX,
    ensures
        r == last_done + interval_days * MICROS_PER_DAY,
{
    last_done + interval_days * MICROS_PER_DAY
}

/// A calendar schedule is due once `now` reaches its next-due time.
pub fn calendar_is_due(next_due: i64, now: i64) -> (r: bool)
    ensures
        r == (now >= next_due),
{
    now >= next_due
}

/// Next usage due marker: run-hours at last service plus `interval_hours`.
pub fn usage_next_due(last_done_usage_h: Dec, interval_hours: Dec) -> (r: Dec)
    requires
        last_done_usage_h.wf(),
        interval_hours.wf(),
        sum_in_range(last_done_usage_h, interval_hours),
    ensures
        r.wf(),
        r.parts() == decimal_sum(last_done_usage_h.parts(), interval_hours.parts()),
        last_done_usage_h.mantissa == 0 || interval_hours.mantissa == 0 || sum_fits_exactly(
            last_done_usage_h,
            interval_hours,
        ) ==> exact_add(r, last_done_usage_h, interval_hours),
        sum_fits_exactly(last_done_usage_h, interval_hours) ==> holds_exact_sum(
            r,
            last_done_usage_h,
            interval_hours,
        ),
{
    last_done_usage_h.add(&interval_hours)
}

/// A usage schedule is due once cumulative run-hours reach its marker.
pub fn usage_is_due(next_due_usage_h: Dec, current_usage_h: Dec) -> (r: bool)
    requires
        next_due_usage_h.wf(),
        current_usage_h.wf(),
    ensures
        r == !dec_less(current_usage_h, next_due_usage_h),
{
    next_due_usage_h.le(&current_usage_h)
}

/// Whether an enabled PM schedule is due: a calendar schedule once `now`
/// reaches its next-due time, a usage schedule once current run-hours reach
/// its marker; a schedule without its marker, or with an unknown trigger, is
/// never due.
pub open spec fn spec_pm_due(
    trigger: Seq<char>,
    next_due_at: Option<i64>,
    next_due_usage_h: Option<Dec>,
    current_usage_h: Dec,
    now: i64,
) -> bool {
    match pm_trigger_of_text(trigger) {
        Some(PmTrigger::Calendar) => match next_due_at {
            Some(nd) => now >= nd,
            None => false,
        },
        Some(PmTrigger::UsageHours) => match next_due_usage_h {
            Some(nd) => !dec_less(current_usage_h, nd),
            None => false,
        },
        None => false,
    }
}

/// The due decision applied to one listed schedule.
pub fn pm_schedule_is_due(
    trigger_type: &str,
    next_due_at: Option<i64>,
    next_due_usage_h: Option<Dec>,
    current_usage_h: Dec,
    now: i64,
) -> (r: bool)
    requires
        current_usage_h.wf(),
        next_due_usage_h matches Some(d) ==> d.wf(),
    ensures
        r == spec_pm_due(trigger_type@, next_due_at, next_due_usage_h, current_usage_h, now),
{
    match PmTrigger::parse(trigger_type) {
        Some(PmTrigger::Calendar) => match next_due_at {
            Some(nd) => calendar_is_due(nd, now),
            None => false,
        },
        Some(PmTrigger::UsageHours) => match next_due_usage_h {
            Some(nd) => usage_is_due(nd, current_usage_h),
            None => false,
        },
        None => false,
    }
}

/// The trigger a new PM schedule is created with, or `InvalidReference` for an
/// unknown trigger name.
pub fn parse_pm_trigger_input(trigger_type: &str) -> (r: Result<PmTrigger, RepoError>)
    ensures
        pm_trigger_of_text(trigger_type@) matches Some(t) ==> r == Ok::<PmTrigger, RepoError>(t),
        pm_trigger_of_text(trigger_type@) is None ==> (r matches Err(e) && is_invalid_reference(
            e,
            "unknown trigger_type"@,
        )),
{
    match PmTrigger::parse(trigger_type) {
        Some(t) => Ok(t),
        None => Err(RepoError::InvalidReference(owned("unknown trigger_type"))),
    }
}

/// Category of a maintenance work order.
#[derive(Debug, Clone, Copy, PartialEq, Eq, Structural)]
pub enum MaintenanceType {
    /// Planned preventive maintenance.
    Pm,
    /// Repair of a known fault that has not stopped the machine.
    Corrective,
    /// Emergency repair of a stopped machine.
    Breakdown,
}

pub open spec fn maintenance_type_text(t: MaintenanceType) -> Seq<char> {
    match t {
        MaintenanceType::Pm => "PM"@,
        MaintenanceType::Corrective => "Corrective"@,
        MaintenanceType::Breakdown => "Breakdown"@,
    }
}

pub open spec fn maintenance_type_of_text(t: Seq<char>) -> Option<MaintenanceType> {
    if t == "PM"@ {
        Some(MaintenanceType::Pm)
    } else if t == "Corrective"@ {
        Some(MaintenanceType::Corrective)
    } else if t == "Breakdown"@ {
        Some(MaintenanceType::Breakdown)
    } else {
        None
    }
}

impl MaintenanceType {
    pub fn parse(s: &str) -> (r: Option<MaintenanceType>)
        ensures
            r == maintenance_type_of_text(s@),
    {
        if str_eq(s, "PM") {
            Some(MaintenanceType::Pm)
        } else if str_eq(s, "Corrective") {
            Some(MaintenanceType::Corrective)
        } else if str_eq(s, "Breakdown") {
            Some(MaintenanceType::Breakdown)
        } else {
            None
        }
    }

    pub fn as_str(self) -> (r: &'static str)
        ensures
            r@ == maintenance_type_text(self),
    {
        match self {
            MaintenanceType::Pm => "PM",
            MaintenanceType::Corrective => "Corrective",
            MaintenanceType::Breakdown => "Breakdown",
        }
    }
}

/// The type a new maintenance WO is created with, or `InvalidReference` for an
/// unknown type name.
pub fn parse_maintenance_type_input(wo_type: &str) -> (r: Result<MaintenanceType, RepoError>)
    ensures
        maintenance_type_of_text(wo_type@) matches Some(t) ==> r == Ok::<
            MaintenanceType,
            RepoError,
        >(t),
        maintenance_type_of_text(wo_type@) is None ==> (r matches Err(e) && is_invalid_reference(
            e,
            "unknown wo_type"@,
        )),
{
    match MaintenanceType::parse(wo_type) {
        Some(t) => Ok(t),
        None => Err(RepoError::InvalidReference(owned("unknown wo_type"))),
    }
}

/// Maintenance-WO lifecycle. A closed WO is the maintenance history.
#[derive(Debug, Clone, Copy, PartialEq, Eq, Structural)]
pub enum MaintenanceStatus {
    Requested,
    Scheduled,
    InProgress,
    Completed,
    Verified,
}

pub open spec fn maintenance_status_text(s: MaintenanceStatus) -> Seq<char> {
    match s {
        MaintenanceStatus::Requested => "requested"@,
        MaintenanceStatus::Scheduled => "scheduled"@,
        MaintenanceStatus::InProgress => "in_progress"@,
        MaintenanceStatus::Completed => "completed"@,
        MaintenanceStatus::Verified => "verified"@,
    }
}

pub open spec fn maintenance_status_of_text(t: Seq<char>) -> Option<MaintenanceStatus> {
    if t == "requested"@ {
        Some(MaintenanceStatus::Requested)
    } else if t == "scheduled"@ {
        Some(MaintenanceStatus::Scheduled)
    } else if t == "in_progress"@ {
        Some(MaintenanceStatus::InProgress)
    } else if t == "completed"@ {
        Some(MaintenanceStatus::Completed)
    } else if t == "verified"@ {
        Some(MaintenanceStatus::Verified)
    } else {
        None
    }
}

/// Position along the maintenance lifecycle.
pub open spec fn maintenance_rank(s: MaintenanceStatus) -> int {
    match s {
        MaintenanceStatus::Requested => 0,
        MaintenanceStatus::Scheduled => 1,
        MaintenanceStatus::InProgress => 2,
        MaintenanceStatus::Completed => 3,
        MaintenanceStatus::Verified => 4,
    }
}

/// The lifecycle advances exactly one step at a time and never backwards.
pub open spec fn maintenance_transition_allowed(
    from: MaintenanceStatus,
    to: MaintenanceStatus,
) -> bool {
    maintenance_rank(to) == maintenance_rank(from) + 1
}

impl MaintenanceStatus {
    pub fn parse(s: &str) -> (r: Option<MaintenanceStatus>)
        ensures
            r == maintenance_status_of_text(s@),
    {
        if str_eq(s, "requested") {
            Some(MaintenanceStatus::Requested)
        } else if str_eq(s, "scheduled") {
            Some(MaintenanceStatus::Scheduled)
        } else if str_eq(s, "in_progress") {
            Some(MaintenanceStatus::InProgress)
        } else if str_eq(s, "completed") {
            Some(MaintenanceStatus::Completed)
        } else if str_eq(s, "verified") {
            Some(MaintenanceStatus::Verified)
        } else {
            None
        }
    }

    pub fn as_str(self) -> (r: &'static str)
        ensures
            r@ == maintenance_status_text(self),
    {
        match self {
            MaintenanceStatus::Requested => "requested",
            MaintenanceStatus::Scheduled => "scheduled",
            MaintenanceStatus::InProgress => "in_progress",
            MaintenanceStatus::Completed => "completed",
            MaintenanceStatus::Verified => "verified",
        }
    }

    /// Whether a move to `next` is allowed.
    pub fn can_transition(self, next: MaintenanceStatus) -> (r: bool)
        ensures
            r == maintenance_transition_allowed(self, next),
    {
        match (self, next) {
            (MaintenanceStatus::Requested, MaintenanceStatus::Scheduled) => true,
            (MaintenanceStatus::Scheduled, MaintenanceStatus::InProgress) => true,
            (MaintenanceStatus::InProgress, MaintenanceStatus::Completed) => true,
            (MaintenanceStatus::Completed, MaintenanceStatus::Verified) => true,
            _ => false,
        }
    }
}

/// The timestamp column stamped when a maintenance WO arrives at `s`.
pub open spec fn maintenance_stamp_column(s: MaintenanceStatus) -> Seq<char> {
    match s {
        MaintenanceStatus::Scheduled => "scheduled_at"@,
        MaintenanceStatus::InProgress => "started_at"@,
        MaintenanceStatus::Completed => "closed_at"@,
        MaintenanceStatus::Verified => "verified_at"@,
        MaintenanceStatus::Requested => "opened_at"@,
    }
}

/// The target status of a maintenance transition request, or
/// `InvalidReference` for an unknown status name.
pub fn parse_maintenance_target(next: &str) -> (r: Result<MaintenanceStatus, RepoError>)
    ensures
        maintenance_status_of_text(next@) matches Some(s) ==> r == Ok::<
            MaintenanceStatus,
            RepoError,
        >(s),
        maintenance_status_of_text(next@) is None ==> (r matches Err(e) && is_invalid_reference(
            e,
            "unknown status"@,
        )),
{
    match MaintenanceStatus::parse(next) {
        Some(s) => Ok(s),
        None => Err(RepoError::InvalidReference(owned("unknown status"))),
    }
}

/// Check a maintenance WO's stored status against the requested target and
/// name the timestamp column to stamp. A stored status that does not parse is
/// a `Conflict` ("corrupt status"); an illegal move is a `Conflict` naming
/// both ends ("cannot move <from> -> <to>").
pub fn check_maintenance_move(current: &str, next: MaintenanceStatus) -> (r: Result<
    &'static str,
    RepoError,
>)
    ensures
        match maintenance_status_of_text(current@) {
            None => r matches Err(e) && is_conflict(e, "corrupt status"@),
            Some(cur) => if maintenance_transition_allowed(cur, next) {
                r matches Ok(col) && col@ == maintenance_stamp_column(next)
            } else {
                r matches Err(e) && is_conflict(
                    e,
                    "cannot move "@ + maintenance_status_text(cur) + " -> "@
                        + maintenance_status_text(next),
                )
            },
        },
{
    let cur = match MaintenanceStatus::parse(current) {
        Some(c) => c,
        None => {
            return Err(RepoError::Conflict(owned("corrupt status")));
        },
    };
    if !cur.can_transition(next) {
        let mut m = owned("cannot move ");
        m.append(cur.as_str());
        m.append(" -> ");
        m.append(next.as_str());
        return Err(RepoError::Conflict(m));
    }
    let col = match next {
        MaintenanceStatus::Scheduled => "scheduled_at",
        MaintenanceStatus::InProgress => "started_at",
        MaintenanceStatus::Completed => "closed_at",
        MaintenanceStatus::Verified => "verified_at",
        MaintenanceStatus::Requested => "opened_at",
    };
    Ok(col)
}

/// No legal move arrives at `Requested`, and none leaves `Verified`.
pub proof fn lemma_maintenance_lifecycle_ends(s: MaintenanceStatus)
    ensures
        !maintenance_transition_allowed(s, MaintenanceStatus::Requested),
        !maintenance_transition_allowed(MaintenanceStatus::Verified, s),
{
}

/// Where each maintenance status can be reached from: scheduled only from
/// requested, started only once scheduled, completed only once started,
/// verified only once completed; nothing returns to requested.
pub proof fn lemma_maintenance_reached_only_from(from: MaintenanceStatus, to: MaintenanceStatus)
    ensures
        maintenance_transition_allowed(from, to) <==> match to {
            MaintenanceStatus::Requested => false,
            MaintenanceStatus::Scheduled => from == MaintenanceStatus::Requested,
            MaintenanceStatus::InProgress => from == MaintenanceStatus::Scheduled,
            MaintenanceStatus::Completed => from == MaintenanceStatus::InProgress,
            MaintenanceStatus::Verified => from == MaintenanceStatus::Completed,
        },
{
}

/// Reading back the wire form of a maintenance status gives the status itself.
pub proof fn lemma_maintenance_status_round_trip(s: MaintenanceStatus)
    ensures
        maintenance_status_of_text(maintenance_status_text(s)) == Some(s),
{
    broadcast use vstd::string::group_string_axioms;
    reveal_strlit("requested");
    reveal_strlit("scheduled");
    reveal_strlit("in_progress");
    reveal_strlit("completed");
    reveal_strlit("verified");
    assert("requested"@.len() == 9 && "scheduled"@.len() == 9 && "in_progress"@.len() == 11);
    assert("completed"@.len() == 9 && "verified"@.len() == 8);
    assert("requested"@[0] != "scheduled"@[0] && "completed"@[0] != "scheduled"@[0]);
    assert("completed"@[0] != "requested"@[0]);
}

/// Procurement-request lifecycle. Only `Requested` is raised here; the ERP
/// push moves it on.
#[derive(Debug, Clone, Copy, PartialEq, Eq, Structural)]
pub enum ProcurementStatus {
    Requested,
    SentToErp,
    Fulfilled,
}

pub open spec fn procurement_status_text(s: ProcurementStatus) -> Seq<char> {
    match s {
        ProcurementStatus::Requested => "requested"@,
        ProcurementStatus::SentToErp => "sent_to_erp"@,
        ProcurementStatus::Fulfilled => "fulfilled"@,
    }
}

pub open spec fn procurement_status_of_text(t: Seq<char>) -> Option<ProcurementStatus> {
    if t == "requested"@ {
        Some(ProcurementStatus::Requested)
    } else if t == "sent_to_erp"@ {
        Some(ProcurementStatus::SentToErp)
    } else if t == "fulfilled"@ {
        Some(ProcurementStatus::Fulfilled)
    } else {
        None
    }
}

pub open spec fn procurement_transition_allowed(
    from: ProcurementStatus,
    to: ProcurementStatus,
) -> bool {
    (from == ProcurementStatus::Requested && to == ProcurementStatus::SentToErp) || (from
        == ProcurementStatus::SentToErp && to == ProcurementStatus::Fulfilled)
}

impl ProcurementStatus {
    pub fn parse(s: &str) -> (r: Option<ProcurementStatus>)
        ensures
            r == procurement_status_of_text(s@),
    {
        if str_eq(s, "requested") {
            Some(ProcurementStatus::Requested)
        } else if str_eq(s, "sent_to_erp") {
            Some(ProcurementStatus::SentToErp)
        } else if str_eq(s, "fulfilled") {
            Some(ProcurementStatus::Fulfilled)
        } else {
            None
        }
    }

    pub fn as_str(self) -> (r: &'static str)
        ensures
            r@ == procurement_status_text(self),
    {
        match self {
            ProcurementStatus::Requested => "requested",
            ProcurementStatus::SentToErp => "sent_to_erp",
            ProcurementStatus::Fulfilled => "fulfilled",
        }
    }

    pub fn can_transition(self, next: ProcurementStatus) -> (r: bool)
        ensures
            r == procurement_transition_allowed(self, next),
    {
        match (self, next) {
            (ProcurementStatus::Requested, ProcurementStatus::SentToErp) => true,
            (ProcurementStatus::SentToErp, ProcurementStatus::Fulfilled) => true,
            _ => false,
        }
    }
}

/// Why a procurement request was raised.
#[derive(Debug, Clone, Copy, PartialEq, Eq, Structural)]
pub enum ProcurementReason {
    /// Stock fell to or below the spare's reorder point.
    ReorderPoint,
    /// Raised by hand.
    Manual,
}

pub open spec fn procurement_reason_text(r: ProcurementReason) -> Seq<char> {
    match r {
        ProcurementReason::ReorderPoint => "reorder_point"@,
        ProcurementReason::Manual => "manual"@,
    }
}

impl ProcurementReason {
    pub fn as_str(self) -> (r: &'static str)
        ensures
            r@ == procurement_reason_text(self),
    {
        match self {
            ProcurementReason::ReorderPoint => "reorder_point",
            ProcurementReason::Manual => "manual",
        }
    }
}

/// The signed ledger quantity of a spare movement: `qty` arrives as a
/// magnitude; an issue decreases stock, a receive increases it, an adjust is
/// passed through as given. Any other type is `InvalidReference`.
pub open spec fn spec_signed_qty(txn_type: Seq<char>, qty: Dec) -> Option<Dec> {
    let mag = if qty.mantissa < 0 {
        Dec { mantissa: (-qty.mantissa) as i128, scale: qty.scale }
    } else {
        qty
    };
    if txn_type == "issue"@ {
        Some(Dec { mantissa: (-mag.mantissa) as i128, scale: mag.scale })
    } else if txn_type == "receive"@ {
        Some(mag)
    } else if txn_type == "adjust"@ {
        Some(qty)
    } else {
        None
    }
}

/// The signed quantity recorded for a spare movement.
pub fn spare_signed_qty(txn_type: &str, qty: Dec) -> (r: Result<Dec, RepoError>)
    requires
        qty.wf(),
    ensures
        spec_signed_qty(txn_type@, qty) matches Some(d) ==> r == Ok::<Dec, RepoError>(d),
        spec_signed_qty(txn_type@, qty) is None ==> (r matches Err(e) && is_invalid_reference(
            e,
            "unknown txn_type"@,
        )),
        r matches Ok(d) ==> d.wf(),
{
    if str_eq(txn_type, "issue") {
        Ok(qty.abs().neg())
    } else if str_eq(txn_type, "receive") {
        Ok(qty.abs())
    } else if str_eq(txn_type, "adjust") {
        Ok(qty)
    } else {
        Err(RepoError::InvalidReference(owned("unknown txn_type")))
    }
}

/// A movement breaches the reorder point when the resulting stock is at or
/// below it and the spare has a positive reorder quantity.
pub fn reorder_breached(stock: Dec, reorder_point: Dec, reorder_qty: Dec) -> (r: bool)
    requires
        stock.wf(),
        reorder_point.wf(),
    ensures
        r == (!dec_less(reorder_point, stock) && reorder_qty.mantissa > 0),
{
    stock.le(&reorder_point) && reorder_qty.is_positive()
}

/// An issue never adds stock: its signed quantity is at most zero.
pub proof fn lemma_issue_never_adds_stock(qty: Dec)
    requires
        qty.wf(),
    ensures
        spec_signed_qty("issue"@, qty) matches Some(d) && d.mantissa <= 0,
{
}

/// Where each procurement status can be reached from: sent to the ERP only
/// once requested, fulfilled only once sent; nothing returns to requested.
pub proof fn lemma_procurement_reached_only_from(from: ProcurementStatus, to: ProcurementStatus)
    ensures
        procurement_transition_allowed(from, to) <==> match to {
            ProcurementStatus::Requested => false,
            ProcurementStatus::SentToErp => from == ProcurementStatus::Requested,
            ProcurementStatus::Fulfilled => from == ProcurementStatus::SentToErp,
        },
{
}

} // verus!
