use mes::cmms::{MaintenanceStatus, MaintenanceType, PmTrigger, ProcurementStatus};
use mes::dnc::{RevisionStatus, TransferDirection, TransferStatus};
use mes::qms::{Disposition, NcrStatus};
use mes::roles::{
    can_manage_quality, can_promote_revision, can_read_master, can_write_master, ADMIN, OPERATOR,
    PLANNER, QUALITY, SUPERVISOR,
};
use mes::work_order::{OpStatus, WoStatus};

#[test]
fn wo_happy_path_transitions() {
    assert!(WoStatus::Draft.can_transition(WoStatus::Released));
    assert!(WoStatus::Released.can_transition(WoStatus::InProgress));
    assert!(WoStatus::InProgress.can_transition(WoStatus::Completed));
    assert!(WoStatus::Completed.can_transition(WoStatus::Closed));
}

#[test]
fn wo_illegal_transitions_rejected() {
    assert!(!WoStatus::Draft.can_transition(WoStatus::InProgress));
    assert!(!WoStatus::Completed.can_transition(WoStatus::InProgress));
    assert!(!WoStatus::Closed.can_transition(WoStatus::Released));
    assert!(!WoStatus::Cancelled.can_transition(WoStatus::Released));
}

#[test]
fn wo_cancel_from_active_states() {
    assert!(WoStatus::Draft.can_transition(WoStatus::Cancelled));
    assert!(WoStatus::Released.can_transition(WoStatus::Cancelled));
    assert!(WoStatus::InProgress.can_transition(WoStatus::Cancelled));
    assert!(!WoStatus::Completed.can_transition(WoStatus::Cancelled));
}

#[test]
fn op_transitions() {
    assert!(OpStatus::Pending.can_transition(OpStatus::InProgress));
    assert!(OpStatus::InProgress.can_transition(OpStatus::Completed));
    assert!(!OpStatus::Pending.can_transition(OpStatus::Completed));
    assert!(!OpStatus::Completed.can_transition(OpStatus::InProgress));
}

#[test]
fn string_roundtrip() {
    for s in ["draft", "released", "in_progress", "completed", "closed", "cancelled"] {
        assert_eq!(WoStatus::parse(s).unwrap().as_str(), s);
    }
    assert!(WoStatus::parse("bogus").is_none());
}

#[test]
fn terminal_work_orders_accept_no_transition() {
    let all = [
        WoStatus::Draft,
        WoStatus::Released,
        WoStatus::InProgress,
        WoStatus::Completed,
        WoStatus::Closed,
        WoStatus::Cancelled,
    ];
    for s in [WoStatus::Closed, WoStatus::Cancelled] {
        assert!(s.is_terminal());
        for n in all {
            assert!(!s.can_transition(n));
        }
    }
    assert!(!WoStatus::Completed.is_terminal());
}

#[test]
fn op_status_strings() {
    for s in ["pending", "in_progress", "completed"] {
        assert_eq!(OpStatus::parse(s).unwrap().as_str(), s);
    }
    assert!(OpStatus::parse("done").is_none());
}

#[test]
fn transfer_happy_path() {
    assert!(TransferStatus::Scheduled.can_transition(TransferStatus::Notified));
    assert!(TransferStatus::Notified.can_transition(TransferStatus::Fetched));
    assert!(TransferStatus::Fetched.can_transition(TransferStatus::Completed));
    assert!(TransferStatus::Scheduled.can_transition(TransferStatus::Completed));
}

#[test]
fn transfer_can_fail_only_when_active() {
    assert!(TransferStatus::Scheduled.can_transition(TransferStatus::Failed));
    assert!(TransferStatus::Notified.can_transition(TransferStatus::Failed));
    assert!(!TransferStatus::Completed.can_transition(TransferStatus::Failed));
    assert!(!TransferStatus::Failed.can_transition(TransferStatus::Failed));
}

#[test]
fn transfer_no_backwards() {
    assert!(!TransferStatus::Completed.can_transition(TransferStatus::Scheduled));
    assert!(!TransferStatus::Fetched.can_transition(TransferStatus::Notified));
}

#[test]
fn revision_promote_or_reject_only_from_draft() {
    assert!(RevisionStatus::Draft.can_transition(RevisionStatus::Promoted));
    assert!(RevisionStatus::Draft.can_transition(RevisionStatus::Rejected));
    assert!(!RevisionStatus::Promoted.can_transition(RevisionStatus::Rejected));
    assert!(!RevisionStatus::Rejected.can_transition(RevisionStatus::Promoted));
}

#[test]
fn dnc_string_forms() {
    assert_eq!(TransferDirection::ToMachine.as_str(), "to_machine");
    assert_eq!(TransferDirection::FromMachine.as_str(), "from_machine");
    for s in ["scheduled", "notified", "fetched", "completed", "failed"] {
        assert_eq!(TransferStatus::parse(s).unwrap().as_str(), s);
    }
    assert!(TransferStatus::parse("lost").is_none());
    assert!(TransferStatus::Completed.is_terminal());
    assert!(TransferStatus::Failed.is_terminal());
    assert!(!TransferStatus::Fetched.is_terminal());
    for s in ["draft", "promoted", "rejected"] {
        assert_eq!(RevisionStatus::parse(s).unwrap().as_str(), s);
    }
    assert!(RevisionStatus::parse("approved").is_none());
}

#[test]
fn only_admin_and_planner_write_master() {
    assert!(can_write_master(ADMIN));
    assert!(can_write_master(PLANNER));
    assert!(!can_write_master(SUPERVISOR));
    assert!(!can_write_master(OPERATOR));
    assert!(!can_write_master(QUALITY));
}

#[test]
fn unknown_role_cannot_write_master() {
    assert!(!can_write_master("Maintenance"));
    assert!(!can_write_master(""));
}

#[test]
fn everyone_reads_master() {
    assert!(can_read_master(OPERATOR));
}

#[test]
fn supervisor_promotes_revisions_operator_does_not() {
    assert!(can_promote_revision(SUPERVISOR));
    assert!(can_promote_revision(ADMIN));
    assert!(can_promote_revision(PLANNER));
    assert!(!can_promote_revision(OPERATOR));
    assert!(!can_promote_revision(QUALITY));
}

#[test]
fn quality_actions_gated_to_quality_supervisor_admin() {
    assert!(can_manage_quality(QUALITY));
    assert!(can_manage_quality(SUPERVISOR));
    assert!(can_manage_quality(ADMIN));
    assert!(!can_manage_quality(OPERATOR));
    assert!(!can_manage_quality(PLANNER));
}

#[test]
fn maintenance_lifecycle_is_forward_only() {
    type M = MaintenanceStatus;
    assert!(M::Requested.can_transition(M::Scheduled));
    assert!(M::Scheduled.can_transition(M::InProgress));
    assert!(M::InProgress.can_transition(M::Completed));
    assert!(M::Completed.can_transition(M::Verified));
    assert!(!M::Requested.can_transition(M::InProgress));
    assert!(!M::Requested.can_transition(M::Completed));
    assert!(!M::Completed.can_transition(M::InProgress));
    assert!(!M::Verified.can_transition(M::Completed));
}

#[test]
fn procurement_status_advances_but_caps_conceptually_at_requested_in_v1() {
    type P = ProcurementStatus;
    assert!(P::Requested.can_transition(P::SentToErp));
    assert!(P::SentToErp.can_transition(P::Fulfilled));
    assert!(!P::Requested.can_transition(P::Fulfilled));
    assert!(!P::Fulfilled.can_transition(P::Requested));
}

#[test]
fn round_trip_string_forms() {
    assert_eq!(PmTrigger::parse("usage_hours"), Some(PmTrigger::UsageHours));
    assert_eq!(PmTrigger::UsageHours.as_str(), "usage_hours");
    assert_eq!(MaintenanceType::parse("PM"), Some(MaintenanceType::Pm));
    assert_eq!(MaintenanceStatus::parse("in_progress"), Some(MaintenanceStatus::InProgress));
    assert_eq!(PmTrigger::parse("nope"), None);
}

#[test]
fn ncr_transitions() {
    assert!(NcrStatus::Open.can_transition(NcrStatus::Dispositioned));
    assert!(NcrStatus::Dispositioned.can_transition(NcrStatus::Closed));
    assert!(!NcrStatus::Open.can_transition(NcrStatus::Closed));
    assert!(!NcrStatus::Closed.can_transition(NcrStatus::Open));
}

#[test]
fn disposition_hold_release_rules() {
    assert!(Disposition::Rework.releases_hold());
    assert!(Disposition::UseAsIs.releases_hold());
    assert!(!Disposition::Scrap.releases_hold());
    assert!(!Disposition::Return.releases_hold());
}

#[test]
fn disposition_and_ncr_strings() {
    for s in ["rework", "scrap", "use_as_is", "return"] {
        assert_eq!(Disposition::parse(s).unwrap().as_str(), s);
    }
    assert!(Disposition::parse("keep").is_none());
    for s in ["open", "dispositioned", "closed"] {
        assert_eq!(NcrStatus::parse(s).unwrap().as_str(), s);
    }
}
