use chrono::{TimeZone, Utc};
use mes::barcode::{encode, parse, TYPE_LOT, TYPE_SERIAL};
use mes::cmms::{
    calendar_is_due, calendar_next_due, check_maintenance_move, parse_maintenance_target,
    parse_pm_trigger_input, pm_schedule_is_due, reorder_breached, spare_signed_qty, usage_is_due,
    usage_next_due, MaintenanceStatus, PmTrigger,
};
use mes::decimal::Dec;
use mes::id::new_id;
use mes::qms::{evaluate, plan_inspection, InspectionOutcome};
use mes::repo::{check_issue_holds, check_split_point, map_db_error, stamps_completion, RepoError};
use rust_decimal::prelude::FromPrimitive;
use rust_decimal::Decimal;

fn d(v: f64) -> Dec {
    let x = Decimal::from_f64(v).unwrap();
    Dec { mantissa: x.mantissa(), scale: x.scale() }
}

fn dec(x: Dec) -> Decimal {
    Decimal::from_i128_with_scale(x.mantissa, x.scale)
}

fn t(y: i32, m: u32, day: u32) -> i64 {
    Utc.with_ymd_and_hms(y, m, day, 0, 0, 0).unwrap().timestamp_micros()
}

#[test]
fn calendar_due_at_and_after_interval() {
    let last = t(2026, 1, 1);
    let next = calendar_next_due(last, 30);
    assert_eq!(next, t(2026, 1, 31));
    assert!(!calendar_is_due(next, t(2026, 1, 30)));
    assert!(calendar_is_due(next, t(2026, 1, 31)));
    assert!(calendar_is_due(next, t(2026, 2, 5)));
}

#[test]
fn usage_due_off_run_hours() {
    let next = usage_next_due(d(100.0), d(250.0));
    assert_eq!(dec(next), dec(d(350.0)));
    assert!(!usage_is_due(next, d(349.9)));
    assert!(usage_is_due(next, d(350.0)));
    assert!(usage_is_due(next, d(400.0)));
}

#[test]
fn pm_schedule_due_decision() {
    let now = t(2026, 3, 1);
    assert!(pm_schedule_is_due("calendar", Some(t(2026, 2, 1)), None, d(0.0), now));
    assert!(!pm_schedule_is_due("calendar", Some(t(2026, 4, 1)), None, d(0.0), now));
    assert!(!pm_schedule_is_due("calendar", None, None, d(0.0), now));
    assert!(pm_schedule_is_due("usage_hours", None, Some(d(350.0)), d(350.5), now));
    assert!(!pm_schedule_is_due("usage_hours", None, Some(d(350.0)), d(10.0), now));
    assert!(!pm_schedule_is_due("weekly", Some(t(2026, 2, 1)), Some(d(1.0)), d(5.0), now));
}

#[test]
fn pm_trigger_input_is_checked() {
    assert_eq!(parse_pm_trigger_input("calendar"), Ok(PmTrigger::Calendar));
    assert_eq!(
        parse_pm_trigger_input("monthly"),
        Err(RepoError::InvalidReference("unknown trigger_type".to_string()))
    );
}

#[test]
fn maintenance_moves_name_their_column_or_conflict() {
    assert_eq!(parse_maintenance_target("completed"), Ok(MaintenanceStatus::Completed));
    assert_eq!(
        parse_maintenance_target("done"),
        Err(RepoError::InvalidReference("unknown status".to_string()))
    );
    assert_eq!(check_maintenance_move("requested", MaintenanceStatus::Scheduled), Ok("scheduled_at"));
    assert_eq!(check_maintenance_move("in_progress", MaintenanceStatus::Completed), Ok("closed_at"));
    assert_eq!(check_maintenance_move("completed", MaintenanceStatus::Verified), Ok("verified_at"));
    assert_eq!(
        check_maintenance_move("requested", MaintenanceStatus::Completed),
        Err(RepoError::Conflict("cannot move requested -> completed".to_string()))
    );
    assert_eq!(
        check_maintenance_move("???", MaintenanceStatus::Scheduled),
        Err(RepoError::Conflict("corrupt status".to_string()))
    );
}

#[test]
fn spare_movements_are_signed_by_type() {
    assert_eq!(dec(spare_signed_qty("issue", d(3.0)).unwrap()), dec(d(-3.0)));
    assert_eq!(dec(spare_signed_qty("issue", d(-3.0)).unwrap()), dec(d(-3.0)));
    assert_eq!(dec(spare_signed_qty("receive", d(-2.5)).unwrap()), dec(d(2.5)));
    assert_eq!(dec(spare_signed_qty("adjust", d(-1.0)).unwrap()), dec(d(-1.0)));
    assert_eq!(
        spare_signed_qty("gift", d(1.0)),
        Err(RepoError::InvalidReference("unknown txn_type".to_string()))
    );
}

#[test]
fn reorder_point_breach() {
    assert!(reorder_breached(d(5.0), d(5.0), d(10.0)));
    assert!(reorder_breached(d(4.0), d(5.0), d(10.0)));
    assert!(!reorder_breached(d(6.0), d(5.0), d(10.0)));
    assert!(!reorder_breached(d(4.0), d(5.0), d(0.0)));
}

#[test]
fn evaluate_within_and_outside_limits() {
    let lo = Some(d(9.5));
    let hi = Some(d(10.5));
    assert_eq!(evaluate(d(10.0), lo, hi), InspectionOutcome::Pass);
    assert_eq!(evaluate(d(9.5), lo, hi), InspectionOutcome::Pass);
    assert_eq!(evaluate(d(10.5), lo, hi), InspectionOutcome::Pass);
    assert_eq!(evaluate(d(9.4), lo, hi), InspectionOutcome::Fail);
    assert_eq!(evaluate(d(10.6), lo, hi), InspectionOutcome::Fail);
}

#[test]
fn evaluate_one_sided_and_unbounded() {
    assert_eq!(evaluate(d(5.0), Some(d(1.0)), None), InspectionOutcome::Pass);
    assert_eq!(evaluate(d(0.5), Some(d(1.0)), None), InspectionOutcome::Fail);
    assert_eq!(evaluate(d(100.0), None, None), InspectionOutcome::Pass);
}

#[test]
fn failed_inspection_raises_ncr_and_holds() {
    let plan = plan_inspection(
        d(11.0),
        Some(d(9.5)),
        Some(d(10.5)),
        Some("LOT1"),
        Some("SER1"),
        "01HZZZZZZZZZZZZZZZZZZZZZZZ",
    );
    assert_eq!(plan.outcome, InspectionOutcome::Fail);
    assert_eq!(plan.outcome.as_str(), "fail");
    let ncr = plan.ncr.unwrap();
    assert_eq!(ncr.ncr_no, "NCR-01HZZZZZZZ");
    assert_eq!(ncr.holds.len(), 2);
    assert_eq!(ncr.holds[0].entity_type, "lot");
    assert_eq!(ncr.holds[0].entity_id, "LOT1");
    assert_eq!(ncr.holds[1].entity_type, "serial");
    assert_eq!(ncr.holds[1].entity_id, "SER1");

    let pass = plan_inspection(d(10.0), Some(d(9.5)), Some(d(10.5)), Some("LOT1"), None, "01HZZZZZZZZZZZ");
    assert_eq!(pass.outcome, InspectionOutcome::Pass);
    assert!(pass.ncr.is_none());
}

#[test]
fn roundtrips() {
    let code = encode(TYPE_LOT, "01HXYZ");
    assert_eq!(code, "EMX1|LOT|01HXYZ");
    assert_eq!(parse(&code), Some(("LOT".to_string(), "01HXYZ".to_string())));
}

#[test]
fn rejects_malformed() {
    assert!(parse("").is_none());
    assert!(parse("EMX1|LOT").is_none());
    assert!(parse("NOPE|LOT|1").is_none());
    assert!(parse("EMX1||1").is_none());
    assert!(parse("EMX1|LOT|").is_none());
}

#[test]
fn id_may_contain_nothing_special() {
    assert_eq!(parse("EMX1|SER|a|b"), Some(("SER".to_string(), "a|b".to_string())));
}

#[test]
fn serial_barcodes_round_trip() {
    let code = encode(TYPE_SERIAL, "SN-9");
    assert_eq!(code, "EMX1|SER|SN-9");
    assert_eq!(parse(&code), Some(("SER".to_string(), "SN-9".to_string())));
}

#[test]
fn ids_are_26_chars_and_unique() {
    let a = new_id();
    let b = new_id();
    assert_eq!(a.len(), 26);
    assert_eq!(b.len(), 26);
    assert_ne!(a, b);
}

#[test]
fn driver_errors_map_to_repo_errors() {
    assert_eq!(map_db_error(true, None, "x"), RepoError::NotFound);
    assert_eq!(map_db_error(false, Some("23505"), "dup"), RepoError::Conflict("dup".to_string()));
    assert_eq!(
        map_db_error(false, Some("23503"), "fk"),
        RepoError::InvalidReference("fk".to_string())
    );
    assert_eq!(map_db_error(false, Some("42P01"), "boom"), RepoError::Db("boom".to_string()));
    assert_eq!(map_db_error(false, None, "io"), RepoError::Db("io".to_string()));
}

#[test]
fn split_point_must_be_inside() {
    assert_eq!(check_split_point(5, 0, 10), Ok(()));
    let conflict = Err(RepoError::Conflict("split point must lie strictly inside the event".to_string()));
    assert_eq!(check_split_point(0, 0, 10), conflict);
    assert_eq!(check_split_point(10, 0, 10), conflict);
    assert_eq!(check_split_point(11, 0, 10), conflict);
}

#[test]
fn held_material_cannot_be_issued() {
    assert_eq!(check_issue_holds(false, false), Ok(()));
    assert_eq!(check_issue_holds(true, true), Err(RepoError::Conflict("lot is on hold".to_string())));
    assert_eq!(check_issue_holds(false, true), Err(RepoError::Conflict("serial is on hold".to_string())));
}

#[test]
fn terminal_transfer_statuses_stamp_completion() {
    assert!(stamps_completion("completed"));
    assert!(stamps_completion("failed"));
    assert!(!stamps_completion("fetched"));
}

#[test]
fn usage_next_due_keeps_scales_as_stated() {
    // A zero operand leaves the other one unchanged, scale included.
    let zero_at_three = Dec { mantissa: 0, scale: 3 };
    let five = Dec { mantissa: 5, scale: 0 };
    assert_eq!(usage_next_due(zero_at_three, five), five);
    assert_eq!(usage_next_due(five, zero_at_three), five);
    // Otherwise the exact sum at the larger scale.
    let a = Dec { mantissa: 1050, scale: 2 };
    assert_eq!(usage_next_due(a, five), Dec { mantissa: 1550, scale: 2 });
    assert_eq!(usage_next_due(Dec { mantissa: 15, scale: 1 }, Dec { mantissa: -15, scale: 1 }), Dec { mantissa: 0, scale: 1 });
}
