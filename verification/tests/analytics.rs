use chrono::{NaiveTime, TimeZone, Timelike, Utc};
use mes::analytics::{pareto_ranked, str_lt, ParetoInput, RankedRow, SixBigLoss};
use mes::shifts::{shift_windows, ShiftDef};

fn inp(key: &str, seconds: i64) -> ParetoInput {
    ParetoInput { key: key.to_string(), label: key.to_string(), seconds }
}

fn pct(part: i64, total: i64) -> f64 {
    part as f64 / total as f64 * 100.0
}

fn ranked(inputs: Vec<ParetoInput>) -> (Vec<RankedRow>, i64) {
    pareto_ranked(&inputs)
}

#[test]
fn pareto_orders_descending_with_cumulative() {
    let (rows, total) = ranked(vec![inp("b", 30), inp("a", 50), inp("c", 20)]);
    let keys: Vec<_> = rows.iter().map(|r| r.key.as_str()).collect();
    assert_eq!(keys, ["a", "b", "c"], "sorted by magnitude desc");
    assert_eq!(rows[0].seconds, 50);
    assert!((pct(rows[0].seconds, total) - 50.0).abs() < 1e-9);
    assert!((pct(rows[0].cumulative_seconds, total) - 50.0).abs() < 1e-9);
    assert!((pct(rows[1].cumulative_seconds, total) - 80.0).abs() < 1e-9);
    assert!((pct(rows[2].cumulative_seconds, total) - 100.0).abs() < 1e-9);
}

#[test]
fn pareto_breaks_ties_by_key() {
    let (rows, _) = ranked(vec![inp("z", 10), inp("a", 10)]);
    assert_eq!(rows[0].key, "a");
    assert_eq!(rows[1].key, "z");
}

#[test]
fn pareto_drops_zero_and_empty() {
    assert!(ranked(vec![]).0.is_empty());
    assert!(ranked(vec![inp("a", 0)]).0.is_empty());
    let (rows, _) = ranked(vec![inp("a", 5), inp("b", 0)]);
    assert_eq!(rows.len(), 1);
}

#[test]
fn pareto_running_totals_are_exact() {
    let (rows, total) = ranked(vec![inp("x", 7), inp("y", -3), inp("w", 7), inp("v", 1)]);
    let got: Vec<_> = rows.iter().map(|r| (r.key.as_str(), r.seconds, r.cumulative_seconds)).collect();
    assert_eq!(got, vec![("w", 7, 7), ("x", 7, 14), ("v", 1, 15)]);
    assert_eq!(total, 15);
}

#[test]
fn six_big_loss_buckets() {
    assert_eq!(SixBigLoss::Breakdown.oee_bucket(), "availability");
    assert_eq!(SixBigLoss::MinorStop.oee_bucket(), "performance");
    assert_eq!(SixBigLoss::ProductionReject.oee_bucket(), "quality");
    assert_eq!(SixBigLoss::parse("breakdown"), Some(SixBigLoss::Breakdown));
    assert_eq!(SixBigLoss::parse("nope"), None);
}

#[test]
fn six_big_loss_strings_round_trip() {
    for s in ["breakdown", "setup_adjustment", "minor_stop", "reduced_speed", "startup_reject", "production_reject"] {
        assert_eq!(SixBigLoss::parse(s).unwrap().as_str(), s);
    }
}

#[test]
fn text_order_is_byte_order() {
    assert!(str_lt("a", "b"));
    assert!(str_lt("ab", "abc"));
    assert!(!str_lt("abc", "ab"));
    assert!(!str_lt("same", "same"));
    assert!(str_lt("Z", "a"));
}

fn tod(h: u32, m: u32) -> i64 {
    let t = NaiveTime::from_hms_opt(h, m, 0).unwrap();
    t.num_seconds_from_midnight() as i64 * 1_000_000
}

fn at(d: u32, h: u32, m: u32) -> i64 {
    Utc.with_ymd_and_hms(2026, 1, d, h, m, 0).unwrap().timestamp_micros()
}

#[test]
fn shift_windows_clamp_and_roll_overnight() {
    let shifts = vec![
        ShiftDef { name: "A".to_string(), start_of_day: tod(6, 0), end_of_day: tod(14, 0) },
        ShiftDef { name: "N".to_string(), start_of_day: tod(22, 0), end_of_day: tod(6, 0) },
    ];
    let w = shift_windows(&shifts, at(1, 8, 0), at(2, 8, 0));
    let got: Vec<_> = w.iter().map(|x| (x.name.as_str(), x.start, x.end)).collect();
    assert_eq!(
        got,
        vec![
            ("A", at(1, 8, 0), at(1, 14, 0)),
            ("N", at(1, 22, 0), at(2, 6, 0)),
            ("A", at(2, 6, 0), at(2, 8, 0)),
        ]
    );
}

#[test]
fn shift_windows_of_an_empty_range_are_empty() {
    let shifts = vec![ShiftDef { name: "A".to_string(), start_of_day: tod(6, 0), end_of_day: tod(14, 0) }];
    assert!(shift_windows(&shifts, at(3, 8, 0), at(3, 8, 0)).is_empty());
    assert!(shift_windows(&shifts, at(3, 8, 0), at(1, 8, 0)).is_empty());
}
