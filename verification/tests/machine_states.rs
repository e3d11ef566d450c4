use chrono::{Duration, TimeZone, Utc};
use mes::state_machine::{
    apply_planned_stops, classify_stop, compute_states, debounce, downtime_events,
    split_at_boundaries, state_str, MachineState, PlannedInterval, StateConfig, StateInterval,
};

fn ts(h: u32, m: u32, s: u32) -> i64 {
    Utc.with_ymd_and_hms(2026, 1, 1, h, m, s).single().unwrap().timestamp_micros()
}

fn secs(n: i64) -> i64 {
    Duration::seconds(n).num_microseconds().unwrap()
}

fn pulses_every(from: i64, to: i64, step: i64) -> Vec<i64> {
    let mut v = Vec::new();
    let mut t = from;
    while t <= to {
        v.push(t);
        t += secs(step);
    }
    v
}

#[test]
fn debounce_drops_close_duplicates() {
    let cfg = StateConfig::default();
    let base = ts(10, 0, 0);
    let raw = vec![base, base + Duration::milliseconds(500).num_microseconds().unwrap(), base + secs(3)];
    let kept = debounce(&raw, cfg.debounce);
    assert_eq!(kept.len(), 2, "the 0.5s duplicate is dropped");
}

#[test]
fn debounce_skips_out_of_order_pulses() {
    let kept = debounce(&[ts(10, 0, 10), ts(10, 0, 0), ts(10, 0, 20)], secs(2));
    assert_eq!(kept, vec![ts(10, 0, 10), ts(10, 0, 20)]);
}

#[test]
fn no_pulses_is_one_stop() {
    let cfg = StateConfig::default();
    let out = compute_states(&cfg, &[], ts(10, 0, 0), ts(10, 2, 0));
    assert_eq!(out.len(), 1);
    assert_eq!(out[0].state, MachineState::MicroStop);
}

#[test]
fn empty_window_has_no_states() {
    let cfg = StateConfig::default();
    assert!(compute_states(&cfg, &[ts(10, 0, 0)], ts(10, 0, 0), ts(10, 0, 0)).is_empty());
}

#[test]
fn classify_by_duration() {
    let cfg = StateConfig::default();
    assert_eq!(classify_stop(&cfg, secs(120) as i128), MachineState::MicroStop);
    assert_eq!(classify_stop(&cfg, secs(600) as i128), MachineState::Down);
    assert_eq!(classify_stop(&cfg, secs(300) as i128), MachineState::MicroStop);
}

#[test]
fn planned_stop_overrides_running() {
    let running = vec![StateInterval { state: MachineState::Running, start: ts(10, 0, 0), end: ts(10, 30, 0) }];
    let planned = vec![PlannedInterval { start: ts(10, 10, 0), end: ts(10, 15, 0) }];
    let out = apply_planned_stops(&running, &planned);
    assert_eq!(out.len(), 3);
    assert_eq!(out[0].state, MachineState::Running);
    assert_eq!(out[1].state, MachineState::PlannedStop);
    assert_eq!(out[1].start, ts(10, 10, 0));
    assert_eq!(out[1].end, ts(10, 15, 0));
    assert_eq!(out[2].state, MachineState::Running);
}

#[test]
fn overlapping_planned_stops_merge() {
    let running = vec![StateInterval { state: MachineState::Running, start: ts(10, 0, 0), end: ts(11, 0, 0) }];
    let planned = vec![
        PlannedInterval { start: ts(10, 20, 0), end: ts(10, 40, 0) },
        PlannedInterval { start: ts(10, 10, 0), end: ts(10, 30, 0) },
    ];
    let out = apply_planned_stops(&running, &planned);
    let got: Vec<_> = out.iter().map(|i| (i.state, i.start, i.end)).collect();
    assert_eq!(
        got,
        vec![
            (MachineState::Running, ts(10, 0, 0), ts(10, 10, 0)),
            (MachineState::PlannedStop, ts(10, 10, 0), ts(10, 40, 0)),
            (MachineState::Running, ts(10, 40, 0), ts(11, 0, 0)),
        ]
    );
}

#[test]
fn split_at_shift_boundary() {
    let running = vec![StateInterval { state: MachineState::Running, start: ts(5, 30, 0), end: ts(6, 30, 0) }];
    let out = split_at_boundaries(&running, &[ts(6, 0, 0)]);
    assert_eq!(out.len(), 2);
    assert_eq!(out[0].end, ts(6, 0, 0));
    assert_eq!(out[1].start, ts(6, 0, 0));
    assert_eq!(out[0].state, out[1].state);
}

#[test]
fn boundaries_outside_an_interval_are_ignored() {
    let iv = vec![StateInterval { state: MachineState::Down, start: ts(5, 30, 0), end: ts(6, 30, 0) }];
    let out = split_at_boundaries(&iv, &[ts(5, 30, 0), ts(7, 0, 0), ts(6, 15, 0), ts(5, 45, 0)]);
    let got: Vec<_> = out.iter().map(|i| (i.start, i.end)).collect();
    assert_eq!(
        got,
        vec![(ts(5, 30, 0), ts(5, 45, 0)), (ts(5, 45, 0), ts(6, 15, 0)), (ts(6, 15, 0), ts(6, 30, 0))]
    );
}

#[test]
fn scripted_hour_run_microstop_down_run() {
    let cfg = StateConfig::default();
    let mut pulses = Vec::new();
    pulses.extend(pulses_every(ts(10, 0, 0), ts(10, 20, 0), 30));
    pulses.extend(pulses_every(ts(10, 23, 0), ts(10, 40, 0), 30));
    pulses.extend(pulses_every(ts(10, 50, 0), ts(11, 0, 0), 30));

    let out = compute_states(&cfg, &pulses, ts(10, 0, 0), ts(11, 0, 0));

    let expected = vec![
        (MachineState::Running, ts(10, 0, 0), ts(10, 20, 0)),
        (MachineState::MicroStop, ts(10, 20, 0), ts(10, 23, 0)),
        (MachineState::Running, ts(10, 23, 0), ts(10, 40, 0)),
        (MachineState::Down, ts(10, 40, 0), ts(10, 50, 0)),
        (MachineState::Running, ts(10, 50, 0), ts(11, 0, 0)),
    ];
    let got: Vec<_> = out.iter().map(|i| (i.state, i.start, i.end)).collect();
    assert_eq!(got, expected);

    let dts = downtime_events(&out);
    assert_eq!(dts.len(), 2);
    assert_eq!(dts[0].state, MachineState::MicroStop);
    assert_eq!(dts[1].state, MachineState::Down);
    assert_eq!(dts[0].id.len(), 26);
    assert_ne!(dts[0].id, dts[1].id);
}

#[test]
fn timeline_covers_the_window_without_gaps() {
    let cfg = StateConfig::default();
    let pulses = vec![ts(10, 5, 0), ts(10, 5, 30), ts(10, 20, 0)];
    let out = compute_states(&cfg, &pulses, ts(10, 0, 0), ts(10, 30, 0));
    assert_eq!(out.first().unwrap().start, ts(10, 0, 0));
    assert_eq!(out.last().unwrap().end, ts(10, 30, 0));
    for w in out.windows(2) {
        assert_eq!(w[0].end, w[1].start);
    }
    let total: i128 = out.iter().map(|i| i.duration()).sum();
    assert_eq!(total, (ts(10, 30, 0) - ts(10, 0, 0)) as i128);
}

#[test]
fn planned_stops_are_not_downtime() {
    let ivs = vec![
        StateInterval { state: MachineState::PlannedStop, start: 0, end: 10 },
        StateInterval { state: MachineState::Running, start: 10, end: 20 },
        StateInterval { state: MachineState::Down, start: 20, end: 30 },
    ];
    let dts = downtime_events(&ivs);
    assert_eq!(dts.len(), 1);
    assert_eq!((dts[0].state, dts[0].start, dts[0].end), (MachineState::Down, 20, 30));
}

#[test]
fn machine_state_texts() {
    assert_eq!(state_str(MachineState::Running), "running");
    assert_eq!(state_str(MachineState::MicroStop), "micro_stop");
    assert_eq!(state_str(MachineState::Down), "down");
    assert_eq!(state_str(MachineState::PlannedStop), "planned_stop");
    assert!(!MachineState::Running.is_stop());
    assert!(MachineState::PlannedStop.is_stop());
}
