//! The machine state engine: turns a time-ordered stream of cycle pulses over
//! a window into non-overlapping state intervals (Running / MicroStop / Down /
//! PlannedStop) and derives an unclassified downtime event for each stop.
//!
//! Rules (thresholds configurable, defaults on [`StateConfig`]):
//! - Debounce: a pulse within `debounce` of the previously kept pulse is a
//!   duplicate and dropped; an out-of-order pulse is ignored.
//! - Running: while consecutive pulses are at most `micro_stop_after` apart.
//! - Stop: a larger gap is a stop beginning at the last pulse; a stop no longer
//!   than `down_after` is a MicroStop, a longer one is Down.
//! - Planned stops override whatever the pulses implied over their span.
//! - Shift boundaries split an interval in two with the same state.
//!
//! Timestamps and durations are microseconds; timestamps count from the Unix
//! epoch.

use vstd::prelude::*;
use crate::id::{is_ulid_text, new_id};
use crate::sort::{ascending, lemma_sort_i64, sort_i64, sort_i64_spec, sort_spans, sort_spans_spec};

verus! {

/// Discrete machine state over an interval.
#[derive(Debug, Clone, Copy, PartialEq, Eq, Structural)]
pub enum MachineState {
    Running,
    MicroStop,
    Down,
    PlannedStop,
}

/// Whether a state is a stop (not producing).
pub open spec fn spec_is_stop(s: MachineState) -> bool {
    s != MachineState::Running
}

/// The stored text of a machine state.
pub open spec fn state_text(s: MachineState) -> Seq<char> {
    match s {
        MachineState::Running => "running"@,
        MachineState::MicroStop => "micro_stop"@,
        MachineState::Down => "down"@,
        MachineState::PlannedStop => "planned_stop"@,
    }
}

/// The stored text of a machine state.
pub fn state_str(s: MachineState) -> (r: &'static str)
    ensures
        r@ == state_text(s),
{
    match s {
        MachineState::Running => "running",
        MachineState::MicroStop => "micro_stop",
        MachineState::Down => "down",
        MachineState::PlannedStop => "planned_stop",
    }
}

impl MachineState {
    /// Whether this state is a stop (i.e. not producing).
    pub fn is_stop(self) -> (r: bool)
        ensures
            r == spec_is_stop(self),
    {
        match self {
            MachineState::Running => false,
            _ => true,
        }
    }
}

/// Thresholds governing state transitions, in microseconds.
#[derive(Debug, Clone, Copy, PartialEq, Eq, Structural)]
pub struct StateConfig {
    /// Max gap between pulses still counted as Running.
    pub micro_stop_after: i64,
    /// A stop longer than this is Down; at or under it is MicroStop.
    pub down_after: i64,
    /// Pulses within this of the previous kept pulse are dropped.
    pub debounce: i64,
}

impl Default for StateConfig {
    /// 60 s running gap, 5 min down threshold, 2 s debounce.
    fn default() -> (r: StateConfig)
        ensures
            r.micro_stop_after == 60_000_000,
            r.down_after == 300_000_000,
            r.debounce == 2_000_000,
    {
        StateConfig {
            micro_stop_after: 60_000_000,
            down_after: 300_000_000,
            debounce: 2_000_000,
        }
    }
}

/// A resolved span of a single state.
#[derive(Debug, Clone, Copy, PartialEq, Eq, Structural)]
pub struct StateInterval {
    pub state: MachineState,
    pub start: i64,
    pub end: i64,
}

impl StateInterval {
    /// The interval's length.
    pub fn duration(&self) -> (r: i128)
        ensures
            r == self.end - self.start,
    {
        (self.end as i128) - (self.start as i128)
    }
}

/// A planned stop to overlay onto the timeline.
#[derive(Debug, Clone, Copy, PartialEq, Eq, Structural)]
pub struct PlannedInterval {
    pub start: i64,
    pub end: i64,
}

/// An unclassified downtime occurrence derived from a stop interval.
#[derive(Debug, Clone, PartialEq, Eq)]
pub struct DowntimeEvent {
    pub id: String,
    pub state: MachineState,
    pub start: i64,
    pub end: i64,
}

/// A stop of length `span` is a MicroStop up to `down_after`, Down beyond.
pub open spec fn classify(cfg: StateConfig, span: int) -> MachineState {
    if span <= cfg.down_after {
        MachineState::MicroStop
    } else {
        MachineState::Down
    }
}

/// Classify a stop's duration into MicroStop vs Down.
pub fn classify_stop(cfg: &StateConfig, span: i128) -> (r: MachineState)
    ensures
        r == classify(*cfg, span as int),
{
    if span <= cfg.down_after as i128 {
        MachineState::MicroStop
    } else {
        MachineState::Down
    }
}

/// Append a Running interval `[start, end]` unless it is empty.
pub open spec fn flush_running(out: Seq<StateInterval>, start: i64, end: i64) -> Seq<
    StateInterval,
> {
    if end > start {
        out.push(StateInterval { state: MachineState::Running, start, end })
    } else {
        out
    }
}

/// Push a Running interval, skipping zero/negative-length spans.
fn push_running(out: &mut Vec<StateInterval>, start: i64, end: i64)
    ensures
        final(out)@ == flush_running(old(out)@, start, end),
{
    if end > start {
        out.push(StateInterval { state: MachineState::Running, start, end });
    }
}

/// The pulses kept by debouncing, in input order: a pulse is kept unless it
/// lies less than `min_gap` after, or before, the last kept pulse.
pub open spec fn debounce_spec(pulses: Seq<i64>, min_gap: i64) -> Seq<i64>
    decreases pulses.len(),
{
    if pulses.len() == 0 {
        pulses
    } else {
        let kept = debounce_spec(pulses.drop_last(), min_gap);
        let p = pulses.last();
        if kept.len() > 0 && (p - kept.last() < min_gap || p < kept.last()) {
            kept
        } else {
            kept.push(p)
        }
    }
}

/// Drop pulses that fall within `min_gap` of the previously kept pulse, and
/// pulses earlier than it.
pub fn debounce(pulses: &[i64], min_gap: i64) -> (r: Vec<i64>)
    ensures
        r@ == debounce_spec(pulses@, min_gap),
        ascending(pulses@) ==> forall|i: int|
            0 <= i < pulses@.len() && !r@.contains(#[trigger] pulses@[i]) ==> exists|j: int|
                0 <= j < r@.len() && r@[j] <= pulses@[i] && pulses@[i] - r@[j] < min_gap,
        ascending(pulses@) && pulses@.len() > 0 ==> r@.len() > 0 && r@[0] == pulses@[0],
{
    proof {
        if ascending(pulses@) {
            lemma_debounce_keeps_what_it_can(pulses@, min_gap);
        }
    }
    let mut kept: Vec<i64> = Vec::new();
    let mut i: usize = 0;
    while i < pulses.len()
        invariant
            i <= pulses.len(),
            kept@ == debounce_spec(pulses@.subrange(0, i as int), min_gap),
        decreases pulses.len() - i,
    {
        let p = pulses[i];
        assert(pulses@.subrange(0, i + 1).drop_last() =~= pulses@.subrange(0, i as int));
        if kept.len() > 0 {
            let last = kept[kept.len() - 1];
            if (p as i128) - (last as i128) < min_gap as i128 || p < last {
            } else {
                kept.push(p);
            }
        } else {
            kept.push(p);
        }
        i = i + 1;
    }
    assert(pulses@.subrange(0, pulses.len() as int) =~= pulses@);
    kept
}

/// One segment `[a, b]` of the walk: a segment longer than `micro_stop_after`
/// closes the running span so far and is a stop of its own; a shorter segment
/// extends the running span.
pub open spec fn seg_step(
    cfg: StateConfig,
    out: Seq<StateInterval>,
    run_start: i64,
    a: i64,
    b: i64,
) -> (Seq<StateInterval>, i64) {
    if b - a <= cfg.micro_stop_after {
        (out, run_start)
    } else {
        (
            flush_running(out, run_start, a).push(
                StateInterval { state: classify(cfg, b - a), start: a, end: b },
            ),
            b,
        )
    }
}

/// Walk the segments between consecutive points, left to right. Returns the
/// intervals closed so far and where the open running span starts.
pub open spec fn scan_segments(cfg: StateConfig, pts: Seq<i64>) -> (Seq<StateInterval>, i64)
    decreases pts.len(),
{
    if pts.len() <= 1 {
        (Seq::empty(), if pts.len() == 1 {
            pts[0]
        } else {
            0
        })
    } else {
        let (out, run_start) = scan_segments(cfg, pts.drop_last());
        seg_step(cfg, out, run_start, pts[pts.len() - 2], pts.last())
    }
}

/// Apply one segment step to the walk state.
fn scan_step(cfg: &StateConfig, out: &mut Vec<StateInterval>, run_start: &mut i64, a: i64, b: i64)
    ensures
        (final(out)@, *final(run_start)) == seg_step(*cfg, old(out)@, *old(run_start), a, b),
{
    let gap = (b as i128) - (a as i128);
    if gap > cfg.micro_stop_after as i128 {
        push_running(out, *run_start, a);
        out.push(StateInterval { state: classify_stop(cfg, gap), start: a, end: b });
        *run_start = b;
    }
}

/// The state timeline of a (debounced) pulse stream over `[window_start,
/// window_end]`: nothing for an empty window; one stop over the whole window
/// when there are no pulses; otherwise the segments between the window start,
/// the pulses and the window end, walked as in `scan_segments`, with the last
/// running span closed at the window end.
pub open spec fn timeline(
    cfg: StateConfig,
    kept: Seq<i64>,
    window_start: i64,
    window_end: i64,
) -> Seq<StateInterval> {
    if window_end <= window_start {
        Seq::empty()
    } else if kept.len() == 0 {
        seq![
            StateInterval {
                state: classify(cfg, window_end - window_start),
                start: window_start,
                end: window_end,
            },
        ]
    } else {
        let pts = seq![window_start] + kept + seq![window_end];
        let (out, run_start) = scan_segments(cfg, pts);
        flush_running(out, run_start, window_end)
    }
}

/// Compute the raw state timeline for a pulse stream over `[window_start,
/// window_end]`, before any planned-stop overlay or shift-boundary splitting.
pub fn compute_states(
    cfg: &StateConfig,
    pulses: &[i64],
    window_start: i64,
    window_end: i64,
) -> (r: Vec<StateInterval>)
    ensures
        r@ == timeline(*cfg, debounce_spec(pulses@, cfg.debounce), window_start, window_end),
        window_end <= window_start ==> r@.len() == 0,
        window_start < window_end && cfg.micro_stop_after >= 0 && (forall|i: int|
            0 <= i < pulses@.len() ==> window_start <= #[trigger] pulses@[i] <= window_end)
            ==> tiles(r@, window_start as int, window_end as int) && stops_classified(*cfg, r@),
{
    proof {
        if window_start < window_end && cfg.micro_stop_after >= 0 && (forall|i: int|
            0 <= i < pulses@.len() ==> window_start <= #[trigger] pulses@[i] <= window_end) {
            lemma_timeline_tiles_window(*cfg, pulses@, window_start, window_end);
        }
    }
    let mut out: Vec<StateInterval> = Vec::new();
    if window_end <= window_start {
        return out;
    }
    let kept = debounce(pulses, cfg.debounce);
    if kept.len() == 0 {
        let span = (window_end as i128) - (window_start as i128);
        out.push(
            StateInterval { state: classify_stop(cfg, span), start: window_start, end: window_end },
        );
        assert(out@ =~= timeline(*cfg, kept@, window_start, window_end));
        return out;
    }
    let ghost pts = seq![window_start] + kept@ + seq![window_end];
    let n = kept.len();
    let mut run_start = window_start;
    let mut prev = window_start;
    let mut i: usize = 0;
    assert(pts.subrange(0, 1) =~= seq![window_start]);
    while i < n
        invariant
            n == kept@.len(),
            n > 0,
            i <= n,
            pts == seq![window_start] + kept@ + seq![window_end],
            prev == pts[i as int],
            (out@, run_start) == scan_segments(*cfg, pts.subrange(0, i + 1)),
        decreases n - i,
    {
        let b = kept[i];
        assert(b == pts[i + 1]);
        let ghost sub = pts.subrange(0, i + 2);
        assert(sub.drop_last() =~= pts.subrange(0, i + 1));
        scan_step(cfg, &mut out, &mut run_start, prev, b);
        prev = b;
        i = i + 1;
    }
    assert(pts.subrange(0, n + 2).drop_last() =~= pts.subrange(0, n + 1));
    assert(pts[n + 1] == window_end);
    scan_step(cfg, &mut out, &mut run_start, prev, window_end);
    assert(pts.subrange(0, n + 2) =~= pts);
    push_running(&mut out, run_start, window_end);
    out
}

/// All kept pulses come from the input: debouncing only drops pulses.
pub proof fn lemma_debounce_subset(pulses: Seq<i64>, min_gap: i64)
    ensures
        forall|i: int|
            0 <= i < debounce_spec(pulses, min_gap).len() ==> pulses.contains(
                #[trigger] debounce_spec(pulses, min_gap)[i],
            ),
        debounce_spec(pulses, min_gap).len() <= pulses.len(),
    decreases pulses.len(),
{
    if pulses.len() > 0 {
        let t = pulses.drop_last();
        lemma_debounce_subset(t, min_gap);
        let k = debounce_spec(pulses, min_gap);
        assert forall|i: int| 0 <= i < k.len() implies pulses.contains(#[trigger] k[i]) by {
            if i < debounce_spec(t, min_gap).len() {
                let x = debounce_spec(t, min_gap)[i];
                assert(t.contains(x));
                let j = choose|j: int| 0 <= j < t.len() && t[j] == x;
                assert(pulses[j] == x);
            } else {
                assert(pulses[pulses.len() - 1] == k[i]);
            }
        }
    }
}

/// Debouncing drops only what it must: for pulses in time order, the first
/// pulse is always kept, and a pulse is dropped only when it lies less than
/// `min_gap` after some kept pulse that is not later than it. A pulse at
/// least `min_gap` after every earlier kept pulse is kept, whatever the raw
/// pulses between them.
pub proof fn lemma_debounce_keeps_what_it_can(pulses: Seq<i64>, min_gap: i64)
    requires
        ascending(pulses),
    ensures
        pulses.len() > 0 ==> debounce_spec(pulses, min_gap).len() > 0 && debounce_spec(
            pulses,
            min_gap,
        )[0] == pulses[0],
        forall|i: int|
            0 <= i < pulses.len() && !debounce_spec(pulses, min_gap).contains(#[trigger] pulses[i])
                ==> exists|j: int|
                0 <= j < debounce_spec(pulses, min_gap).len() && debounce_spec(pulses, min_gap)[j]
                    <= pulses[i] && pulses[i] - debounce_spec(pulses, min_gap)[j] < min_gap,
    decreases pulses.len(),
{
    if pulses.len() > 0 {
        let t = pulses.drop_last();
        let p = pulses.last();
        assert(ascending(t)) by {
            assert forall|a: int, b: int| 0 <= a <= b < t.len() implies t[a] <= t[b] by {
                assert(t[a] == pulses[a] && t[b] == pulses[b]);
            }
        }
        lemma_debounce_keeps_what_it_can(t, min_gap);
        lemma_debounce_subset(t, min_gap);
        let kt = debounce_spec(t, min_gap);
        let k = debounce_spec(pulses, min_gap);
        let dropped = kt.len() > 0 && (p - kt.last() < min_gap || p < kt.last());
        if dropped {
            assert(k == kt);
        } else {
            assert(k == kt.push(p));
        }
        if t.len() == 0 {
            assert(kt.len() == 0);
            assert(k == kt.push(p));
            assert(k[0] == pulses[0]);
        } else {
            assert(t[0] == pulses[0]);
            assert(k[0] == kt[0]);
        }
        assert forall|i: int|
            0 <= i < pulses.len() && !k.contains(#[trigger] pulses[i]) implies exists|j: int|
            0 <= j < k.len() && k[j] <= pulses[i] && pulses[i] - k[j] < min_gap by {
            if i < t.len() {
                assert(t[i] == pulses[i]);
                if kt.contains(pulses[i]) {
                    let q = choose|q: int| 0 <= q < kt.len() && kt[q] == pulses[i];
                    assert(k[q] == kt[q]);
                    assert(k.contains(pulses[i]));
                }
                let j = choose|j: int|
                    0 <= j < kt.len() && kt[j] <= t[i] && t[i] - kt[j] < min_gap;
                assert(k[j] == kt[j]);
            } else {
                assert(pulses[i] == p);
                if !dropped {
                    assert(k[k.len() - 1] == p);
                    assert(k.contains(p));
                }
                let last = kt.last();
                assert(kt[kt.len() - 1] == last);
                assert(t.contains(last));
                let m = choose|m: int| 0 <= m < t.len() && t[m] == last;
                assert(pulses[m] == last);
                assert(last <= p);
                assert(k[kt.len() - 1] == last);
            }
        }
    }
}

/// Debounced pulses are in ascending order, consecutive ones at least
/// `min_gap` apart.
pub proof fn lemma_debounce_ascending(pulses: Seq<i64>, min_gap: i64)
    ensures
        ({
            let k = debounce_spec(pulses, min_gap);
            forall|i: int|
                0 <= i < k.len() - 1 ==> k[i] <= #[trigger] k[i + 1] && k[i + 1] - k[i] >= min_gap
        }),
    decreases pulses.len(),
{
    if pulses.len() > 0 {
        let t = pulses.drop_last();
        lemma_debounce_ascending(t, min_gap);
        let kt = debounce_spec(t, min_gap);
        let k = debounce_spec(pulses, min_gap);
        let p = pulses.last();
        if kt.len() > 0 && (p - kt.last() < min_gap || p < kt.last()) {
            assert(k == kt);
        } else {
            assert(k == kt.push(p));
            assert forall|i: int| 0 <= i < k.len() - 1 implies k[i] <= #[trigger] k[i + 1] && k[i
                + 1] - k[i] >= min_gap by {
                if i < kt.len() - 1 {
                    assert(k[i] == kt[i] && k[i + 1] == kt[i + 1]);
                } else {
                    assert(k[i] == kt.last() && k[i + 1] == p);
                }
            }
        }
    }
}

/// `s` tiles `[from, to]`: consecutive, touching, each of positive length.
pub open spec fn tiles(s: Seq<StateInterval>, from: int, to: int) -> bool {
    &&& s.len() > 0
    &&& s[0].start == from
    &&& s.last().end == to
    &&& forall|i: int| 0 <= i < s.len() ==> #[trigger] s[i].start < s[i].end
    &&& forall|i: int| 0 <= i < s.len() - 1 ==> #[trigger] s[i].end == s[i + 1].start
}

/// Every stop in `s` is classified by its own length and none is planned.
pub open spec fn stops_classified(cfg: StateConfig, s: Seq<StateInterval>) -> bool {
    forall|i: int|
        0 <= i < s.len() ==> (#[trigger] s[i]).state != MachineState::PlannedStop && (s[i].state
            != MachineState::Running ==> s[i].state == classify(cfg, s[i].end - s[i].start))
}

/// Appending an interval that starts where a tiling ends extends the tiling.
proof fn lemma_tiles_push(s: Seq<StateInterval>, from: int, x: StateInterval)
    requires
        s.len() == 0 ==> x.start == from,
        s.len() > 0 ==> tiles(s, from, x.start as int),
        x.start < x.end,
    ensures
        tiles(s.push(x), from, x.end as int),
{
    let t = s.push(x);
    assert forall|i: int| 0 <= i < t.len() implies #[trigger] t[i].start < t[i].end by {
        if i < s.len() {
            assert(t[i] == s[i]);
        }
    }
    assert forall|i: int| 0 <= i < t.len() - 1 implies #[trigger] t[i].end == t[i + 1].start by {
        if i < s.len() - 1 {
            assert(t[i] == s[i] && t[i + 1] == s[i + 1]);
        } else {
            assert(t[i] == s.last());
        }
    }
}

/// Appending an interval keeps every stop classified when the new one is.
proof fn lemma_classified_push(cfg: StateConfig, s: Seq<StateInterval>, x: StateInterval)
    requires
        stops_classified(cfg, s),
        x.state != MachineState::PlannedStop,
        x.state != MachineState::Running ==> x.state == classify(cfg, x.end - x.start),
    ensures
        stops_classified(cfg, s.push(x)),
{
    let t = s.push(x);
    assert forall|i: int| 0 <= i < t.len() implies (#[trigger] t[i]).state
        != MachineState::PlannedStop && (t[i].state != MachineState::Running ==> t[i].state
        == classify(cfg, t[i].end - t[i].start)) by {
        if i < s.len() {
            assert(t[i] == s[i]);
        }
    }
}

/// What holds of the walk state: the closed intervals tile from the first
/// point to the open running start, every stop among them is classified.
pub open spec fn scan_inv(cfg: StateConfig, first: i64, out: Seq<StateInterval>, rs: i64) -> bool {
    &&& first <= rs
    &&& (out.len() == 0 ==> rs == first)
    &&& (out.len() > 0 ==> tiles(out, first as int, rs as int))
    &&& stops_classified(cfg, out)
}

/// Closing the running span at `upto` keeps the walk state good.
proof fn lemma_flush_inv(cfg: StateConfig, first: i64, out: Seq<StateInterval>, rs: i64, upto: i64)
    requires
        scan_inv(cfg, first, out, rs),
        rs <= upto,
    ensures
        ({
            let f = flush_running(out, rs, upto);
            &&& f.len() == 0 ==> upto == first
            &&& f.len() > 0 ==> tiles(f, first as int, upto as int)
            &&& stops_classified(cfg, f)
        }),
{
    if upto > rs {
        let x = StateInterval { state: MachineState::Running, start: rs, end: upto };
        lemma_tiles_push(out, first as int, x);
        lemma_classified_push(cfg, out, x);
    }
}

/// One segment step keeps the walk state good.
proof fn lemma_seg_step_inv(
    cfg: StateConfig,
    first: i64,
    out: Seq<StateInterval>,
    rs: i64,
    a: i64,
    b: i64,
)
    requires
        scan_inv(cfg, first, out, rs),
        rs <= a <= b,
        cfg.micro_stop_after >= 0,
    ensures
        ({
            let (o2, rs2) = seg_step(cfg, out, rs, a, b);
            scan_inv(cfg, first, o2, rs2) && rs2 <= b
        }),
{
    if b - a > cfg.micro_stop_after {
        lemma_flush_inv(cfg, first, out, rs, a);
        let f = flush_running(out, rs, a);
        let x = StateInterval { state: classify(cfg, b - a), start: a, end: b };
        lemma_tiles_push(f, first as int, x);
        lemma_classified_push(cfg, f, x);
    }
}

/// The walk over ascending points keeps the walk state good, with the running
/// start never past the last point.
proof fn lemma_scan_inv(cfg: StateConfig, pts: Seq<i64>)
    requires
        pts.len() >= 1,
        cfg.micro_stop_after >= 0,
        forall|i: int| 0 <= i < pts.len() - 1 ==> pts[i] <= #[trigger] pts[i + 1],
    ensures
        ({
            let (out, rs) = scan_segments(cfg, pts);
            scan_inv(cfg, pts[0], out, rs) && rs <= pts.last()
        }),
    decreases pts.len(),
{
    if pts.len() > 1 {
        let t = pts.drop_last();
        assert forall|i: int| 0 <= i < t.len() - 1 implies t[i] <= #[trigger] t[i + 1] by {
            assert(pts[i] <= pts[i + 1]);
        }
        lemma_scan_inv(cfg, t);
        let (out0, rs0) = scan_segments(cfg, t);
        assert(t.last() == pts[pts.len() - 2]);
        let k = pts.len() - 2;
        assert(pts[k] <= pts[k + 1]);
        lemma_seg_step_inv(cfg, pts[0], out0, rs0, pts[pts.len() - 2], pts.last());
    }
}

/// For pulses inside a non-empty window and a non-negative running gap, the
/// computed timeline tiles the whole window: intervals are consecutive,
/// touching, of positive length, from the window start to the window end;
/// and every stop is classified by its own length, never as a planned stop.
pub proof fn lemma_timeline_tiles_window(
    cfg: StateConfig,
    pulses: Seq<i64>,
    window_start: i64,
    window_end: i64,
)
    requires
        window_start < window_end,
        cfg.micro_stop_after >= 0,
        forall|i: int| 0 <= i < pulses.len() ==> window_start <= #[trigger] pulses[i] <= window_end,
    ensures
        tiles(
            timeline(cfg, debounce_spec(pulses, cfg.debounce), window_start, window_end),
            window_start as int,
            window_end as int,
        ),
        stops_classified(
            cfg,
            timeline(cfg, debounce_spec(pulses, cfg.debounce), window_start, window_end),
        ),
{
    let kept = debounce_spec(pulses, cfg.debounce);
    lemma_debounce_subset(pulses, cfg.debounce);
    lemma_debounce_ascending(pulses, cfg.debounce);
    if kept.len() > 0 {
        let pts = seq![window_start] + kept + seq![window_end];
        assert forall|i: int| 0 <= i < kept.len() implies window_start <= #[trigger] kept[i]
            <= window_end by {
            assert(pulses.contains(kept[i]));
            let j = choose|j: int| 0 <= j < pulses.len() && pulses[j] == kept[i];
            assert(window_start <= pulses[j] <= window_end);
        }
        assert(pts.len() == kept.len() + 2);
        assert forall|i: int| 1 <= i <= kept.len() implies #[trigger] pts[i] == kept[i - 1] by {}
        assert(pts[0] == window_start);
        assert(pts[kept.len() as int + 1] == window_end);
        assert forall|i: int| 0 <= i < pts.len() - 1 implies pts[i] <= #[trigger] pts[i + 1] by {
            if i == 0 {
                assert(pts[1] == kept[0]);
                assert(window_start <= kept[0]);
            } else if i < kept.len() {
                assert(pts[i] == kept[i - 1] && pts[i + 1] == kept[i]);
                let m = i - 1;
                assert(kept[m] <= kept[m + 1]);
            } else {
                assert(pts[i] == kept[i - 1] && pts[i + 1] == window_end);
                assert(kept[i - 1] <= window_end);
            }
        }
        lemma_scan_inv(cfg, pts);
        let (out, rs) = scan_segments(cfg, pts);
        assert(pts[0] == window_start && pts.last() == window_end);
        lemma_flush_inv(cfg, window_start, out, rs, window_end);
    }
}

/// The overlay of planned stops, clipped to `[start, end]`: each planned
/// interval that overlaps the span, cut down to the overlap.
pub open spec fn clipped_cuts(planned: Seq<PlannedInterval>, start: i64, end: i64) -> Seq<
    (i64, i64),
>
    decreases planned.len(),
{
    if planned.len() == 0 {
        Seq::empty()
    } else {
        let rest = clipped_cuts(planned.drop_last(), start, end);
        let p = planned.last();
        let s = if p.start >= start {
            p.start
        } else {
            start
        };
        let e = if p.end <= end {
            p.end
        } else {
            end
        };
        if s < e {
            rest.push((s, e))
        } else {
            rest
        }
    }
}

/// One step of the overlay walk inside an interval of state `st`: the gap
/// before the cut keeps `st`; the cut itself becomes (or extends, when it
/// touches or overlaps the previous planned piece) a PlannedStop.
pub open spec fn overlay_step(
    out: Seq<StateInterval>,
    cursor: i64,
    st: MachineState,
    cut: (i64, i64),
) -> (Seq<StateInterval>, i64) {
    let (s, e) = cut;
    let out1 = if s > cursor {
        out.push(StateInterval { state: st, start: cursor, end: s })
    } else {
        out
    };
    let m = if s >= cursor {
        s
    } else {
        cursor
    };
    if out1.len() > 0 && out1.last().state == MachineState::PlannedStop && out1.last().end >= m {
        let last = out1.last();
        let new_end = if last.end >= e {
            last.end
        } else {
            e
        };
        (out1.drop_last().push(StateInterval { end: new_end, ..last }), new_end)
    } else {
        (out1.push(StateInterval { state: MachineState::PlannedStop, start: m, end: e }), e)
    }
}

/// The overlay walk over the sorted cuts of one interval.
pub open spec fn overlay_walk(
    out: Seq<StateInterval>,
    cursor: i64,
    st: MachineState,
    cuts: Seq<(i64, i64)>,
) -> (Seq<StateInterval>, i64)
    decreases cuts.len(),
{
    if cuts.len() == 0 {
        (out, cursor)
    } else {
        let (o, c) = overlay_walk(out, cursor, st, cuts.drop_last());
        overlay_step(o, c, st, cuts.last())
    }
}

/// One interval overlaid onto the output so far: its planned overlaps, in
/// start order, walked from its start; what remains after the last cut keeps
/// the interval's state.
pub open spec fn overlay_interval(
    out: Seq<StateInterval>,
    iv: StateInterval,
    planned: Seq<PlannedInterval>,
) -> Seq<StateInterval> {
    let cuts = sort_spans_spec(clipped_cuts(planned, iv.start, iv.end));
    let (o, cursor) = overlay_walk(out, iv.start, iv.state, cuts);
    if cursor < iv.end {
        o.push(StateInterval { state: iv.state, start: cursor, end: iv.end })
    } else {
        o
    }
}

/// The whole timeline with planned stops overlaid, interval by interval.
pub open spec fn overlay_all(intervals: Seq<StateInterval>, planned: Seq<PlannedInterval>) -> Seq<
    StateInterval,
>
    decreases intervals.len(),
{
    if intervals.len() == 0 {
        Seq::empty()
    } else {
        overlay_interval(overlay_all(intervals.drop_last(), planned), intervals.last(), planned)
    }
}

/// Collect the planned overlaps of `[start, end]`, clipped to it.
fn clip_planned(planned: &[PlannedInterval], start: i64, end: i64) -> (r: Vec<(i64, i64)>)
    ensures
        r@ == clipped_cuts(planned@, start, end),
{
    let mut cuts: Vec<(i64, i64)> = Vec::new();
    let mut j: usize = 0;
    while j < planned.len()
        invariant
            j <= planned.len(),
            cuts@ == clipped_cuts(planned@.subrange(0, j as int), start, end),
        decreases planned.len() - j,
    {
        let p = planned[j];
        assert(planned@.subrange(0, j + 1).drop_last() =~= planned@.subrange(0, j as int));
        let s = if p.start >= start {
            p.start
        } else {
            start
        };
        let e = if p.end <= end {
            p.end
        } else {
            end
        };
        if s < e {
            cuts.push((s, e));
        }
        j = j + 1;
    }
    assert(planned@.subrange(0, planned.len() as int) =~= planned@);
    cuts
}

/// Overlay planned stops onto a computed timeline: any sub-span of an interval
/// covered by a planned interval becomes a PlannedStop.
pub fn apply_planned_stops(intervals: &[StateInterval], planned: &[PlannedInterval]) -> (r: Vec<
    StateInterval,
>)
    ensures
        r@ == overlay_all(intervals@, planned@),
{
    let mut out: Vec<StateInterval> = Vec::new();
    let mut i: usize = 0;
    while i < intervals.len()
        invariant
            i <= intervals.len(),
            out@ == overlay_all(intervals@.subrange(0, i as int), planned@),
        decreases intervals.len() - i,
    {
        let iv = intervals[i];
        assert(intervals@.subrange(0, i + 1).drop_last() =~= intervals@.subrange(0, i as int));
        let cuts = sort_spans(clip_planned(planned, iv.start, iv.end));
        let ghost base = out@;
        let mut cursor = iv.start;
        let mut k: usize = 0;
        while k < cuts.len()
            invariant
                k <= cuts.len(),
                (out@, cursor) == overlay_walk(base, iv.start, iv.state, cuts@.subrange(0, k as int)),
            decreases cuts.len() - k,
        {
            let (s, e) = cuts[k];
            assert(cuts@.subrange(0, k + 1).drop_last() =~= cuts@.subrange(0, k as int));
            if s > cursor {
                out.push(StateInterval { state: iv.state, start: cursor, end: s });
            }
            let m = if s >= cursor {
                s
            } else {
                cursor
            };
            let n = out.len();
            if n > 0 && out[n - 1].state == MachineState::PlannedStop && out[n - 1].end >= m {
                let last = out[n - 1];
                let new_end = if last.end >= e {
                    last.end
                } else {
                    e
                };
                out.set(n - 1, StateInterval { end: new_end, ..last });
                cursor = new_end;
            } else {
                out.push(StateInterval { state: MachineState::PlannedStop, start: m, end: e });
                cursor = e;
            }
            k = k + 1;
        }
        assert(cuts@.subrange(0, cuts.len() as int) =~= cuts@);
        if cursor < iv.end {
            out.push(StateInterval { state: iv.state, start: cursor, end: iv.end });
        }
        i = i + 1;
    }
    assert(intervals@.subrange(0, intervals.len() as int) =~= intervals@);
    out
}

/// The boundaries strictly inside `(start, end)`, in input order.
pub open spec fn inner_boundaries(b: Seq<i64>, start: i64, end: i64) -> Seq<i64>
    decreases b.len(),
{
    if b.len() == 0 {
        b
    } else {
        let rest = inner_boundaries(b.drop_last(), start, end);
        if start < b.last() && b.last() < end {
            rest.push(b.last())
        } else {
            rest
        }
    }
}

/// `[start, end]` cut at each of the (sorted) cut points, all pieces keeping
/// `st`: `[start, c0], [c0, c1], ..., [ck, end]`.
pub open spec fn pieces(st: MachineState, start: i64, cuts: Seq<i64>, end: i64) -> Seq<
    StateInterval,
>
    decreases cuts.len(),
{
    if cuts.len() == 0 {
        seq![StateInterval { state: st, start, end }]
    } else {
        seq![StateInterval { state: st, start, end: cuts[0] }] + pieces(
            st,
            cuts[0],
            cuts.drop_first(),
            end,
        )
    }
}

/// Every interval split at the boundaries that fall strictly inside it.
pub open spec fn split_all(intervals: Seq<StateInterval>, boundaries: Seq<i64>) -> Seq<
    StateInterval,
>
    decreases intervals.len(),
{
    if intervals.len() == 0 {
        Seq::empty()
    } else {
        let iv = intervals.last();
        split_all(intervals.drop_last(), boundaries) + pieces(
            iv.state,
            iv.start,
            sort_i64_spec(inner_boundaries(boundaries, iv.start, iv.end)),
            iv.end,
        )
    }
}

/// Collect the boundaries strictly inside `(start, end)`.
fn inner_of(boundaries: &[i64], start: i64, end: i64) -> (r: Vec<i64>)
    ensures
        r@ == inner_boundaries(boundaries@, start, end),
{
    let mut v: Vec<i64> = Vec::new();
    let mut j: usize = 0;
    while j < boundaries.len()
        invariant
            j <= boundaries.len(),
            v@ == inner_boundaries(boundaries@.subrange(0, j as int), start, end),
        decreases boundaries.len() - j,
    {
        let b = boundaries[j];
        assert(boundaries@.subrange(0, j + 1).drop_last() =~= boundaries@.subrange(0, j as int));
        if start < b && b < end {
            v.push(b);
        }
        j = j + 1;
    }
    assert(boundaries@.subrange(0, boundaries.len() as int) =~= boundaries@);
    v
}

/// Split intervals at the given boundary timestamps (e.g. shift changes), so
/// no interval straddles a boundary. Boundaries outside an interval are
/// ignored.
pub fn split_at_boundaries(intervals: &[StateInterval], boundaries: &[i64]) -> (r: Vec<
    StateInterval,
>)
    ensures
        r@ == split_all(intervals@, boundaries@),
        forall|x: i64| boundaries@.contains(x) ==> not_straddled(r@, x),
        forall|i: int|
            0 <= i < r@.len() ==> exists|j: int|
                0 <= j < intervals@.len() && intervals@[j].start <= (#[trigger] r@[i]).start
                    && r@[i].end <= intervals@[j].end && r@[i].state == intervals@[j].state,
{
    proof {
        lemma_split_never_straddles(intervals@, boundaries@);
    }
    let mut out: Vec<StateInterval> = Vec::new();
    let mut i: usize = 0;
    while i < intervals.len()
        invariant
            i <= intervals.len(),
            out@ == split_all(intervals@.subrange(0, i as int), boundaries@),
        decreases intervals.len() - i,
    {
        let iv = intervals[i];
        assert(intervals@.subrange(0, i + 1).drop_last() =~= intervals@.subrange(0, i as int));
        let inner = sort_i64(inner_of(boundaries, iv.start, iv.end));
        let ghost base = out@;
        let ghost whole = pieces(iv.state, iv.start, inner@, iv.end);
        let mut cursor = iv.start;
        let mut k: usize = 0;
        assert(inner@.subrange(0, inner@.len() as int) =~= inner@);
        while k < inner.len()
            invariant
                k <= inner.len(),
                whole == pieces(iv.state, iv.start, inner@, iv.end),
                out@ + pieces(iv.state, cursor, inner@.subrange(k as int, inner@.len() as int), iv.end)
                    == base + whole,
            decreases inner.len() - k,
        {
            let b = inner[k];
            let ghost rest = inner@.subrange(k as int, inner@.len() as int);
            assert(rest[0] == b);
            assert(rest.drop_first() =~= inner@.subrange(k + 1, inner@.len() as int));
            let ghost o = out@;
            out.push(StateInterval { state: iv.state, start: cursor, end: b });
            assert(o + pieces(iv.state, cursor, rest, iv.end) =~= out@ + pieces(
                iv.state,
                b,
                rest.drop_first(),
                iv.end,
            ));
            cursor = b;
            k = k + 1;
        }
        let ghost o = out@;
        assert(inner@.subrange(k as int, inner@.len() as int) =~= Seq::<i64>::empty());
        out.push(StateInterval { state: iv.state, start: cursor, end: iv.end });
        assert(out@ =~= o + pieces(iv.state, cursor, Seq::<i64>::empty(), iv.end));
        i = i + 1;
    }
    assert(intervals@.subrange(0, intervals.len() as int) =~= intervals@);
    out
}

/// `s` runs from `from` to `to` without gaps or overlaps: pieces in order,
/// each ending where the next starts, none running backwards.
pub open spec fn chains(s: Seq<StateInterval>, from: int, to: int) -> bool {
    &&& s.len() > 0
    &&& s[0].start == from
    &&& s.last().end == to
    &&& forall|i: int| 0 <= i < s.len() ==> #[trigger] s[i].start <= s[i].end
    &&& forall|i: int| 0 <= i < s.len() - 1 ==> #[trigger] s[i].end == s[i + 1].start
}

/// No interval of `s` has `x` strictly inside it.
pub open spec fn not_straddled(s: Seq<StateInterval>, x: i64) -> bool {
    forall|i: int| 0 <= i < s.len() ==> !((#[trigger] s[i]).start < x && x < s[i].end)
}

proof fn lemma_pieces(st: MachineState, start: i64, cuts: Seq<i64>, end: i64)
    requires
        ascending(cuts),
        cuts.len() > 0 ==> start <= cuts[0] && cuts.last() <= end,
        start <= end,
    ensures
        chains(pieces(st, start, cuts, end), start as int, end as int),
        forall|i: int| 0 <= i < pieces(st, start, cuts, end).len() ==> (#[trigger] pieces(st, start, cuts, end)[i]).state == st,
        forall|x: i64| (x <= start || x >= end || cuts.contains(x)) ==> #[trigger] not_straddled(pieces(st, start, cuts, end), x),
    decreases cuts.len(),
{
    let p = pieces(st, start, cuts, end);
    if cuts.len() > 0 {
        let rest = cuts.drop_first();
        assert(ascending(rest));
        if rest.len() > 0 {
            assert(cuts[0] <= rest[0]);
            assert(rest.last() == cuts.last());
        }
        lemma_pieces(st, cuts[0], rest, end);
        let q = pieces(st, cuts[0], rest, end);
        let head = StateInterval { state: st, start, end: cuts[0] };
        assert(p == seq![head] + q);
        assert forall|i: int| 0 <= i < p.len() - 1 implies #[trigger] p[i].end == p[i + 1].start by {
            if i > 0 {
                assert(p[i] == q[i - 1] && p[i + 1] == q[i]);
            }
        }
        assert forall|i: int| 0 <= i < p.len() implies #[trigger] p[i].start <= p[i].end && p[i].state == st by {
            if i > 0 {
                assert(p[i] == q[i - 1]);
            }
        }
        assert forall|x: i64| (x <= start || x >= end || cuts.contains(x)) implies #[trigger] not_straddled(p, x) by {
            if cuts.contains(x) {
                let k = choose|k: int| 0 <= k < cuts.len() && cuts[k] == x;
                assert(cuts[0] <= cuts[k]);
                if k > 0 {
                    assert(rest[k - 1] == x);
                    assert(rest.contains(x));
                }
            }
            assert(x <= cuts[0] || x >= end || rest.contains(x));
            assert(not_straddled(q, x));
            assert forall|i: int| 0 <= i < p.len() implies !((#[trigger] p[i]).start < x && x < p[i].end) by {
                if i > 0 {
                    assert(p[i] == q[i - 1]);
                }
            }
        }
    } else {
        assert forall|x: i64| (x <= start || x >= end || cuts.contains(x)) implies #[trigger] not_straddled(p, x) by {
            assert(p[0] == StateInterval { state: st, start, end });
        }
    }
}

/// Splitting keeps the timeline: when the input runs without gaps from `from`
/// to `to`, so does the output; no output interval has a boundary strictly
/// inside it; and every output interval lies within an input interval and
/// keeps its state.
pub proof fn lemma_split_keeps_timeline(
    intervals: Seq<StateInterval>,
    boundaries: Seq<i64>,
    from: int,
    to: int,
)
    requires
        tiles(intervals, from, to),
    ensures
        chains(split_all(intervals, boundaries), from, to),
        forall|x: i64| boundaries.contains(x) ==> not_straddled(split_all(intervals, boundaries), x),
        forall|i: int|
            0 <= i < split_all(intervals, boundaries).len() ==> exists|j: int|
                0 <= j < intervals.len() && intervals[j].start <= (#[trigger] split_all(
                    intervals,
                    boundaries,
                )[i]).start && split_all(intervals, boundaries)[i].end <= intervals[j].end
                    && split_all(intervals, boundaries)[i].state == intervals[j].state,
{
    lemma_split_never_straddles(intervals, boundaries);
    lemma_split_chains(intervals, boundaries, from, to);
}

/// Splitting a tiling yields a chain over the same span.
proof fn lemma_split_chains(intervals: Seq<StateInterval>, boundaries: Seq<i64>, from: int, to: int)
    requires
        tiles(intervals, from, to),
    ensures
        chains(split_all(intervals, boundaries), from, to),
    decreases intervals.len(),
{
    let n = intervals.len();
    let iv = intervals.last();
    assert(iv == intervals[n - 1]);
    lemma_split_one(iv, boundaries);
    let cuts = sort_i64_spec(inner_boundaries(boundaries, iv.start, iv.end));
    let p = pieces(iv.state, iv.start, cuts, iv.end);
    let out = split_all(intervals, boundaries);
    if n == 1 {
        assert(split_all(intervals.drop_last(), boundaries) =~= Seq::<StateInterval>::empty());
        assert(out =~= p);
    } else {
        let init = intervals.drop_last();
        assert(tiles(init, from, intervals[n - 2].end as int)) by {
            assert forall|i: int| 0 <= i < init.len() implies #[trigger] init[i].start < init[i].end by {
                assert(init[i] == intervals[i]);
            }
            assert forall|i: int| 0 <= i < init.len() - 1 implies #[trigger] init[i].end == init[i + 1].start by {
                assert(init[i] == intervals[i] && init[i + 1] == intervals[i + 1]);
            }
        }
        lemma_split_chains(init, boundaries, from, intervals[n - 2].end as int);
        let a = split_all(init, boundaries);
        assert(out == a + p);
        assert(intervals[n - 2].end == iv.start);
        assert forall|i: int| 0 <= i < out.len() implies #[trigger] out[i].start <= out[i].end by {
            if i < a.len() {
                assert(out[i] == a[i]);
            } else {
                assert(out[i] == p[i - a.len()]);
            }
        }
        assert forall|i: int| 0 <= i < out.len() - 1 implies #[trigger] out[i].end == out[i + 1].start by {
            if i < a.len() - 1 {
                assert(out[i] == a[i] && out[i + 1] == a[i + 1]);
            } else if i == a.len() - 1 {
                assert(out[i] == a.last() && out[i + 1] == p[0]);
            } else {
                assert(out[i] == p[i - a.len()] && out[i + 1] == p[i + 1 - a.len()]);
            }
        }
    }
}

/// One interval split at the boundaries inside it: a chain over the interval
/// in its state, straddled by no boundary.
proof fn lemma_split_one(iv: StateInterval, boundaries: Seq<i64>)
    requires
        iv.start < iv.end,
    ensures
        chains(
            pieces(iv.state, iv.start, sort_i64_spec(inner_boundaries(boundaries, iv.start, iv.end)), iv.end),
            iv.start as int,
            iv.end as int,
        ),
        forall|i: int|
            0 <= i < pieces(iv.state, iv.start, sort_i64_spec(inner_boundaries(boundaries, iv.start, iv.end)), iv.end).len()
                ==> (#[trigger] pieces(iv.state, iv.start, sort_i64_spec(inner_boundaries(boundaries, iv.start, iv.end)), iv.end)[i]).state == iv.state,
        forall|x: i64| boundaries.contains(x) ==> not_straddled(
            pieces(iv.state, iv.start, sort_i64_spec(inner_boundaries(boundaries, iv.start, iv.end)), iv.end),
            x,
        ),
{
    let inner = inner_boundaries(boundaries, iv.start, iv.end);
    let cuts = sort_i64_spec(inner);
    lemma_inner_boundaries(boundaries, iv.start, iv.end);
    lemma_sort_i64(inner);
    assert forall|x: i64| inner.contains(x) <==> cuts.contains(x) by {
        broadcast use vstd::seq_lib::group_to_multiset_ensures;
        if inner.contains(x) {
            assert(inner.to_multiset().count(x) > 0);
            assert(cuts.to_multiset().count(x) > 0);
        }
        if cuts.contains(x) {
            assert(cuts.to_multiset().count(x) > 0);
            assert(inner.to_multiset().count(x) > 0);
        }
    }
    if cuts.len() > 0 {
        assert(cuts.contains(cuts[0]));
        assert(inner.contains(cuts[0]));
        assert(cuts.contains(cuts.last()));
        assert(inner.contains(cuts.last()));
    }
    lemma_pieces(iv.state, iv.start, cuts, iv.end);
    assert forall|x: i64| boundaries.contains(x) implies not_straddled(pieces(iv.state, iv.start, cuts, iv.end), x) by {
        if iv.start < x < iv.end {
            assert(inner.contains(x));
            assert(cuts.contains(x));
        }
        assert(x <= iv.start || x >= iv.end || cuts.contains(x));
    }
}

/// One interval, of any length, split at the boundaries inside it: no
/// boundary lies strictly inside a piece, and every piece lies within the
/// interval and keeps its state.
proof fn lemma_split_piece(iv: StateInterval, boundaries: Seq<i64>)
    ensures
        forall|x: i64| boundaries.contains(x) ==> not_straddled(
            pieces(iv.state, iv.start, sort_i64_spec(inner_boundaries(boundaries, iv.start, iv.end)), iv.end),
            x,
        ),
        forall|i: int|
            0 <= i < pieces(iv.state, iv.start, sort_i64_spec(inner_boundaries(boundaries, iv.start, iv.end)), iv.end).len()
                ==> iv.start <= (#[trigger] pieces(iv.state, iv.start, sort_i64_spec(inner_boundaries(boundaries, iv.start, iv.end)), iv.end)[i]).start
                && pieces(iv.state, iv.start, sort_i64_spec(inner_boundaries(boundaries, iv.start, iv.end)), iv.end)[i].end <= iv.end
                && pieces(iv.state, iv.start, sort_i64_spec(inner_boundaries(boundaries, iv.start, iv.end)), iv.end)[i].state == iv.state,
{
    let inner = inner_boundaries(boundaries, iv.start, iv.end);
    let cuts = sort_i64_spec(inner);
    let p = pieces(iv.state, iv.start, cuts, iv.end);
    if iv.start < iv.end {
        lemma_split_one(iv, boundaries);
        assert forall|i: int| 0 <= i < p.len() implies iv.start <= (#[trigger] p[i]).start
            && p[i].end <= iv.end && p[i].state == iv.state by {
            lemma_chain_within(p, iv.start as int, iv.end as int, i);
        }
    } else {
        lemma_inner_boundaries(boundaries, iv.start, iv.end);
        if inner.len() > 0 {
            assert(inner.contains(inner[0]));
        }
        lemma_sort_i64(inner);
        assert(cuts =~= Seq::<i64>::empty());
        assert(p =~= seq![StateInterval { state: iv.state, start: iv.start, end: iv.end }]);
        assert(p[0] == iv);
    }
}

/// Splitting never leaves a boundary inside an interval, whatever the input:
/// for any intervals (ordered or not, touching or not, even empty or
/// reversed), no output interval has a boundary strictly inside it, and every
/// output interval lies within an input interval and keeps its state.
pub proof fn lemma_split_never_straddles(intervals: Seq<StateInterval>, boundaries: Seq<i64>)
    ensures
        forall|x: i64| boundaries.contains(x) ==> not_straddled(split_all(intervals, boundaries), x),
        forall|i: int|
            0 <= i < split_all(intervals, boundaries).len() ==> exists|j: int|
                0 <= j < intervals.len() && intervals[j].start <= (#[trigger] split_all(
                    intervals,
                    boundaries,
                )[i]).start && split_all(intervals, boundaries)[i].end <= intervals[j].end
                    && split_all(intervals, boundaries)[i].state == intervals[j].state,
    decreases intervals.len(),
{
    if intervals.len() > 0 {
        let n = intervals.len();
        let init = intervals.drop_last();
        let iv = intervals.last();
        lemma_split_never_straddles(init, boundaries);
        lemma_split_piece(iv, boundaries);
        let a = split_all(init, boundaries);
        let p = pieces(iv.state, iv.start, sort_i64_spec(inner_boundaries(boundaries, iv.start, iv.end)), iv.end);
        let out = split_all(intervals, boundaries);
        assert(out == a + p);
        assert forall|x: i64| boundaries.contains(x) implies not_straddled(out, x) by {
            assert(not_straddled(a, x));
            assert(not_straddled(p, x));
            assert forall|i: int| 0 <= i < out.len() implies !((#[trigger] out[i]).start < x && x < out[i].end) by {
                if i < a.len() {
                    assert(out[i] == a[i]);
                } else {
                    assert(out[i] == p[i - a.len()]);
                }
            }
        }
        assert forall|i: int| 0 <= i < out.len() implies exists|j: int|
            0 <= j < intervals.len() && intervals[j].start <= (#[trigger] out[i]).start && out[i].end
                <= intervals[j].end && out[i].state == intervals[j].state by {
            if i < a.len() {
                assert(out[i] == a[i]);
                let j = choose|j: int|
                    0 <= j < init.len() && init[j].start <= (#[trigger] a[i]).start && a[i].end
                        <= init[j].end && a[i].state == init[j].state;
                assert(intervals[j] == init[j]);
            } else {
                let k = i - a.len();
                assert(out[i] == p[k]);
                assert(intervals[n - 1] == iv);
            }
        }
    }
}

/// Every piece of a chain from `from` to `to` lies within `[from, to]`.
proof fn lemma_chain_within(s: Seq<StateInterval>, from: int, to: int, k: int)
    requires
        chains(s, from, to),
        0 <= k < s.len(),
    ensures
        from <= s[k].start,
        s[k].end <= to,
{
    assert forall|i: int| 0 <= i < s.len() implies from <= #[trigger] s[i].start by {
        lemma_chain_start(s, from, i);
    }
    assert forall|i: int| 0 <= i < s.len() implies #[trigger] s[i].end <= to by {
        lemma_chain_end(s, to, i);
    }
}

proof fn lemma_chain_start(s: Seq<StateInterval>, from: int, i: int)
    requires
        s.len() > 0,
        s[0].start == from,
        forall|q: int| 0 <= q < s.len() ==> #[trigger] s[q].start <= s[q].end,
        forall|q: int| 0 <= q < s.len() - 1 ==> #[trigger] s[q].end == s[q + 1].start,
        0 <= i < s.len(),
    ensures
        from <= s[i].start,
    decreases i,
{
    if i > 0 {
        lemma_chain_start(s, from, i - 1);
        assert(s[i - 1].end == s[i].start);
    }
}

proof fn lemma_chain_end(s: Seq<StateInterval>, to: int, i: int)
    requires
        s.len() > 0,
        s.last().end == to,
        forall|q: int| 0 <= q < s.len() ==> #[trigger] s[q].start <= s[q].end,
        forall|q: int| 0 <= q < s.len() - 1 ==> #[trigger] s[q].end == s[q + 1].start,
        0 <= i < s.len(),
    ensures
        s[i].end <= to,
    decreases s.len() - i,
{
    if i < s.len() - 1 {
        lemma_chain_end(s, to, i + 1);
        assert(s[i].end == s[i + 1].start);
    }
}

/// The inner boundaries of `(start, end)` are exactly the boundaries strictly
/// inside it.
proof fn lemma_inner_boundaries(b: Seq<i64>, start: i64, end: i64)
    ensures
        forall|x: i64| #[trigger] inner_boundaries(b, start, end).contains(x) <==> (b.contains(x) && start < x && x < end),
    decreases b.len(),
{
    if b.len() > 0 {
        let init = b.drop_last();
        lemma_inner_boundaries(init, start, end);
        let rest = inner_boundaries(init, start, end);
        let r = inner_boundaries(b, start, end);
        assert forall|x: i64| r.contains(x) <==> (b.contains(x) && start < x && x < end) by {
            if r.contains(x) {
                let k = choose|k: int| 0 <= k < r.len() && r[k] == x;
                if start < b.last() && b.last() < end && k == r.len() - 1 {
                    assert(b[b.len() - 1] == x);
                } else {
                    assert(rest[k] == x);
                    assert(rest.contains(x));
                    assert(init.contains(x));
                    let m = choose|m: int| 0 <= m < init.len() && init[m] == x;
                    assert(b[m] == x);
                }
            }
            if b.contains(x) && start < x && x < end {
                let m = choose|m: int| 0 <= m < b.len() && b[m] == x;
                if m == b.len() - 1 {
                    assert(r[r.len() - 1] == x);
                } else {
                    assert(init[m] == x);
                    assert(init.contains(x));
                    assert(rest.contains(x));
                    let k = choose|k: int| 0 <= k < rest.len() && rest[k] == x;
                    assert(r[k] == x);
                }
            }
        }
    }
}

/// The stop intervals that become downtime events: every stop except planned
/// ones, in timeline order.
pub open spec fn downtime_spans(intervals: Seq<StateInterval>) -> Seq<StateInterval>
    decreases intervals.len(),
{
    if intervals.len() == 0 {
        intervals
    } else {
        let rest = downtime_spans(intervals.drop_last());
        let iv = intervals.last();
        if spec_is_stop(iv.state) && iv.state != MachineState::PlannedStop {
            rest.push(iv)
        } else {
            rest
        }
    }
}

/// Downtime is every micro-stop and every down interval of the timeline,
/// each exactly once and in timeline order, whatever its neighbours: running
/// and planned-stop intervals yield nothing, and adjacent stops (such as one
/// split at a shift boundary) each yield their own event.
pub proof fn lemma_downtime_is_every_unplanned_stop(intervals: Seq<StateInterval>)
    ensures
        downtime_spans(intervals) == intervals.filter(
            |iv: StateInterval| iv.state == MachineState::MicroStop || iv.state == MachineState::Down,
        ),
    decreases intervals.len(),
{
    reveal(Seq::filter);
    if intervals.len() > 0 {
        lemma_downtime_is_every_unplanned_stop(intervals.drop_last());
    }
}

/// The view of a downtime event without its id.
pub open spec fn event_span(e: DowntimeEvent) -> StateInterval {
    StateInterval { state: e.state, start: e.start, end: e.end }
}

/// Derive an unclassified downtime event, with a fresh id, for every stop
/// interval that is not a planned stop.
pub fn downtime_events(intervals: &[StateInterval]) -> (r: Vec<DowntimeEvent>)
    ensures
        r@.map_values(|e: DowntimeEvent| event_span(e)) == downtime_spans(intervals@),
        r@.map_values(|e: DowntimeEvent| event_span(e)) == intervals@.filter(
            |iv: StateInterval| iv.state == MachineState::MicroStop || iv.state == MachineState::Down,
        ),
        forall|i: int| 0 <= i < r@.len() ==> is_ulid_text(#[trigger] r@[i].id@),
{
    proof {
        lemma_downtime_is_every_unplanned_stop(intervals@);
    }
    let mut out: Vec<DowntimeEvent> = Vec::new();
    let mut i: usize = 0;
    while i < intervals.len()
        invariant
            i <= intervals.len(),
            out@.map_values(|e: DowntimeEvent| event_span(e)) == downtime_spans(
                intervals@.subrange(0, i as int),
            ),
            forall|j: int| 0 <= j < out@.len() ==> is_ulid_text(#[trigger] out@[j].id@),
        decreases intervals.len() - i,
    {
        let iv = intervals[i];
        assert(intervals@.subrange(0, i + 1).drop_last() =~= intervals@.subrange(0, i as int));
        let ghost before = out@;
        if iv.state.is_stop() && !matches!(iv.state, MachineState::PlannedStop) {
            out.push(DowntimeEvent { id: new_id(), state: iv.state, start: iv.start, end: iv.end });
            assert(out@.map_values(|e: DowntimeEvent| event_span(e)) =~= before.map_values(
                |e: DowntimeEvent| event_span(e),
            ).push(iv));
        }
        i = i + 1;
    }
    assert(intervals@.subrange(0, intervals.len() as int) =~= intervals@);
    out
}

} // verus!
