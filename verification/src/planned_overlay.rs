//! What overlaying planned stops does to a timeline: it still runs without
//! gaps over the same window, every instant inside a planned interval is a
//! planned stop, and every other instant keeps the state it had.

use vstd::prelude::*;
use crate::sort::{lemma_sort_spans, sort_spans_spec, starts_ascending};
use crate::state_machine::{
    clipped_cuts, overlay_all, overlay_interval, overlay_step, overlay_walk, tiles, MachineState,
    PlannedInterval, StateInterval,
};

verus! {

/// Instant `t` lies inside one of the planned intervals.
pub open spec fn planned_at(planned: Seq<PlannedInterval>, t: int) -> bool {
    exists|k: int| 0 <= k < planned.len() && (#[trigger] planned[k]).start <= t && t < planned[k].end
}

/// Instant `t` lies inside an interval of `s` whose state is `st`.
pub open spec fn state_at_is(s: Seq<StateInterval>, t: int, st: MachineState) -> bool {
    exists|i: int| 0 <= i < s.len() && (#[trigger] s[i]).start <= t && t < s[i].end && s[i].state == st
}

/// Instant `t` lies inside one of the spans.
pub open spec fn cut_at(cuts: Seq<(i64, i64)>, t: int) -> bool {
    exists|k: int| 0 <= k < cuts.len() && (#[trigger] cuts[k]).0 <= t && t < cuts[k].1
}

/// `o2` is `o` with its last interval possibly stretched to a later end (same
/// start and state) and more intervals appended.
pub open spec fn grows(o: Seq<StateInterval>, o2: Seq<StateInterval>) -> bool {
    &&& o2.len() >= o.len()
    &&& forall|i: int| 0 <= i < o.len() - 1 ==> #[trigger] o2[i] == o[i]
    &&& o.len() > 0 ==> (o2[o.len() - 1].start == o[o.len() - 1].start && o2[o.len() - 1].state
        == o[o.len() - 1].state && o2[o.len() - 1].end >= o[o.len() - 1].end)
}

proof fn lemma_grows_keeps(o: Seq<StateInterval>, o2: Seq<StateInterval>, t: int, st: MachineState)
    requires
        grows(o, o2),
        state_at_is(o, t, st),
    ensures
        state_at_is(o2, t, st),
{
    let i = choose|i: int| 0 <= i < o.len() && (#[trigger] o[i]).start <= t && t < o[i].end && o[i].state == st;
    if i < o.len() - 1 {
        assert(o2[i] == o[i]);
    } else {
        assert(o2[i].start <= t && t < o2[i].end && o2[i].state == st);
    }
}

proof fn lemma_grows_trans(a: Seq<StateInterval>, b: Seq<StateInterval>, c: Seq<StateInterval>)
    requires
        grows(a, b),
        grows(b, c),
    ensures
        grows(a, c),
{
    assert forall|i: int| 0 <= i < a.len() - 1 implies #[trigger] c[i] == a[i] by {
        assert(b[i] == a[i]);
        if i < b.len() - 1 {
            assert(c[i] == b[i]);
        }
    }
    if a.len() > 0 {
        let k = a.len() - 1;
        if k < b.len() - 1 {
            assert(c[k] == b[k]);
        }
    }
}

proof fn lemma_grows_refl(a: Seq<StateInterval>)
    ensures
        grows(a, a),
{
}

/// The clipped overlaps of `[a, b]` lie inside it and cover exactly its
/// planned instants.
proof fn lemma_clip(planned: Seq<PlannedInterval>, a: i64, b: i64)
    ensures
        forall|k: int|
            0 <= k < clipped_cuts(planned, a, b).len() ==> a <= (#[trigger] clipped_cuts(planned, a, b)[k]).0
                && clipped_cuts(planned, a, b)[k].0 < clipped_cuts(planned, a, b)[k].1
                && clipped_cuts(planned, a, b)[k].1 <= b,
        forall|t: int| a <= t < b ==> (planned_at(planned, t) <==> cut_at(clipped_cuts(planned, a, b), t)),
    decreases planned.len(),
{
    if planned.len() > 0 {
        let init = planned.drop_last();
        lemma_clip(init, a, b);
        let rest = clipped_cuts(init, a, b);
        let c = clipped_cuts(planned, a, b);
        let p = planned.last();
        assert forall|t: int| a <= t < b implies (planned_at(planned, t) <==> cut_at(c, t)) by {
            if planned_at(planned, t) {
                let k = choose|k: int| 0 <= k < planned.len() && (#[trigger] planned[k]).start <= t && t < planned[k].end;
                if k == planned.len() - 1 {
                    assert(c[c.len() - 1].0 <= t && t < c[c.len() - 1].1);
                } else {
                    assert(init[k] == planned[k]);
                    assert(planned_at(init, t));
                    assert(cut_at(rest, t));
                    let q = choose|q: int| 0 <= q < rest.len() && (#[trigger] rest[q]).0 <= t && t < rest[q].1;
                    assert(c[q] == rest[q]);
                }
            }
            if cut_at(c, t) {
                let q = choose|q: int| 0 <= q < c.len() && (#[trigger] c[q]).0 <= t && t < c[q].1;
                if q < rest.len() {
                    assert(c[q] == rest[q]);
                    assert(cut_at(rest, t));
                    assert(planned_at(init, t));
                    let k = choose|k: int| 0 <= k < init.len() && (#[trigger] init[k]).start <= t && t < init[k].end;
                    assert(planned[k] == init[k]);
                } else {
                    assert(planned[planned.len() - 1] == p);
                }
            }
        }
    }
}

/// Sorting the spans keeps what they cover and where they lie.
proof fn lemma_sorted_cuts(c: Seq<(i64, i64)>, a: i64, b: i64)
    requires
        forall|k: int| 0 <= k < c.len() ==> a <= (#[trigger] c[k]).0 && c[k].0 < c[k].1 && c[k].1 <= b,
    ensures
        starts_ascending(sort_spans_spec(c)),
        forall|k: int|
            0 <= k < sort_spans_spec(c).len() ==> a <= (#[trigger] sort_spans_spec(c)[k]).0
                && sort_spans_spec(c)[k].0 < sort_spans_spec(c)[k].1 && sort_spans_spec(c)[k].1 <= b,
        forall|t: int| cut_at(c, t) <==> cut_at(sort_spans_spec(c), t),
{
    broadcast use vstd::seq_lib::group_to_multiset_ensures;
    lemma_sort_spans(c);
    let s = sort_spans_spec(c);
    assert forall|k: int| 0 <= k < s.len() implies a <= (#[trigger] s[k]).0 && s[k].0 < s[k].1 && s[k].1 <= b by {
        assert(s.to_multiset().count(s[k]) > 0);
        assert(c.to_multiset().count(s[k]) > 0);
        assert(c.contains(s[k]));
        let q = choose|q: int| 0 <= q < c.len() && c[q] == s[k];
    }
    assert forall|t: int| cut_at(c, t) <==> cut_at(s, t) by {
        if cut_at(c, t) {
            let q = choose|q: int| 0 <= q < c.len() && (#[trigger] c[q]).0 <= t && t < c[q].1;
            assert(c.to_multiset().count(c[q]) > 0);
            assert(s.to_multiset().count(c[q]) > 0);
            assert(s.contains(c[q]));
            let k = choose|k: int| 0 <= k < s.len() && s[k] == c[q];
            assert(s[k].0 <= t && t < s[k].1);
        }
        if cut_at(s, t) {
            let k = choose|k: int| 0 <= k < s.len() && (#[trigger] s[k]).0 <= t && t < s[k].1;
            assert(s.to_multiset().count(s[k]) > 0);
            assert(c.to_multiset().count(s[k]) > 0);
            assert(c.contains(s[k]));
            let q = choose|q: int| 0 <= q < c.len() && c[q] == s[k];
            assert(c[q].0 <= t && t < c[q].1);
        }
    }
}

/// What the walk over an interval's sorted cuts has built once it reaches
/// `cur`: a gapless timeline from `from`, the cut instants planned, the other
/// instants of the interval in its state.
pub open spec fn walk_inv(
    base: Seq<StateInterval>,
    iv: StateInterval,
    cuts: Seq<(i64, i64)>,
    from: int,
    o: Seq<StateInterval>,
    cur: i64,
) -> bool {
    &&& iv.start <= cur <= iv.end
    &&& cuts.len() == 0 ==> cur == iv.start && o == base
    &&& o.len() == 0 ==> cur == from && cuts.len() == 0
    &&& o.len() > 0 ==> tiles(o, from, cur as int)
    &&& grows(base, o)
    &&& cuts.len() > 0 ==> (o.len() > 0 && o.last().state == MachineState::PlannedStop && o.last().end == cur
        && o.last().start <= cuts.last().0)
    &&& forall|q: int| 0 <= q < cuts.len() ==> (#[trigger] cuts[q]).1 <= cur
    &&& forall|t: int|
        iv.start <= t < cur && cut_at(cuts, t) ==> #[trigger] state_at_is(o, t, MachineState::PlannedStop)
    &&& forall|t: int| iv.start <= t < cur && !cut_at(cuts, t) ==> #[trigger] state_at_is(o, t, iv.state)
}

proof fn lemma_walk(base: Seq<StateInterval>, iv: StateInterval, cuts: Seq<(i64, i64)>, from: int)
    requires
        iv.start < iv.end,
        starts_ascending(cuts),
        forall|k: int| 0 <= k < cuts.len() ==> iv.start <= (#[trigger] cuts[k]).0 && cuts[k].0 < cuts[k].1 && cuts[k].1 <= iv.end,
        base.len() == 0 ==> from == iv.start,
        base.len() > 0 ==> tiles(base, from, iv.start as int),
    ensures
        walk_inv(
            base,
            iv,
            cuts,
            from,
            overlay_walk(base, iv.start, iv.state, cuts).0,
            overlay_walk(base, iv.start, iv.state, cuts).1,
        ),
    decreases cuts.len(),
{
    if cuts.len() == 0 {
        lemma_grows_refl(base);
    } else {
        let init = cuts.drop_last();
        assert(starts_ascending(init));
        assert forall|k: int| 0 <= k < init.len() implies iv.start <= (#[trigger] init[k]).0 && init[k].0 < init[k].1 && init[k].1 <= iv.end by {
            assert(init[k] == cuts[k]);
        }
        lemma_walk(base, iv, init, from);
        let (o, cur) = overlay_walk(base, iv.start, iv.state, init);
        let cut = cuts.last();
        assert(cut == cuts[cuts.len() - 1]);
        lemma_step(base, iv, init, cut, from, o, cur);
        assert(init.push(cut) =~= cuts);
    }
}

#[verifier::rlimit(60)]
proof fn lemma_step(
    base: Seq<StateInterval>,
    iv: StateInterval,
    init: Seq<(i64, i64)>,
    cut: (i64, i64),
    from: int,
    o: Seq<StateInterval>,
    cur: i64,
)
    requires
        iv.start < iv.end,
        walk_inv(base, iv, init, from, o, cur),
        iv.start <= cut.0 < cut.1 <= iv.end,
        forall|k: int| 0 <= k < init.len() ==> (#[trigger] init[k]).0 <= cut.0,
        base.len() == 0 ==> from == iv.start,
        base.len() > 0 ==> tiles(base, from, iv.start as int),
    ensures
        walk_inv(
            base,
            iv,
            init.push(cut),
            from,
            overlay_step(o, cur, iv.state, cut).0,
            overlay_step(o, cur, iv.state, cut).1,
        ),
{
    let cuts = init.push(cut);
    let st = iv.state;
    let (s, e) = cut;
    let out1 = if s > cur {
        o.push(StateInterval { state: st, start: cur, end: s })
    } else {
        o
    };
    let m = if s >= cur {
        s
    } else {
        cur
    };
    let (o2, cur2) = overlay_step(o, cur, st, cut);
    let merge = out1.len() > 0 && out1.last().state == MachineState::PlannedStop && out1.last().end >= m;
    // Where the step leaves things.
    assert(grows(o, out1)) by {
        if s > cur {
            assert forall|i: int| 0 <= i < o.len() - 1 implies #[trigger] out1[i] == o[i] by {}
            if o.len() > 0 {
                assert(out1[o.len() - 1] == o[o.len() - 1]);
            }
        }
    }
    assert(grows(out1, o2)) by {
        if merge {
            assert forall|i: int| 0 <= i < out1.len() - 1 implies #[trigger] o2[i] == out1[i] by {}
        } else {
            assert forall|i: int| 0 <= i < out1.len() - 1 implies #[trigger] o2[i] == out1[i] by {}
            if out1.len() > 0 {
                assert(o2[out1.len() - 1] == out1[out1.len() - 1]);
            }
        }
    }
    lemma_grows_trans(o, out1, o2);
    lemma_grows_trans(base, o, o2);
    // A later cut never starts before an earlier one, so when `s <= cur` a
    // merge happens: either into the last planned piece of this interval, or
    // (first cut, starting at the interval's start) into a planned piece
    // that ends there.
    if init.len() > 0 {
        assert(init.last() == init[init.len() - 1]);
        assert(init.last().0 <= s);
    }
    if s <= cur && !merge {
        assert(init.len() == 0);
        assert(cur == iv.start);
        assert(s == cur);
    }
    // The result is a gapless timeline from `from` to `cur2`.
    assert(cur2 >= cur && cur2 >= e && cur2 <= iv.end);
    assert(o2.len() > 0);
    assert(o2.last().state == MachineState::PlannedStop && o2.last().end == cur2 && o2.last().start <= s);
    assert(tiles(o2, from, cur2 as int)) by {
        if s > cur {
            if o.len() > 0 {
                assert(tiles(o, from, cur as int));
            }
            if merge {
                assert(st == MachineState::PlannedStop);
                let g = StateInterval { state: st, start: cur, end: s };
                assert(o2 == o.push(StateInterval { end: cur2, ..g }));
                assert forall|i: int| 0 <= i < o2.len() implies #[trigger] o2[i].start < o2[i].end by {
                    if i < o.len() {
                        assert(o2[i] == o[i]);
                    }
                }
                assert forall|i: int| 0 <= i < o2.len() - 1 implies #[trigger] o2[i].end == o2[i + 1].start by {
                    if i < o.len() - 1 {
                        assert(o2[i] == o[i] && o2[i + 1] == o[i + 1]);
                    } else {
                        assert(o2[i] == o[i]);
                        assert(o.last().end == cur);
                    }
                }
                if o.len() == 0 {
                    assert(cur == from);
                }
            } else {
                assert(o2 == o.push(StateInterval { state: st, start: cur, end: s }).push(
                    StateInterval { state: MachineState::PlannedStop, start: s, end: e },
                ));
                assert forall|i: int| 0 <= i < o2.len() implies #[trigger] o2[i].start < o2[i].end by {
                    if i < o.len() {
                        assert(o2[i] == o[i]);
                    }
                }
                assert forall|i: int| 0 <= i < o2.len() - 1 implies #[trigger] o2[i].end == o2[i + 1].start by {
                    if i < o.len() - 1 {
                        assert(o2[i] == o[i] && o2[i + 1] == o[i + 1]);
                    } else if i == o.len() - 1 {
                        assert(o2[i] == o[i]);
                        assert(o.last().end == cur);
                    }
                }
                if o.len() == 0 {
                    assert(cur == from);
                }
            }
        } else {
            if merge {
                let last = o.last();
                assert(o2 == o.drop_last().push(StateInterval { end: cur2, ..last }));
                assert(last.end == cur) by {
                    if o.len() == 0 {
                    } else {
                        assert(tiles(o, from, cur as int));
                    }
                }
                assert forall|i: int| 0 <= i < o2.len() implies #[trigger] o2[i].start < o2[i].end by {
                    if i < o.len() - 1 {
                        assert(o2[i] == o[i]);
                    } else {
                        assert(o[o.len() - 1].start < o[o.len() - 1].end);
                    }
                }
                assert forall|i: int| 0 <= i < o2.len() - 1 implies #[trigger] o2[i].end == o2[i + 1].start by {
                    assert(o2[i] == o[i]);
                    if i + 1 < o.len() - 1 {
                        assert(o2[i + 1] == o[i + 1]);
                    } else {
                        assert(o2[i + 1].start == o[i + 1].start);
                    }
                }
                assert(o2[0].start == o[0].start);
            } else {
                assert(o2 == o.push(StateInterval { state: MachineState::PlannedStop, start: s, end: e }));
                assert(o.len() == 0 || tiles(o, from, cur as int));
                assert forall|i: int| 0 <= i < o2.len() implies #[trigger] o2[i].start < o2[i].end by {
                    if i < o.len() {
                        assert(o2[i] == o[i]);
                    }
                }
                assert forall|i: int| 0 <= i < o2.len() - 1 implies #[trigger] o2[i].end == o2[i + 1].start by {
                    if i < o.len() - 1 {
                        assert(o2[i] == o[i] && o2[i + 1] == o[i + 1]);
                    } else {
                        assert(o2[i] == o[i]);
                    }
                }
            }
        }
    }
    // Every processed cut ends by `cur2`.
    assert forall|q: int| 0 <= q < cuts.len() implies (#[trigger] cuts[q]).1 <= cur2 by {
        if q < init.len() {
            assert(cuts[q] == init[q]);
        }
    }
    // Instants covered by a processed cut are planned stops.
    assert forall|t: int| iv.start <= t < cur2 && cut_at(cuts, t) implies #[trigger] state_at_is(o2, t, MachineState::PlannedStop) by {
        let q = choose|q: int| 0 <= q < cuts.len() && (#[trigger] cuts[q]).0 <= t && t < cuts[q].1;
        if t < cur && q < init.len() {
            assert(cuts[q] == init[q]);
            assert(cut_at(init, t));
            assert(state_at_is(o, t, MachineState::PlannedStop));
            lemma_grows_keeps(o, o2, t, MachineState::PlannedStop);
        } else {
            if q < init.len() {
                assert(cuts[q] == init[q]);
                assert(init[q].1 <= cur);
            }
            assert(q == init.len() || t >= cur);
            assert(s <= t) by {
                if q < init.len() {
                    assert(init[q].1 <= cur);
                } else {
                    assert(cuts[q] == cut);
                }
            }
            let w = o2.len() - 1;
            assert(o2[w].start <= s);
            assert(t < e || t < cur2) by {
                if q == init.len() {
                    assert(cuts[q] == cut);
                } else {
                    assert(init[q].1 <= cur);
                }
            }
            assert(o2[w].start <= t && t < o2[w].end && o2[w].state == MachineState::PlannedStop);
        }
    }
    // Instants covered by no processed cut keep the interval's state.
    assert forall|t: int| iv.start <= t < cur2 && !cut_at(cuts, t) implies #[trigger] state_at_is(o2, t, st) by {
        assert(!cut_at(init, t)) by {
            if cut_at(init, t) {
                let q = choose|q: int| 0 <= q < init.len() && (#[trigger] init[q]).0 <= t && t < init[q].1;
                assert(cuts[q] == init[q]);
            }
        }
        assert(!(s <= t && t < e)) by {
            if s <= t && t < e {
                assert(cuts[init.len() as int] == cut);
            }
        }
        if t < cur {
            assert(state_at_is(o, t, st));
            lemma_grows_keeps(o, o2, t, st);
        } else {
            assert(s > cur);
            assert(t < s);
            let g = o.len() as int;
            assert(out1[g] == StateInterval { state: st, start: cur, end: s });
            assert(o2[g].start == cur && o2[g].end >= s && o2[g].state == st);
        }
    }
}

/// Overlaying one interval keeps the overlay-so-far invariant and extends it
/// to the interval's end.
pub open spec fn overlay_inv(
    intervals: Seq<StateInterval>,
    n: int,
    planned: Seq<PlannedInterval>,
    from: int,
    out: Seq<StateInterval>,
) -> bool {
    &&& n > 0 ==> tiles(out, from, intervals[n - 1].end as int)
    &&& n == 0 ==> out.len() == 0
    &&& forall|t: int|
        from <= t && (n > 0 && t < intervals[n - 1].end) && planned_at(planned, t) ==> #[trigger] state_at_is(
            out,
            t,
            MachineState::PlannedStop,
        )
    &&& forall|j: int, t: int|
        0 <= j < n && intervals[j].start <= t < intervals[j].end && !planned_at(planned, t)
            ==> #[trigger] state_at_is(out, t, #[trigger] intervals[j].state)
}

proof fn lemma_overlay_interval(
    intervals: Seq<StateInterval>,
    n: int,
    planned: Seq<PlannedInterval>,
    from: int,
    out: Seq<StateInterval>,
)
    requires
        0 <= n < intervals.len(),
        tiles(intervals, from, intervals.last().end as int),
        overlay_inv(intervals, n, planned, from, out),
    ensures
        overlay_inv(intervals, n + 1, planned, from, overlay_interval(out, intervals[n], planned)),
{
    let iv = intervals[n];
    assert(iv.start < iv.end);
    if n > 0 {
        assert(intervals[n - 1].end == iv.start);
    }
    let clipped = clipped_cuts(planned, iv.start, iv.end);
    lemma_clip(planned, iv.start, iv.end);
    lemma_sorted_cuts(clipped, iv.start, iv.end);
    let cuts = sort_spans_spec(clipped);
    lemma_walk(out, iv, cuts, from);
    let (o, cur) = overlay_walk(out, iv.start, iv.state, cuts);
    let r = overlay_interval(out, iv, planned);
    assert(grows(o, r)) by {
        if cur < iv.end {
            assert forall|i: int| 0 <= i < o.len() - 1 implies #[trigger] r[i] == o[i] by {}
            if o.len() > 0 {
                assert(r[o.len() - 1] == o[o.len() - 1]);
            }
        }
    }
    lemma_grows_trans(out, o, r);
    // Gapless up to the interval's end.
    assert(tiles(r, from, iv.end as int)) by {
        if cur < iv.end {
            assert(r == o.push(StateInterval { state: iv.state, start: cur, end: iv.end }));
            assert forall|i: int| 0 <= i < r.len() implies #[trigger] r[i].start < r[i].end by {
                if i < o.len() {
                    assert(r[i] == o[i]);
                }
            }
            assert forall|i: int| 0 <= i < r.len() - 1 implies #[trigger] r[i].end == r[i + 1].start by {
                if i < o.len() - 1 {
                    assert(r[i] == o[i] && r[i + 1] == o[i + 1]);
                } else {
                    assert(r[i] == o[i]);
                }
            }
            if o.len() == 0 {
                assert(cur == from);
            }
        } else {
            assert(r == o);
            assert(cur == iv.end);
            if o.len() == 0 {
                assert(cur == from);
                assert(false);
            }
        }
    }
    // Planned instants.
    assert forall|t: int|
        from <= t && t < iv.end && planned_at(planned, t) implies #[trigger] state_at_is(r, t, MachineState::PlannedStop) by {
        if t < iv.start {
            assert(n > 0);
            assert(state_at_is(out, t, MachineState::PlannedStop));
            lemma_grows_keeps(out, r, t, MachineState::PlannedStop);
        } else {
            assert(cut_at(clipped, t));
            assert(cut_at(cuts, t));
            if t >= cur {
                let q = choose|q: int| 0 <= q < cuts.len() && (#[trigger] cuts[q]).0 <= t && t < cuts[q].1;
                assert(cuts[q].1 <= cur);
            }
            assert(state_at_is(o, t, MachineState::PlannedStop));
            lemma_grows_keeps(o, r, t, MachineState::PlannedStop);
        }
    }
    // Other instants keep their interval's state.
    assert forall|j: int, t: int|
        0 <= j < n + 1 && intervals[j].start <= t < intervals[j].end && !planned_at(planned, t)
            implies #[trigger] state_at_is(r, t, #[trigger] intervals[j].state) by {
        if j < n {
            assert(state_at_is(out, t, intervals[j].state));
            lemma_grows_keeps(out, r, t, intervals[j].state);
        } else {
            assert(!cut_at(clipped, t));
            assert(!cut_at(cuts, t));
            if t < cur {
                assert(state_at_is(o, t, iv.state));
                lemma_grows_keeps(o, r, t, iv.state);
            } else {
                let w = r.len() - 1;
                assert(r[w] == StateInterval { state: iv.state, start: cur, end: iv.end });
                assert(r[w].start <= t && t < r[w].end);
            }
        }
    }
}

proof fn lemma_overlay_prefix(
    intervals: Seq<StateInterval>,
    n: int,
    planned: Seq<PlannedInterval>,
    from: int,
)
    requires
        0 <= n <= intervals.len(),
        intervals.len() > 0,
        tiles(intervals, from, intervals.last().end as int),
    ensures
        overlay_inv(intervals, n, planned, from, overlay_all(intervals.subrange(0, n), planned)),
    decreases n,
{
    if n == 0 {
        assert(intervals.subrange(0, 0) =~= Seq::<StateInterval>::empty());
    } else {
        lemma_overlay_prefix(intervals, n - 1, planned, from);
        let pre = intervals.subrange(0, n);
        assert(pre.drop_last() =~= intervals.subrange(0, n - 1));
        assert(pre.last() == intervals[n - 1]);
        lemma_overlay_interval(intervals, n - 1, planned, from, overlay_all(intervals.subrange(0, n - 1), planned));
    }
}

/// Overlaying planned stops onto a timeline that runs without gaps from
/// `from` to `to` gives a timeline over the same window, in which every
/// instant inside a planned interval is a planned stop and every other
/// instant keeps the state it had.
pub proof fn lemma_planned_overlay(
    intervals: Seq<StateInterval>,
    planned: Seq<PlannedInterval>,
    from: int,
    to: int,
)
    requires
        tiles(intervals, from, to),
    ensures
        tiles(overlay_all(intervals, planned), from, to),
        forall|t: int|
            from <= t < to && planned_at(planned, t) ==> state_at_is(
                overlay_all(intervals, planned),
                t,
                MachineState::PlannedStop,
            ),
        forall|j: int, t: int|
            0 <= j < intervals.len() && intervals[j].start <= t < intervals[j].end && !planned_at(
                planned,
                t,
            ) ==> #[trigger] state_at_is(overlay_all(intervals, planned), t, #[trigger] intervals[j].state),
{
    lemma_overlay_prefix(intervals, intervals.len() as int, planned, from);
    assert(intervals.subrange(0, intervals.len() as int) =~= intervals);
}

} // verus!
