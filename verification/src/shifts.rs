//! Shift windows: the per-shift slices of a reporting window over which OEE is
//! broken down. Instants are microseconds since the Unix epoch (UTC); a shift
//! is given by its start and end time of day.

use vstd::prelude::*;

verus! {

/// Microseconds in a day.
pub const DAY_MICROS: i64 = 86_400_000_000i64;

/// A shift of a site: its name and its start and end as microseconds after
/// midnight. An end at or before the start is an overnight shift.
#[derive(Debug, Clone)]
pub struct ShiftDef {
    pub name: String,
    pub start_of_day: i64,
    pub end_of_day: i64,
}

/// One shift occurrence, clamped to the reporting window.
#[derive(Debug, Clone)]
pub struct ShiftWindow {
    pub name: String,
    pub start: i64,
    pub end: i64,
}

/// Midnight (UTC) of the day holding instant `t`.
pub open spec fn day_of(t: int) -> int {
    t - t % (DAY_MICROS as int)
}

/// The occurrence of shift `s` on the day starting at `day`, clamped to
/// `[start, end)`, when that slice is not empty.
pub open spec fn shift_slice(day: int, s: ShiftDef, start: int, end: int) -> Option<(int, int)> {
    let a = day + s.start_of_day;
    let e0 = day + s.end_of_day;
    let b = if e0 <= a {
        e0 + DAY_MICROS
    } else {
        e0
    };
    let cs = if a > start {
        a
    } else {
        start
    };
    let ce = if b < end {
        b
    } else {
        end
    };
    if cs >= ce {
        None
    } else {
        Some((cs, ce))
    }
}

/// The non-empty slices of the shifts on one day, in shift order.
pub open spec fn day_windows(day: int, shifts: Seq<ShiftDef>, start: int, end: int) -> Seq<
    (Seq<char>, int, int),
>
    decreases shifts.len(),
{
    if shifts.len() == 0 {
        seq![]
    } else {
        let rest = day_windows(day, shifts.drop_last(), start, end);
        match shift_slice(day, shifts.last(), start, end) {
            Some(w) => rest.push((shifts.last().name@, w.0, w.1)),
            None => rest,
        }
    }
}

/// The slices of `n` consecutive days starting at `first_day`, day by day.
pub open spec fn days_windows(first_day: int, n: nat, shifts: Seq<ShiftDef>, start: int, end: int) -> Seq<
    (Seq<char>, int, int),
>
    decreases n,
{
    if n == 0 {
        seq![]
    } else {
        days_windows(first_day, (n - 1) as nat, shifts, start, end) + day_windows(
            first_day + (n - 1) * DAY_MICROS,
            shifts,
            start,
            end,
        )
    }
}

/// How many days the breakdown walks: from the day of `start` through the day
/// of `end`, none when `end` falls on an earlier day.
pub open spec fn day_count(start: int, end: int) -> nat {
    if day_of(end) < day_of(start) {
        0
    } else {
        ((day_of(end) - day_of(start)) / (DAY_MICROS as int) + 1) as nat
    }
}

/// The view of a window: name, start, end.
pub open spec fn window_view(w: ShiftWindow) -> (Seq<char>, int, int) {
    (w.name@, w.start as int, w.end as int)
}

/// An instant far enough from the ends of `i64` that a day and a shift can
/// be added to it.
pub open spec fn instant_in_range(t: i64) -> bool {
    i64::MIN + 4 * DAY_MICROS <= t <= i64::MAX - 4 * DAY_MICROS
}

/// The shift's times of day lie within a day.
pub open spec fn shift_in_day(s: ShiftDef) -> bool {
    0 <= s.start_of_day < DAY_MICROS && 0 <= s.end_of_day < DAY_MICROS
}

/// A window is a non-empty slice of `[start, end)`.
pub open spec fn within_window(w: (Seq<char>, int, int), start: int, end: int) -> bool {
    start <= w.1 && w.1 < w.2 && w.2 <= end
}

proof fn lemma_day_windows_within(day: int, shifts: Seq<ShiftDef>, start: int, end: int)
    ensures
        forall|k: int|
            0 <= k < day_windows(day, shifts, start, end).len() ==> within_window(
                #[trigger] day_windows(day, shifts, start, end)[k],
                start,
                end,
            ),
    decreases shifts.len(),
{
    if shifts.len() > 0 {
        lemma_day_windows_within(day, shifts.drop_last(), start, end);
        let rest = day_windows(day, shifts.drop_last(), start, end);
        let r = day_windows(day, shifts, start, end);
        assert forall|k: int| 0 <= k < r.len() implies within_window(#[trigger] r[k], start, end) by {
            if k < rest.len() {
                assert(r[k] == rest[k]);
            }
        }
    }
}

/// Every shift window is a non-empty slice of the reporting window.
pub proof fn lemma_shift_windows_within(
    first_day: int,
    n: nat,
    shifts: Seq<ShiftDef>,
    start: int,
    end: int,
)
    ensures
        forall|k: int|
            0 <= k < days_windows(first_day, n, shifts, start, end).len() ==> within_window(
                #[trigger] days_windows(first_day, n, shifts, start, end)[k],
                start,
                end,
            ),
    decreases n,
{
    if n > 0 {
        lemma_shift_windows_within(first_day, (n - 1) as nat, shifts, start, end);
        let a = days_windows(first_day, (n - 1) as nat, shifts, start, end);
        let d = first_day + (n - 1) * DAY_MICROS;
        lemma_day_windows_within(d, shifts, start, end);
        let b = day_windows(d, shifts, start, end);
        let r = days_windows(first_day, n, shifts, start, end);
        assert(r == a + b);
        assert forall|k: int| 0 <= k < r.len() implies within_window(#[trigger] r[k], start, end) by {
            if k < a.len() {
                assert(r[k] == a[k]);
            } else {
                assert(r[k] == b[k - a.len()]);
            }
        }
    }
}

/// Midnight of the day holding `t`.
fn day_start(t: i64) -> (r: i64)
    requires
        instant_in_range(t),
    ensures
        r == day_of(t as int),
        r <= t,
        t - r < DAY_MICROS,
{
    let shifted: u128 = (t as i128 + 9_223_372_108_800_000_000i128) as u128;
    let m128: u128 = shifted % 86_400_000_000u128;
    proof {
        assert(86_400_000_000 * 106751992 == 9_223_372_108_800_000_000);
        assert(t as i128 + 9_223_372_108_800_000_000i128 >= 0);
        assert(shifted as int == 86_400_000_000 * 106751992 + t as int);
        vstd::arithmetic::div_mod::lemma_mod_multiples_vanish(106751992, t as int, 86_400_000_000);
    }
    let m: i64 = m128 as i64;
    t - m
}

/// The slices of one day's shifts, appended to `out`.
fn push_day(out: &mut Vec<ShiftWindow>, day: i64, shifts: &Vec<ShiftDef>, start: i64, end: i64)
    requires
        i64::MIN + 2 * DAY_MICROS <= day <= i64::MAX - 2 * DAY_MICROS,
        forall|k: int| 0 <= k < shifts@.len() ==> shift_in_day(#[trigger] shifts@[k]),
    ensures
        final(out)@.map_values(|w: ShiftWindow| window_view(w)) == old(out)@.map_values(
            |w: ShiftWindow| window_view(w),
        ) + day_windows(day as int, shifts@, start as int, end as int),
{
    let ghost base = old(out)@.map_values(|w: ShiftWindow| window_view(w));
    let mut k: usize = 0;
    assert(shifts@.subrange(0, 0) =~= Seq::<ShiftDef>::empty());
    assert(base + day_windows(day as int, shifts@.subrange(0, 0), start as int, end as int) =~= base);
    while k < shifts.len()
        invariant
            k <= shifts@.len(),
            i64::MIN + 2 * DAY_MICROS <= day <= i64::MAX - 2 * DAY_MICROS,
            forall|q: int| 0 <= q < shifts@.len() ==> shift_in_day(#[trigger] shifts@[q]),
            out@.map_values(|w: ShiftWindow| window_view(w)) == base + day_windows(
                day as int,
                shifts@.subrange(0, k as int),
                start as int,
                end as int,
            ),
        decreases shifts@.len() - k,
    {
        let s = &shifts[k];
        let ghost sub = shifts@.subrange(0, k + 1);
        assert(sub.drop_last() =~= shifts@.subrange(0, k as int));
        assert(sub.last() == shifts@[k as int]);
        assert(shift_in_day(shifts@[k as int]));
        let a = day + s.start_of_day;
        let e0 = day + s.end_of_day;
        let b = if e0 <= a {
            e0 + DAY_MICROS
        } else {
            e0
        };
        let cs = if a > start {
            a
        } else {
            start
        };
        let ce = if b < end {
            b
        } else {
            end
        };
        let ghost before = out@.map_values(|w: ShiftWindow| window_view(w));
        if cs < ce {
            out.push(ShiftWindow { name: s.name.clone(), start: cs, end: ce });
            assert(out@.map_values(|w: ShiftWindow| window_view(w)) =~= before.push(
                (s.name@, cs as int, ce as int),
            ));
        }
        k = k + 1;
    }
    assert(shifts@.subrange(0, shifts@.len() as int) =~= shifts@);
}

/// The shift windows of `[start, end)`: for each day from the day of `start`
/// through the day of `end`, each shift's occurrence that day (an overnight
/// shift ending the next day) clamped to the window, skipping empty slices.
pub fn shift_windows(shifts: &Vec<ShiftDef>, start: i64, end: i64) -> (r: Vec<ShiftWindow>)
    requires
        instant_in_range(start),
        instant_in_range(end),
        forall|k: int| 0 <= k < shifts@.len() ==> shift_in_day(#[trigger] shifts@[k]),
    ensures
        r@.map_values(|w: ShiftWindow| window_view(w)) == days_windows(
            day_of(start as int),
            day_count(start as int, end as int),
            shifts@,
            start as int,
            end as int,
        ),
{
    let mut out: Vec<ShiftWindow> = Vec::new();
    let first = day_start(start);
    let last = day_start(end);
    let mut day = first;
    let ghost mut n: nat = 0;
    assert(out@.map_values(|w: ShiftWindow| window_view(w)) =~= Seq::<(Seq<char>, int, int)>::empty());
    proof {
        assert((last as int - first as int) % (DAY_MICROS as int) == 0) by (nonlinear_arith)
            requires
                first as int == start as int - (start as int) % (DAY_MICROS as int),
                last as int == end as int - (end as int) % (DAY_MICROS as int),
        ;
    }
    if first > last {
        return out;
    }
    while day <= last
        invariant
            instant_in_range(start),
            instant_in_range(end),
            forall|k: int| 0 <= k < shifts@.len() ==> shift_in_day(#[trigger] shifts@[k]),
            first == day_of(start as int),
            last == day_of(end as int),
            first <= day,
            day as int == first + n * DAY_MICROS,
            day <= last + DAY_MICROS,
            (last as int - first as int) % (DAY_MICROS as int) == 0,
            out@.map_values(|w: ShiftWindow| window_view(w)) == days_windows(
                first as int,
                n,
                shifts@,
                start as int,
                end as int,
            ),
        decreases last + DAY_MICROS - day,
    {
        push_day(&mut out, day, shifts, start, end);
        proof {
            assert(first + n * DAY_MICROS == day);
            n = n + 1;
        }
        day = day + DAY_MICROS;
    }
    proof {
        assert(n == day_count(start as int, end as int)) by (nonlinear_arith)
            requires
                day as int == first + n * DAY_MICROS,
                day > last,
                day <= last + DAY_MICROS,
                first <= day,
                first == day_of(start as int),
                last == day_of(end as int),
                (last as int - first as int) % (DAY_MICROS as int) == 0,
                day_count(start as int, end as int) == (if day_of(end as int) < day_of(start as int) {
                    0
                } else {
                    ((day_of(end as int) - day_of(start as int)) / (DAY_MICROS as int) + 1)
                }),
        ;
    }
    out
}

} // verus!
