//! Downtime analytics: the Six Big Losses and Pareto ranking. Aggregation is
//! done by the database; the ordering and running totals are computed here.
//! The percentage shares of a Pareto row are floating point and are derived
//! from the ranked seconds by the caller.

use vstd::prelude::*;
use crate::text::str_eq;

verus! {

/// The Six Big Losses. Availability losses (Breakdown, SetupAdjustment) and
/// performance losses (MinorStop, ReducedSpeed) come from downtime; quality
/// losses (StartupReject, ProductionReject) come from scrap.
#[derive(Debug, Clone, Copy, PartialEq, Eq, Structural)]
pub enum SixBigLoss {
    Breakdown,
    SetupAdjustment,
    MinorStop,
    ReducedSpeed,
    StartupReject,
    ProductionReject,
}

pub open spec fn six_big_loss_text(l: SixBigLoss) -> Seq<char> {
    match l {
        SixBigLoss::Breakdown => "breakdown"@,
        SixBigLoss::SetupAdjustment => "setup_adjustment"@,
        SixBigLoss::MinorStop => "minor_stop"@,
        SixBigLoss::ReducedSpeed => "reduced_speed"@,
        SixBigLoss::StartupReject => "startup_reject"@,
        SixBigLoss::ProductionReject => "production_reject"@,
    }
}

pub open spec fn six_big_loss_of_text(t: Seq<char>) -> Option<SixBigLoss> {
    if t == "breakdown"@ {
        Some(SixBigLoss::Breakdown)
    } else if t == "setup_adjustment"@ {
        Some(SixBigLoss::SetupAdjustment)
    } else if t == "minor_stop"@ {
        Some(SixBigLoss::MinorStop)
    } else if t == "reduced_speed"@ {
        Some(SixBigLoss::ReducedSpeed)
    } else if t == "startup_reject"@ {
        Some(SixBigLoss::StartupReject)
    } else if t == "production_reject"@ {
        Some(SixBigLoss::ProductionReject)
    } else {
        None
    }
}

/// The OEE factor a loss counts against.
pub open spec fn oee_bucket_text(l: SixBigLoss) -> Seq<char> {
    match l {
        SixBigLoss::Breakdown | SixBigLoss::SetupAdjustment => "availability"@,
        SixBigLoss::MinorStop | SixBigLoss::ReducedSpeed => "performance"@,
        SixBigLoss::StartupReject | SixBigLoss::ProductionReject => "quality"@,
    }
}

impl SixBigLoss {
    pub fn parse(s: &str) -> (r: Option<SixBigLoss>)
        ensures
            r == six_big_loss_of_text(s@),
    {
        if str_eq(s, "breakdown") {
            Some(SixBigLoss::Breakdown)
        } else if str_eq(s, "setup_adjustment") {
            Some(SixBigLoss::SetupAdjustment)
        } else if str_eq(s, "minor_stop") {
            Some(SixBigLoss::MinorStop)
        } else if str_eq(s, "reduced_speed") {
            Some(SixBigLoss::ReducedSpeed)
        } else if str_eq(s, "startup_reject") {
            Some(SixBigLoss::StartupReject)
        } else if str_eq(s, "production_reject") {
            Some(SixBigLoss::ProductionReject)
        } else {
            None
        }
    }

    pub fn as_str(self) -> (r: &'static str)
        ensures
            r@ == six_big_loss_text(self),
    {
        match self {
            SixBigLoss::Breakdown => "breakdown",
            SixBigLoss::SetupAdjustment => "setup_adjustment",
            SixBigLoss::MinorStop => "minor_stop",
            SixBigLoss::ReducedSpeed => "reduced_speed",
            SixBigLoss::StartupReject => "startup_reject",
            SixBigLoss::ProductionReject => "production_reject",
        }
    }

    /// Which OEE bucket this loss belongs to: "availability", "performance" or
    /// "quality".
    pub fn oee_bucket(self) -> (r: &'static str)
        ensures
            r@ == oee_bucket_text(self),
    {
        match self {
            SixBigLoss::Breakdown | SixBigLoss::SetupAdjustment => "availability",
            SixBigLoss::MinorStop | SixBigLoss::ReducedSpeed => "performance",
            SixBigLoss::StartupReject | SixBigLoss::ProductionReject => "quality",
        }
    }
}

/// One aggregated category feeding a Pareto chart, before ranking.
#[derive(Debug, Clone, PartialEq, Eq)]
pub struct ParetoInput {
    pub key: String,
    pub label: String,
    pub seconds: i64,
}

/// A ranked Pareto row with its running total of seconds.
#[derive(Debug, Clone, PartialEq, Eq)]
pub struct RankedRow {
    pub key: String,
    pub label: String,
    pub seconds: i64,
    /// Seconds of this row and every row ranked before it.
    pub cumulative_seconds: i64,
}

/// `a` sorts strictly before `b` by characters (a proper prefix sorts
/// first). For strings this is the byte order of their UTF-8 encodings.
pub open spec fn text_lt(a: Seq<char>, b: Seq<char>) -> bool
    decreases a.len(),
{
    if a.len() == 0 {
        b.len() > 0
    } else if b.len() == 0 {
        false
    } else if a[0] != b[0] {
        (a[0] as int) < (b[0] as int)
    } else {
        text_lt(a.drop_first(), b.drop_first())
    }
}

proof fn lemma_text_lt_irreflexive(a: Seq<char>)
    ensures
        !text_lt(a, a),
    decreases a.len(),
{
    if a.len() > 0 {
        lemma_text_lt_irreflexive(a.drop_first());
    }
}

proof fn lemma_text_lt_asymmetric(a: Seq<char>, b: Seq<char>)
    ensures
        text_lt(a, b) ==> !text_lt(b, a),
    decreases a.len(),
{
    if a.len() > 0 && b.len() > 0 {
        lemma_text_lt_asymmetric(a.drop_first(), b.drop_first());
    }
}

proof fn lemma_text_lt_transitive(a: Seq<char>, b: Seq<char>, c: Seq<char>)
    ensures
        text_lt(a, b) && text_lt(b, c) ==> text_lt(a, c),
    decreases a.len(),
{
    if a.len() > 0 && b.len() > 0 && c.len() > 0 {
        lemma_text_lt_transitive(a.drop_first(), b.drop_first(), c.drop_first());
    }
}

proof fn lemma_text_lt_total(a: Seq<char>, b: Seq<char>)
    ensures
        a != b ==> text_lt(a, b) || text_lt(b, a),
    decreases a.len(),
{
    if a.len() > 0 && b.len() > 0 {
        lemma_text_lt_total(a.drop_first(), b.drop_first());
        if a[0] == b[0] && a.drop_first() == b.drop_first() {
            assert(a =~= seq![a[0]] + a.drop_first());
            assert(b =~= seq![b[0]] + b.drop_first());
        }
    }
    if a.len() == 0 && b.len() == 0 {
        assert(a =~= b);
    }
}

/// The text order is a strict total order: irreflexive, asymmetric,
/// transitive, and any two different texts are ordered one way.
pub proof fn lemma_text_lt_strict_total(a: Seq<char>, b: Seq<char>, c: Seq<char>)
    ensures
        !text_lt(a, a),
        text_lt(a, b) ==> !text_lt(b, a),
        text_lt(a, b) && text_lt(b, c) ==> text_lt(a, c),
        a != b ==> text_lt(a, b) || text_lt(b, a),
{
    lemma_text_lt_irreflexive(a);
    lemma_text_lt_asymmetric(a, b);
    lemma_text_lt_transitive(a, b, c);
    lemma_text_lt_total(a, b);
}

/// Whether `a` sorts strictly before `b`.
pub fn str_lt(a: &str, b: &str) -> (r: bool)
    ensures
        r == text_lt(a@, b@),
{
    let n = a.unicode_len();
    let m = b.unicode_len();
    let mut i: usize = 0;
    assert(a@.subrange(0, n as int) =~= a@);
    assert(b@.subrange(0, m as int) =~= b@);
    while i < n && i < m
        invariant
            n == a@.len(),
            m == b@.len(),
            i <= n,
            i <= m,
            text_lt(a@, b@) == text_lt(a@.subrange(i as int, n as int), b@.subrange(i as int, m as int)),
        decreases n - i,
    {
        let x = a.get_char(i);
        let y = b.get_char(i);
        let ghost sa = a@.subrange(i as int, n as int);
        let ghost sb = b@.subrange(i as int, m as int);
        assert(sa[0] == x && sb[0] == y);
        if x != y {
            return (x as u32) < (y as u32);
        }
        assert(sa.drop_first() =~= a@.subrange(i + 1, n as int));
        assert(sb.drop_first() =~= b@.subrange(i + 1, m as int));
        i = i + 1;
    }
    i < m
}

/// The ranking view of an input: key, label, seconds.
pub open spec fn input_view(p: ParetoInput) -> (Seq<char>, Seq<char>, i64) {
    (p.key@, p.label@, p.seconds)
}

/// Row `a` may stay before row `b`: more seconds, or as many and a key that is
/// not after `b`'s.
pub open spec fn ranks_not_after(a: (Seq<char>, Seq<char>, i64), b: (Seq<char>, Seq<char>, i64)) -> bool {
    a.2 > b.2 || (a.2 == b.2 && !text_lt(b.0, a.0))
}

/// Insert `x` after every row that may stay before it.
pub open spec fn insert_ranked(s: Seq<(Seq<char>, Seq<char>, i64)>, x: (Seq<char>, Seq<char>, i64)) -> Seq<
    (Seq<char>, Seq<char>, i64),
>
    decreases s.len(),
{
    if s.len() == 0 {
        seq![x]
    } else if ranks_not_after(s.last(), x) {
        s.push(x)
    } else {
        insert_ranked(s.drop_last(), x).push(s.last())
    }
}

/// The categories with positive seconds, in input order.
pub open spec fn positive_only(s: Seq<(Seq<char>, Seq<char>, i64)>) -> Seq<(Seq<char>, Seq<char>, i64)>
    decreases s.len(),
{
    if s.len() == 0 {
        s
    } else if s.last().2 > 0 {
        positive_only(s.drop_last()).push(s.last())
    } else {
        positive_only(s.drop_last())
    }
}

/// The Pareto order: categories with positive seconds, by descending seconds,
/// ties by ascending key, equal rows in input order.
pub open spec fn pareto_order(s: Seq<(Seq<char>, Seq<char>, i64)>) -> Seq<(Seq<char>, Seq<char>, i64)>
    decreases s.len(),
{
    if s.len() == 0 {
        s
    } else {
        let rest = pareto_order(s.drop_last());
        if s.last().2 > 0 {
            insert_ranked(rest, s.last())
        } else {
            rest
        }
    }
}

/// Sum of the seconds of the first `n` rows.
pub open spec fn seconds_prefix(s: Seq<(Seq<char>, Seq<char>, i64)>, n: int) -> int
    decreases n,
{
    if n <= 0 {
        0
    } else {
        seconds_prefix(s, n - 1) + s[n - 1].2
    }
}

/// The ranked view of an output row.
pub open spec fn row_view(r: RankedRow) -> (Seq<char>, Seq<char>, i64) {
    (r.key@, r.label@, r.seconds)
}

/// Positive seconds in every prefix sum stay within `i64` when the total does.
proof fn lemma_prefix_monotone(s: Seq<(Seq<char>, Seq<char>, i64)>, i: int, j: int)
    requires
        0 <= i <= j <= s.len(),
        forall|k: int| 0 <= k < s.len() ==> (#[trigger] s[k]).2 > 0,
    ensures
        seconds_prefix(s, i) <= seconds_prefix(s, j),
        seconds_prefix(s, i) >= 0,
    decreases j,
{
    if j > i {
        lemma_prefix_monotone(s, i, j - 1);
    } else if i > 0 {
        lemma_prefix_monotone(s, i - 1, i - 1);
    }
}

/// Every row of the Pareto order has positive seconds.
proof fn lemma_pareto_positive(s: Seq<(Seq<char>, Seq<char>, i64)>)
    ensures
        forall|k: int| 0 <= k < pareto_order(s).len() ==> (#[trigger] pareto_order(s)[k]).2 > 0,
    decreases s.len(),
{
    if s.len() > 0 {
        lemma_pareto_positive(s.drop_last());
        if s.last().2 > 0 {
            lemma_insert_keeps(pareto_order(s.drop_last()), s.last());
        }
    }
}

/// Inserting keeps every row and adds `x`.
proof fn lemma_insert_keeps(s: Seq<(Seq<char>, Seq<char>, i64)>, x: (Seq<char>, Seq<char>, i64))
    ensures
        insert_ranked(s, x).len() == s.len() + 1,
        forall|k: int|
            0 <= k < insert_ranked(s, x).len() ==> #[trigger] insert_ranked(s, x)[k] == x
                || s.contains(insert_ranked(s, x)[k]),
    decreases s.len(),
{
    if s.len() > 0 && !ranks_not_after(s.last(), x) {
        let t = s.drop_last();
        lemma_insert_keeps(t, x);
        let r = insert_ranked(s, x);
        assert forall|k: int| 0 <= k < r.len() implies #[trigger] r[k] == x || s.contains(r[k]) by {
            if k < r.len() - 1 {
                let q = insert_ranked(t, x);
                assert(r[k] == q[k]);
                if q[k] != x {
                    let j = choose|j: int| 0 <= j < t.len() && t[j] == q[k];
                    assert(s[j] == t[j]);
                }
            } else {
                assert(r[k] == s[s.len() - 1]);
            }
        }
    } else if s.len() > 0 {
        let r = insert_ranked(s, x);
        assert forall|k: int| 0 <= k < r.len() implies #[trigger] r[k] == x || s.contains(r[k]) by {
            if k < s.len() {
                assert(r[k] == s[k]);
            }
        }
    }
}

/// Rows in Pareto order: each may stay before every row after it.
pub open spec fn ranked(s: Seq<(Seq<char>, Seq<char>, i64)>) -> bool {
    forall|i: int, j: int| 0 <= i < j < s.len() ==> ranks_not_after(#[trigger] s[i], #[trigger] s[j])
}

proof fn lemma_ranks_transitive(
    a: (Seq<char>, Seq<char>, i64),
    b: (Seq<char>, Seq<char>, i64),
    c: (Seq<char>, Seq<char>, i64),
)
    requires
        ranks_not_after(a, b),
        ranks_not_after(b, c),
    ensures
        ranks_not_after(a, c),
{
    lemma_text_lt_strict_total(a.0, b.0, c.0);
    lemma_text_lt_strict_total(b.0, c.0, a.0);
    lemma_text_lt_strict_total(c.0, a.0, b.0);
    lemma_text_lt_strict_total(a.0, c.0, b.0);
}

proof fn lemma_ranks_total(a: (Seq<char>, Seq<char>, i64), b: (Seq<char>, Seq<char>, i64))
    ensures
        ranks_not_after(a, b) || ranks_not_after(b, a),
{
    lemma_text_lt_strict_total(a.0, b.0, b.0);
}

proof fn lemma_insert_ranked_sorted(s: Seq<(Seq<char>, Seq<char>, i64)>, x: (Seq<char>, Seq<char>, i64))
    requires
        ranked(s),
    ensures
        ranked(insert_ranked(s, x)),
        insert_ranked(s, x).to_multiset() == s.to_multiset().insert(x),
    decreases s.len(),
{
    broadcast use vstd::seq_lib::group_to_multiset_ensures;
    let r = insert_ranked(s, x);
    if s.len() == 0 {
        assert(seq![x] =~= Seq::<(Seq<char>, Seq<char>, i64)>::empty().push(x));
    } else if ranks_not_after(s.last(), x) {
        assert forall|i: int, j: int| 0 <= i < j < r.len() implies ranks_not_after(#[trigger] r[i], #[trigger] r[j]) by {
            if j == r.len() - 1 && i < s.len() - 1 {
                assert(ranks_not_after(s[i], s[s.len() - 1]));
                lemma_ranks_transitive(s[i], s.last(), x);
            }
        }
    } else {
        let t = s.drop_last();
        let y = s.last();
        assert(ranked(t));
        lemma_insert_ranked_sorted(t, x);
        let it = insert_ranked(t, x);
        assert(r == it.push(y));
        lemma_ranks_total(y, x);
        assert forall|k: int| 0 <= k < it.len() implies ranks_not_after(#[trigger] it[k], y) by {
            assert(it.to_multiset().count(it[k]) > 0);
            assert(t.to_multiset().insert(x).count(it[k]) > 0);
            if it[k] != x {
                assert(t.to_multiset().count(it[k]) > 0);
                assert(t.contains(it[k]));
                let q = choose|q: int| 0 <= q < t.len() && t[q] == it[k];
                assert(s[q] == t[q]);
                assert(ranks_not_after(s[q], s[s.len() - 1]));
            }
        }
        assert forall|i: int, j: int| 0 <= i < j < r.len() implies ranks_not_after(#[trigger] r[i], #[trigger] r[j]) by {
            if j == r.len() - 1 {
                assert(r[i] == it[i]);
            } else {
                assert(r[i] == it[i] && r[j] == it[j]);
            }
        }
        assert(s =~= t.push(y));
        assert(s.to_multiset() =~= t.to_multiset().insert(y));
    }
}

/// The Pareto order ranks its rows, and holds exactly the categories with
/// positive seconds (each as often as it was given).
pub proof fn lemma_pareto_ranked(s: Seq<(Seq<char>, Seq<char>, i64)>)
    ensures
        ranked(pareto_order(s)),
        pareto_order(s).to_multiset() == positive_only(s).to_multiset(),
    decreases s.len(),
{
    broadcast use vstd::seq_lib::group_to_multiset_ensures;
    if s.len() > 0 {
        lemma_pareto_ranked(s.drop_last());
        let rest = pareto_order(s.drop_last());
        if s.last().2 > 0 {
            lemma_insert_ranked_sorted(rest, s.last());
        }
    }
}

/// Insert one input into the ranked rows (without running totals).
fn insert_row(out: &mut Vec<ParetoInput>, x: ParetoInput)
    ensures
        final(out)@.map_values(|p: ParetoInput| input_view(p)) == insert_ranked(
            old(out)@.map_values(|p: ParetoInput| input_view(p)),
            input_view(x),
        ),
{
    let ghost base = old(out)@.map_values(|p: ParetoInput| input_view(p));
    let ghost xv = input_view(x);
    let mut tail: Vec<ParetoInput> = Vec::new();
    loop
        invariant
            xv == input_view(x),
            insert_ranked(base, xv) == insert_ranked(
                out@.map_values(|p: ParetoInput| input_view(p)),
                xv,
            ) + tail@.map_values(|p: ParetoInput| input_view(p)).reverse(),
        ensures
            insert_ranked(base, xv) == insert_ranked(
                out@.map_values(|p: ParetoInput| input_view(p)),
                xv,
            ) + tail@.map_values(|p: ParetoInput| input_view(p)).reverse(),
            out@.len() == 0 || ranks_not_after(
                out@.map_values(|p: ParetoInput| input_view(p)).last(),
                xv,
            ),
        decreases out.len(),
    {
        let n = out.len();
        if n == 0 {
            break;
        }
        let last_secs = out[n - 1].seconds;
        let key_before = str_lt(x.key.as_str(), out[n - 1].key.as_str());
        let keep = last_secs > x.seconds || (last_secs == x.seconds && !key_before);
        let ghost o = out@.map_values(|p: ParetoInput| input_view(p));
        assert(o.last() == input_view(out@[n - 1]));
        assert(o.last().2 == last_secs);
        assert(xv.2 == x.seconds);
        assert(o.last().0 == out@[n - 1].key@);
        assert(xv.0 == x.key@);
        assert(key_before == text_lt(xv.0, o.last().0));
        assert(keep == ranks_not_after(o.last(), xv));
        if keep {
            break;
        }
        assert(!ranks_not_after(o.last(), xv));
        assert(insert_ranked(o, xv) == insert_ranked(o.drop_last(), xv).push(o.last()));
        let ghost t = tail@.map_values(|p: ParetoInput| input_view(p));
        let y = out.pop().unwrap();
        assert(o.drop_last() =~= out@.map_values(|p: ParetoInput| input_view(p)));
        assert(o.last() == input_view(y));
        tail.push(y);
        assert(tail@.map_values(|p: ParetoInput| input_view(p)) =~= t.push(input_view(y)));
        assert(t.push(input_view(y)).reverse() =~= seq![input_view(y)] + t.reverse());
        let ghost ov = out@.map_values(|p: ParetoInput| input_view(p));
        assert(insert_ranked(ov, xv).push(input_view(y)) + t.reverse() =~= insert_ranked(ov, xv)
            + (seq![input_view(y)] + t.reverse()));
    }
    let ghost o = out@.map_values(|p: ParetoInput| input_view(p));
    assert(insert_ranked(o, xv) =~= o.push(xv));
    out.push(x);
    assert(out@.map_values(|p: ParetoInput| input_view(p)) =~= o.push(xv));
    while tail.len() > 0
        invariant
            insert_ranked(base, xv) == out@.map_values(|p: ParetoInput| input_view(p))
                + tail@.map_values(|p: ParetoInput| input_view(p)).reverse(),
        decreases tail.len(),
    {
        let ghost t = tail@.map_values(|p: ParetoInput| input_view(p));
        let ghost o2 = out@.map_values(|p: ParetoInput| input_view(p));
        let y = tail.pop().unwrap();
        assert(t =~= tail@.map_values(|p: ParetoInput| input_view(p)).push(input_view(y)));
        assert(t.reverse() =~= seq![input_view(y)] + tail@.map_values(
            |p: ParetoInput| input_view(p),
        ).reverse());
        out.push(y);
        assert(out@.map_values(|p: ParetoInput| input_view(p)) =~= o2.push(input_view(y)));
        assert(o2 + (seq![input_view(y)] + tail@.map_values(|p: ParetoInput| input_view(p)).reverse())
            =~= o2.push(input_view(y)) + tail@.map_values(|p: ParetoInput| input_view(p)).reverse());
    }
    assert(tail@.map_values(|p: ParetoInput| input_view(p)).reverse() =~= Seq::<
        (Seq<char>, Seq<char>, i64),
    >::empty());
    assert(out@.map_values(|p: ParetoInput| input_view(p)) =~= insert_ranked(base, xv));
}

/// A copy of an input.
fn copy_input(x: &ParetoInput) -> (r: ParetoInput)
    ensures
        input_view(r) == input_view(*x),
{
    ParetoInput { key: x.key.clone(), label: x.label.clone(), seconds: x.seconds }
}

/// Rank categories by descending seconds (ties by key, then input order),
/// dropping categories with no positive seconds, and give each row the
/// running total through it. Returns the rows and the grand total, which must
/// fit in `i64`.
pub fn pareto_ranked(inputs: &Vec<ParetoInput>) -> (r: (Vec<RankedRow>, i64))
    requires
        seconds_prefix(
            pareto_order(inputs@.map_values(|p: ParetoInput| input_view(p))),
            pareto_order(inputs@.map_values(|p: ParetoInput| input_view(p))).len() as int,
        ) <= i64::MAX,
    ensures
        r.0@.map_values(|x: RankedRow| row_view(x)) == pareto_order(
            inputs@.map_values(|p: ParetoInput| input_view(p)),
        ),
        forall|k: int|
            0 <= k < r.0@.len() ==> (#[trigger] r.0@[k]).cumulative_seconds == seconds_prefix(
                pareto_order(inputs@.map_values(|p: ParetoInput| input_view(p))),
                k + 1,
            ),
        r.1 == seconds_prefix(
            pareto_order(inputs@.map_values(|p: ParetoInput| input_view(p))),
            pareto_order(inputs@.map_values(|p: ParetoInput| input_view(p))).len() as int,
        ),
{
    let ghost iv = inputs@.map_values(|p: ParetoInput| input_view(p));
    let mut sorted: Vec<ParetoInput> = Vec::new();
    let n = inputs.len();
    let mut i: usize = 0;
    while i < n
        invariant
            n == inputs@.len(),
            i <= n,
            iv == inputs@.map_values(|p: ParetoInput| input_view(p)),
            sorted@.map_values(|p: ParetoInput| input_view(p)) == pareto_order(
                iv.subrange(0, i as int),
            ),
        decreases n - i,
    {
        let x = copy_input(&inputs[i]);
        let ghost sub = iv.subrange(0, i + 1);
        assert(sub.drop_last() =~= iv.subrange(0, i as int));
        assert(sub.last() == input_view(x));
        if x.seconds > 0 {
            insert_row(&mut sorted, x);
        }
        i = i + 1;
    }
    assert(iv.subrange(0, n as int) =~= iv);
    let ghost order = pareto_order(iv);
    proof {
        lemma_pareto_positive(iv);
        lemma_prefix_monotone(order, 0, order.len() as int);
    }
    let mut rows: Vec<RankedRow> = Vec::new();
    let mut running: i64 = 0;
    let mut k: usize = 0;
    while k < sorted.len()
        invariant
            k <= sorted@.len(),
            sorted@.map_values(|p: ParetoInput| input_view(p)) == order,
            order == pareto_order(iv),
            forall|q: int| 0 <= q < order.len() ==> (#[trigger] order[q]).2 > 0,
            seconds_prefix(order, order.len() as int) <= i64::MAX,
            running == seconds_prefix(order, k as int),
            rows@.map_values(|x: RankedRow| row_view(x)) == order.subrange(0, k as int),
            forall|q: int|
                0 <= q < rows@.len() ==> (#[trigger] rows@[q]).cumulative_seconds == seconds_prefix(
                    order,
                    q + 1,
                ),
        decreases sorted@.len() - k,
    {
        let x = &sorted[k];
        assert(order[k as int] == input_view(*x));
        proof {
            lemma_prefix_monotone(order, k + 1, order.len() as int);
        }
        running = running + x.seconds;
        let ghost before = rows@;
        let ghost bv = before.map_values(|x: RankedRow| row_view(x));
        assert(order.subrange(0, k + 1) =~= order.subrange(0, k as int).push(order[k as int]));
        rows.push(
            RankedRow {
                key: x.key.clone(),
                label: x.label.clone(),
                seconds: x.seconds,
                cumulative_seconds: running,
            },
        );
        assert(rows@.map_values(|x: RankedRow| row_view(x)) =~= bv.push(row_view(rows@[k as int])));
        assert(row_view(rows@[k as int]) == order[k as int]);
        assert(rows@.map_values(|x: RankedRow| row_view(x)) =~= order.subrange(0, k + 1));
        k = k + 1;
    }
    assert(order.subrange(0, order.len() as int) =~= order);
    (rows, running)
}

} // verus!
