//! Stable insertion sorts on timestamps and on spans keyed by their start.

use vstd::prelude::*;

verus! {

/// Insert `x` into `s` after every element not greater than it.
pub open spec fn insert_i64(s: Seq<i64>, x: i64) -> Seq<i64>
    decreases s.len(),
{
    if s.len() == 0 {
        seq![x]
    } else if s.last() <= x {
        s.push(x)
    } else {
        insert_i64(s.drop_last(), x).push(s.last())
    }
}

/// `s` in ascending order.
pub open spec fn sort_i64_spec(s: Seq<i64>) -> Seq<i64>
    decreases s.len(),
{
    if s.len() == 0 {
        s
    } else {
        insert_i64(sort_i64_spec(s.drop_last()), s.last())
    }
}

/// A sequence in non-decreasing order.
pub open spec fn ascending(s: Seq<i64>) -> bool {
    forall|i: int, j: int| 0 <= i <= j < s.len() ==> s[i] <= s[j]
}

proof fn lemma_insert_i64(s: Seq<i64>, x: i64)
    requires
        ascending(s),
    ensures
        ascending(insert_i64(s, x)),
        insert_i64(s, x).len() == s.len() + 1,
        insert_i64(s, x).to_multiset() == s.to_multiset().insert(x),
    decreases s.len(),
{
    broadcast use vstd::seq_lib::group_to_multiset_ensures;
    if s.len() == 0 {
        assert(seq![x] =~= Seq::<i64>::empty().push(x));
    } else if s.last() <= x {
    } else {
        let t = s.drop_last();
        lemma_insert_i64(t, x);
        let it = insert_i64(t, x);
        assert(s =~= t.push(s.last()));
        assert forall|i: int| 0 <= i < it.len() implies #[trigger] it[i] <= s.last() by {
            assert(it.to_multiset().count(it[i]) > 0);
            assert(t.to_multiset().insert(x).count(it[i]) > 0);
            if it[i] != x {
                assert(t.to_multiset().count(it[i]) > 0);
                assert(t.contains(it[i]));
                let k = choose|k: int| 0 <= k < t.len() && t[k] == it[i];
                assert(s[k] == t[k]);
            }
        }
        assert(s.to_multiset() =~= t.to_multiset().insert(s.last()));
    }
}

/// The sort puts its input in ascending order and keeps every element.
pub proof fn lemma_sort_i64(s: Seq<i64>)
    ensures
        ascending(sort_i64_spec(s)),
        sort_i64_spec(s).to_multiset() == s.to_multiset(),
        sort_i64_spec(s).len() == s.len(),
    decreases s.len(),
{
    broadcast use vstd::seq_lib::group_to_multiset_ensures;
    if s.len() > 0 {
        lemma_sort_i64(s.drop_last());
        lemma_insert_i64(sort_i64_spec(s.drop_last()), s.last());
        assert(s =~= s.drop_last().push(s.last()));
    }
}

/// Sort timestamps ascending.
pub fn sort_i64(v: Vec<i64>) -> (r: Vec<i64>)
    ensures
        r@ == sort_i64_spec(v@),
{
    let mut out: Vec<i64> = Vec::new();
    let mut i: usize = 0;
    while i < v.len()
        invariant
            i <= v.len(),
            out@ == sort_i64_spec(v@.subrange(0, i as int)),
        decreases v.len() - i,
    {
        let x = v[i];
        assert(v@.subrange(0, i + 1).drop_last() =~= v@.subrange(0, i as int));
        // insert x: find the position after the last element not greater than x
        let mut tail: Vec<i64> = Vec::new();
        let ghost base = out@;
        while out.len() > 0 && out[out.len() - 1] > x
            invariant
                insert_i64(base, x) == insert_i64(out@, x) + tail@.reverse(),
            decreases out.len(),
        {
            let ghost o = out@;
            let y = out.pop().unwrap();
            assert(o.drop_last() =~= out@);
            assert(insert_i64(o, x) == insert_i64(out@, x).push(y));
            let ghost t = tail@;
            tail.push(y);
            assert(tail@.reverse() =~= seq![y] + t.reverse());
            assert(insert_i64(out@, x).push(y) + t.reverse() =~= insert_i64(out@, x) + (seq![y]
                + t.reverse()));
        }
        assert(insert_i64(out@, x) =~= out@.push(x));
        out.push(x);
        while tail.len() > 0
            invariant
                insert_i64(base, x) == out@ + tail@.reverse(),
            decreases tail.len(),
        {
            let ghost t = tail@;
            let y = tail.pop().unwrap();
            assert(t =~= tail@.push(y));
            assert(t.reverse() =~= seq![y] + tail@.reverse());
            let ghost o = out@;
            out.push(y);
            assert(o + (seq![y] + tail@.reverse()) =~= out@ + tail@.reverse());
        }
        assert(out@ =~= insert_i64(base, x));
        i = i + 1;
    }
    assert(v@.subrange(0, v.len() as int) =~= v@);
    out
}

/// Insert span `x` after every span whose start is not greater than its start.
pub open spec fn insert_span(s: Seq<(i64, i64)>, x: (i64, i64)) -> Seq<(i64, i64)>
    decreases s.len(),
{
    if s.len() == 0 {
        seq![x]
    } else if s.last().0 <= x.0 {
        s.push(x)
    } else {
        insert_span(s.drop_last(), x).push(s.last())
    }
}

/// `s` ordered by start; spans with equal starts keep their input order.
pub open spec fn sort_spans_spec(s: Seq<(i64, i64)>) -> Seq<(i64, i64)>
    decreases s.len(),
{
    if s.len() == 0 {
        s
    } else {
        insert_span(sort_spans_spec(s.drop_last()), s.last())
    }
}

/// Stable sort of spans by their start.
pub fn sort_spans(v: Vec<(i64, i64)>) -> (r: Vec<(i64, i64)>)
    ensures
        r@ == sort_spans_spec(v@),
{
    let mut out: Vec<(i64, i64)> = Vec::new();
    let mut i: usize = 0;
    while i < v.len()
        invariant
            i <= v.len(),
            out@ == sort_spans_spec(v@.subrange(0, i as int)),
        decreases v.len() - i,
    {
        let x = v[i];
        assert(v@.subrange(0, i + 1).drop_last() =~= v@.subrange(0, i as int));
        let mut tail: Vec<(i64, i64)> = Vec::new();
        let ghost base = out@;
        while out.len() > 0 && out[out.len() - 1].0 > x.0
            invariant
                insert_span(base, x) == insert_span(out@, x) + tail@.reverse(),
            decreases out.len(),
        {
            let ghost o = out@;
            let y = out.pop().unwrap();
            assert(o.drop_last() =~= out@);
            assert(insert_span(o, x) == insert_span(out@, x).push(y));
            let ghost t = tail@;
            tail.push(y);
            assert(tail@.reverse() =~= seq![y] + t.reverse());
            assert(insert_span(out@, x).push(y) + t.reverse() =~= insert_span(out@, x) + (seq![y]
                + t.reverse()));
        }
        assert(insert_span(out@, x) =~= out@.push(x));
        out.push(x);
        while tail.len() > 0
            invariant
                insert_span(base, x) == out@ + tail@.reverse(),
            decreases tail.len(),
        {
            let ghost t = tail@;
            let y = tail.pop().unwrap();
            assert(t =~= tail@.push(y));
            assert(t.reverse() =~= seq![y] + tail@.reverse());
            let ghost o = out@;
            out.push(y);
            assert(o + (seq![y] + tail@.reverse()) =~= out@ + tail@.reverse());
        }
        assert(out@ =~= insert_span(base, x));
        i = i + 1;
    }
    assert(v@.subrange(0, v.len() as int) =~= v@);
    out
}

/// Spans in non-decreasing order of start.
pub open spec fn starts_ascending(s: Seq<(i64, i64)>) -> bool {
    forall|i: int, j: int| 0 <= i <= j < s.len() ==> s[i].0 <= s[j].0
}

proof fn lemma_insert_span(s: Seq<(i64, i64)>, x: (i64, i64))
    requires
        starts_ascending(s),
    ensures
        starts_ascending(insert_span(s, x)),
        insert_span(s, x).to_multiset() == s.to_multiset().insert(x),
    decreases s.len(),
{
    broadcast use vstd::seq_lib::group_to_multiset_ensures;
    if s.len() == 0 {
        assert(seq![x] =~= Seq::<(i64, i64)>::empty().push(x));
    } else if s.last().0 <= x.0 {
    } else {
        let t = s.drop_last();
        lemma_insert_span(t, x);
        let it = insert_span(t, x);
        assert(s =~= t.push(s.last()));
        assert forall|i: int| 0 <= i < it.len() implies (#[trigger] it[i]).0 <= s.last().0 by {
            assert(it.to_multiset().count(it[i]) > 0);
            assert(t.to_multiset().insert(x).count(it[i]) > 0);
            if it[i] != x {
                assert(t.to_multiset().count(it[i]) > 0);
                assert(t.contains(it[i]));
                let k = choose|k: int| 0 <= k < t.len() && t[k] == it[i];
                assert(s[k] == t[k]);
            }
        }
        assert(s.to_multiset() =~= t.to_multiset().insert(s.last()));
    }
}

/// The span sort orders by start and keeps every span.
pub proof fn lemma_sort_spans(s: Seq<(i64, i64)>)
    ensures
        starts_ascending(sort_spans_spec(s)),
        sort_spans_spec(s).to_multiset() == s.to_multiset(),
    decreases s.len(),
{
    broadcast use vstd::seq_lib::group_to_multiset_ensures;
    if s.len() > 0 {
        lemma_sort_spans(s.drop_last());
        lemma_insert_span(sort_spans_spec(s.drop_last()), s.last());
        assert(s =~= s.drop_last().push(s.last()));
    }
}

} // verus!
