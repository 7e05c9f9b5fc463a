//! Sorting of line numbers and coalescing them into contiguous ranges.

use vstd::prelude::*;
use vstd::seq_lib::lemma_sorted_unique;
use vstd::relations::{sorted_by, total_ordering};
use crate::helpers::{DiffHunk, spec_lines_in_same_hunk, lines_in_same_hunk};

verus! {

/// Ascending order (duplicates allowed) on a sequence of line numbers.
pub open spec fn sorted_lines(s: Seq<u32>) -> bool {
    forall|i: int, j: int| 0 <= i < j < s.len() ==> #[trigger] s[i] <= #[trigger] s[j]
}

/// The ordering used to sort line numbers.
pub open spec fn lines_leq() -> spec_fn(u32, u32) -> bool {
    |a: u32, b: u32| a <= b
}

/// The ascending rearrangement of a sequence of line numbers.
pub open spec fn sort_seq(s: Seq<u32>) -> Seq<u32> {
    s.sort_by(lines_leq())
}

proof fn lemma_lines_leq_total()
    ensures
        total_ordering(lines_leq()),
{
}

/// Sorting keeps the length.
pub proof fn lemma_sort_seq_len(s: Seq<u32>)
    ensures
        sort_seq(s).len() == s.len(),
{
    lemma_lines_leq_total();
    s.lemma_sort_by_ensures(lines_leq());
    s.to_multiset_ensures();
    sort_seq(s).to_multiset_ensures();
}

/// Adjacent duplicates of a sorted sequence removed: each value kept once,
/// order preserved.
pub open spec fn dedup_sorted(s: Seq<u32>) -> Seq<u32>
    decreases s.len(),
{
    if s.len() == 0 {
        Seq::empty()
    } else {
        let pre = dedup_sorted(s.drop_last());
        if pre.len() > 0 && pre.last() == s.last() {
            pre
        } else {
            pre.push(s.last())
        }
    }
}

/// The ascending, duplicate-free rearrangement of a sequence of line
/// numbers.
pub open spec fn sort_dedup(s: Seq<u32>) -> Seq<u32> {
    dedup_sorted(sort_seq(s))
}

proof fn lemma_dedup_sorted_empty(s: Seq<u32>)
    ensures
        dedup_sorted(s).len() == 0 <==> s.len() == 0,
    decreases s.len(),
{
}

/// Sorting and deduplicating empties a sequence exactly when it was empty.
pub proof fn lemma_sort_dedup_empty(s: Seq<u32>)
    ensures
        sort_dedup(s).len() == 0 <==> s.len() == 0,
{
    lemma_sort_seq_len(s);
    lemma_dedup_sorted_empty(sort_seq(s));
}

/// Sort a sequence of line numbers ascending and drop duplicates.
pub fn sort_dedup_lines(v: &Vec<u32>) -> (r: Vec<u32>)
    ensures
        r@ == sort_dedup(v@),
{
    let sorted: Vec<u32> = sort_lines(v);
    let mut r: Vec<u32> = Vec::new();
    for i in 0..sorted.len()
        invariant
            sorted@ == sort_seq(v@),
            r@ == dedup_sorted(sorted@.subrange(0, i as int)),
    {
        let x: u32 = sorted[i];
        let n: usize = r.len();
        if n == 0 || r[n - 1] != x {
            r.push(x);
        }
        proof {
            assert(sorted@.subrange(0, i + 1 as int).drop_last() =~= sorted@.subrange(0, i as int));
            assert(sorted@.subrange(0, i + 1 as int).last() == sorted@[i as int]);
        }
    }
    proof {
        assert(sorted@.subrange(0, sorted@.len() as int) =~= sorted@);
    }
    r
}

/// Inserting an element anywhere in a sequence adds it to the multiset.
proof fn lemma_insert_to_multiset(s: Seq<u32>, p: int, x: u32)
    requires
        0 <= p <= s.len(),
    ensures
        s.insert(p, x).to_multiset() == s.to_multiset().insert(x),
{
    let t = s.insert(p, x);
    t.to_multiset_ensures();
    assert(t.remove(p) =~= s);
    assert(t[p] == x);
    assert(s.to_multiset() == t.to_multiset().remove(x));
    assert(t.to_multiset().count(x) > 0) by {
        assert(t.contains(x));
    }
    assert(t.to_multiset() =~= s.to_multiset().insert(x));
}

/// Sort a sequence of line numbers ascending.
pub fn sort_lines(v: &Vec<u32>) -> (r: Vec<u32>)
    ensures
        r@ == sort_seq(v@),
        sorted_lines(r@),
        r@.to_multiset() == v@.to_multiset(),
        r@.len() == v@.len(),
{
    let mut r: Vec<u32> = Vec::new();
    proof {
        Seq::<u32>::empty().to_multiset_ensures();
        assert(v@.subrange(0, 0) =~= Seq::<u32>::empty());
    }
    for idx in 0..v.len()
        invariant
            sorted_lines(r@),
            r@.to_multiset() == v@.subrange(0, idx as int).to_multiset(),
    {
        let x: u32 = v[idx];
        let mut p: usize = 0;
        while p < r.len() && r[p] <= x
            invariant
                p <= r@.len(),
                forall|k: int| 0 <= k < p ==> #[trigger] r@[k] <= x,
            decreases r@.len() - p,
        {
            p += 1;
        }
        let ghost old_r = r@;
        r.insert(p, x);
        proof {
            assert forall|i: int, j: int| 0 <= i < j < r@.len() implies #[trigger] r@[i]
                <= #[trigger] r@[j] by {
                if j < p {
                    assert(r@[i] == old_r[i] && r@[j] == old_r[j]);
                } else if i > p {
                    assert(r@[i] == old_r[i - 1] && r@[j] == old_r[j - 1]);
                } else if j == p {
                    assert(r@[j] == x && r@[i] == old_r[i]);
                } else if i == p {
                    assert(r@[i] == x && r@[j] == old_r[j - 1]);
                    assert(!(old_r[j - 1] <= x));
                } else {
                    assert(i < p && j > p);
                    assert(r@[i] == old_r[i] && r@[j] == old_r[j - 1]);
                    assert(!(old_r[j - 1] <= x));
                }
            }
            lemma_insert_to_multiset(old_r, p as int, x);
            old_r.to_multiset_ensures();
            v@.subrange(0, idx as int).to_multiset_ensures();
            assert(v@.subrange(0, idx + 1 as int).drop_last() =~= v@.subrange(0, idx as int));
            v@.subrange(0, idx + 1 as int).to_multiset_ensures();
            assert(v@.subrange(0, idx + 1 as int) =~= v@.subrange(0, idx as int).push(
                v@[idx as int],
            ));
        }
    }
    proof {
        assert(v@.subrange(0, v@.len() as int) =~= v@);
        lemma_lines_leq_total();
        v@.lemma_sort_by_ensures(lines_leq());
        assert(sorted_by(r@, lines_leq())) by {
            assert(forall|i: int, j: int|
                0 <= i < j < r@.len() ==> #[trigger] lines_leq()(r@[i], r@[j]));
        }
        lemma_sorted_unique(r@, sort_seq(v@), lines_leq());
        r@.to_multiset_ensures();
        v@.to_multiset_ensures();
        sort_seq(v@).to_multiset_ensures();
    }
    r
}

/// One fold step of the adjacency coalescer: skip a value the last range
/// already covers, extend the last range by one when the value is adjacent
/// to its end, and open a fresh range otherwise. A value of zero never
/// extends (there is no range ending just below it).
pub open spec fn coalesce_step(acc: Seq<(u32, u32)>, v: u32) -> Seq<(u32, u32)> {
    if acc.len() > 0 && v <= acc.last().1 {
        acc
    } else if acc.len() > 0 && v > 0 && acc.last().1 == v - 1 {
        acc.update(acc.len() - 1, (acc.last().0, v))
    } else {
        acc.push((v, v))
    }
}

/// Fold the adjacency coalescer over an already sorted sequence.
pub open spec fn coalesce_runs(s: Seq<u32>) -> Seq<(u32, u32)>
    decreases s.len(),
{
    if s.len() == 0 {
        Seq::empty()
    } else {
        coalesce_step(coalesce_runs(s.drop_last()), s.last())
    }
}

/// What `gather_lines` returns: the maximal runs of consecutive integers
/// among the input values, sorted ascending, as inclusive ranges.
pub open spec fn gather_spec(s: Seq<u32>) -> Seq<(u32, u32)> {
    coalesce_runs(sort_seq(s))
}

/// Coalesce line numbers (in any order, duplicates allowed) into sorted,
/// inclusive ranges of consecutive values.
pub fn gather_lines(lines: &Vec<u32>) -> (r: Vec<(u32, u32)>)
    ensures
        r@ == gather_spec(lines@),
{
    let sorted: Vec<u32> = sort_lines(lines);
    let mut acc: Vec<(u32, u32)> = Vec::new();
    for i in 0..sorted.len()
        invariant
            acc@ == coalesce_runs(sorted@.subrange(0, i as int)),
            sorted@ == sort_seq(lines@),
    {
        let v: u32 = sorted[i];
        let n: usize = acc.len();
        if n > 0 {
            let last: (u32, u32) = acc[n - 1];
            if v <= last.1 {
                // already covered
            } else if v > 0 && last.1 == v - 1 {
                let _ = acc.pop();
                acc.push((last.0, v));
                proof {
                    assert(acc@ =~= coalesce_step(
                        coalesce_runs(sorted@.subrange(0, i as int)),
                        v,
                    ));
                }
            } else {
                acc.push((v, v));
            }
        } else {
            acc.push((v, v));
        }
        proof {
            assert(sorted@.subrange(0, i + 1 as int).drop_last() =~= sorted@.subrange(0, i as int));
            assert(sorted@.subrange(0, i + 1 as int).last() == sorted@[i as int]);
        }
    }
    proof {
        assert(sorted@.subrange(0, sorted@.len() as int) =~= sorted@);
    }
    acc
}

/// Some range of the list covers the value.
pub open spec fn covers(rs: Seq<(u32, u32)>, x: u32) -> bool {
    exists|i: int| 0 <= i < rs.len() && (#[trigger] rs[i]).0 <= x <= rs[i].1
}

/// The adjacency coalescer's output on sorted input is canonical: each
/// range runs upward, consecutive ranges leave a gap of at least one
/// value, the covered values are exactly the input values, and the last
/// range ends on the last input value.
pub proof fn lemma_coalesce_runs_canonical(s: Seq<u32>)
    requires
        sorted_lines(s),
    ensures
        ({
            let rs = coalesce_runs(s);
            &&& forall|i: int| 0 <= i < rs.len() ==> (#[trigger] rs[i]).0 <= rs[i].1
            &&& forall|i: int|
                0 <= i < rs.len() - 1 ==> (#[trigger] rs[i]).1 + 1 < rs[i + 1].0
            &&& forall|x: u32| covers(rs, x) <==> s.contains(x)
            &&& (rs.len() > 0 <==> s.len() > 0)
            &&& (s.len() > 0 ==> rs.last().1 == s.last())
        }),
    decreases s.len(),
{
    if s.len() > 0 {
        let pre = s.drop_last();
        let v = s.last();
        assert forall|i: int, j: int| 0 <= i < j < pre.len() implies #[trigger] pre[i]
            <= #[trigger] pre[j] by {
            assert(pre[i] == s[i] && pre[j] == s[j]);
        }
        lemma_coalesce_runs_canonical(pre);
        let prev = coalesce_runs(pre);
        let rs = coalesce_runs(s);
        assert(rs == coalesce_step(prev, v));
        assert forall|x: u32| pre.contains(x) implies s.contains(x) && x <= v by {
            let k = choose|k: int| 0 <= k < pre.len() && pre[k] == x;
            assert(s[k] == x);
        }
        assert(s.contains(v)) by {
            assert(s[s.len() - 1] == v);
        }
        assert forall|x: u32| s.contains(x) implies pre.contains(x) || x == v by {
            let k = choose|k: int| 0 <= k < s.len() && s[k] == x;
            if k < s.len() - 1 {
                assert(pre[k] == x);
            }
        }
        if prev.len() > 0 && v <= prev.last().1 {
            // sorted input makes the skipped value the last range's end
            assert(pre.len() > 0 && prev.last().1 == pre.last());
            assert(pre.contains(pre.last())) by {
                assert(pre[pre.len() - 1] == pre.last());
            }
            assert(pre.last() <= v);
            assert(v == prev.last().1);
            assert(rs == prev);
            assert(covers(rs, v)) by {
                assert((rs[rs.len() - 1]).0 <= v <= rs[rs.len() - 1].1);
            }
        } else if prev.len() > 0 && v > 0 && prev.last().1 == v - 1 {
            let li = prev.len() - 1;
            assert(rs == prev.update(li, (prev.last().0, v)));
            assert(rs.len() == prev.len());
            assert(forall|i: int| 0 <= i < li ==> rs[i] == prev[i]);
            assert(rs[li] == (prev.last().0, v));
            assert forall|x: u32| covers(rs, x) implies pre.contains(x) || x == v by {
                let i = choose|i: int| 0 <= i < rs.len() && (#[trigger] rs[i]).0 <= x <= rs[i].1;
                if i < li {
                    assert(covers(prev, x)) by {
                        assert((prev[i]).0 <= x <= prev[i].1);
                    }
                } else if x != v {
                    assert(x <= v - 1);
                    assert(covers(prev, x)) by {
                        assert((prev[li]).0 <= x <= prev[li].1);
                    }
                }
            }
            assert forall|x: u32| pre.contains(x) || x == v implies covers(rs, x) by {
                if x == v {
                    assert((rs[li]).0 <= x <= rs[li].1);
                } else {
                    assert(covers(prev, x));
                    let i = choose|i: int|
                        0 <= i < prev.len() && (#[trigger] prev[i]).0 <= x <= prev[i].1;
                    assert((rs[i]).0 <= x <= rs[i].1);
                }
            }
        } else {
            assert(rs == prev.push((v, v)));
            if prev.len() > 0 {
                // a fresh range opens only past a gap
                assert(prev.last().1 == pre.last());
                assert(pre.contains(pre.last())) by {
                    assert(pre[pre.len() - 1] == pre.last());
                }
                assert(pre.last() <= v);
                assert(v > prev.last().1);
                assert(prev.last().1 != v - 1);
                assert(prev.last().1 + 1 < v);
            }
            assert forall|x: u32| covers(rs, x) implies pre.contains(x) || x == v by {
                let i = choose|i: int| 0 <= i < rs.len() && (#[trigger] rs[i]).0 <= x <= rs[i].1;
                if i < rs.len() - 1 {
                    assert(covers(prev, x)) by {
                        assert((prev[i]).0 <= x <= prev[i].1);
                    }
                }
            }
            assert forall|x: u32| pre.contains(x) || x == v implies covers(rs, x) by {
                if x == v {
                    assert((rs[rs.len() - 1]).0 <= x <= rs[rs.len() - 1].1);
                } else {
                    assert(covers(prev, x));
                    let i = choose|i: int|
                        0 <= i < prev.len() && (#[trigger] prev[i]).0 <= x <= prev[i].1;
                    assert((rs[i]).0 <= x <= rs[i].1);
                }
            }
        }
    }
}

/// Law: the values covered by the adjacency coalescer's output are
/// exactly the input values — whatever their order and multiplicity.
pub proof fn lemma_gather_total(x: Seq<u32>)
    ensures
        forall|v: u32| covers(gather_spec(x), v) <==> x.contains(v),
{
    let s = sort_seq(x);
    lemma_lines_leq_total();
    x.lemma_sort_by_ensures(lines_leq());
    assert forall|i: int, j: int| 0 <= i < j < s.len() implies #[trigger] s[i]
        <= #[trigger] s[j] by {
        assert(lines_leq()(s[i], s[j]));
    }
    lemma_coalesce_runs_canonical(s);
    x.to_multiset_ensures();
    s.to_multiset_ensures();
    assert forall|v: u32| s.contains(v) <==> x.contains(v) by {
        assert(s.contains(v) <==> s.to_multiset().count(v) > 0);
        assert(x.contains(v) <==> x.to_multiset().count(v) > 0);
    }
}

/// Folding the adjacency coalescer from an accumulator.
pub open spec fn coalesce_from(acc: Seq<(u32, u32)>, s: Seq<u32>) -> Seq<(u32, u32)>
    decreases s.len(),
{
    if s.len() == 0 {
        acc
    } else {
        coalesce_step(coalesce_from(acc, s.drop_last()), s.last())
    }
}

/// Folding a concatenation is folding the two parts in turn.
pub proof fn lemma_coalesce_split(s1: Seq<u32>, s2: Seq<u32>)
    ensures
        coalesce_runs(s1 + s2) == coalesce_from(coalesce_runs(s1), s2),
    decreases s2.len(),
{
    if s2.len() == 0 {
        assert(s1 + s2 =~= s1);
        assert(coalesce_from(coalesce_runs(s1), s2) == coalesce_runs(s1));
    } else {
        lemma_coalesce_split(s1, s2.drop_last());
        assert((s1 + s2).drop_last() =~= s1 + s2.drop_last());
        assert((s1 + s2).last() == s2.last());
    }
}

/// The consecutive run of values from `a` to `b`, inclusive.
pub open spec fn range_seq(a: u32, b: u32) -> Seq<u32>
    recommends
        a <= b,
{
    Seq::new((b - a + 1) as nat, |i: int| (a + i) as u32)
}

/// The values that a range list covers, listed range by range.
pub open spec fn flatten_ranges(rs: Seq<(u32, u32)>) -> Seq<u32>
    decreases rs.len(),
{
    if rs.len() == 0 {
        Seq::empty()
    } else {
        flatten_ranges(rs.drop_last()) + range_seq(rs.last().0, rs.last().1)
    }
}

/// Flattening a canonical range list yields a sorted value list bounded
/// by the last range's end.
proof fn lemma_flatten_props(rs: Seq<(u32, u32)>)
    requires
        forall|i: int| 0 <= i < rs.len() ==> (#[trigger] rs[i]).0 <= rs[i].1,
        forall|i: int| 0 <= i < rs.len() - 1 ==> (#[trigger] rs[i]).1 + 1 < rs[i + 1].0,
    ensures
        sorted_lines(flatten_ranges(rs)),
        rs.len() > 0 ==> forall|k: int|
            0 <= k < flatten_ranges(rs).len() ==> #[trigger] flatten_ranges(rs)[k]
                <= rs.last().1,
    decreases rs.len(),
{
    if rs.len() > 0 {
        let pre = rs.drop_last();
        assert(forall|i: int| 0 <= i < pre.len() ==> pre[i] == rs[i]);
        lemma_flatten_props(pre);
        let f0 = flatten_ranges(pre);
        let (a, b) = rs.last();
        let run = range_seq(a, b);
        let f = flatten_ranges(rs);
        assert(f == f0 + run);
        assert forall|k: int| 0 <= k < run.len() implies a <= #[trigger] run[k] <= b by {
        }
        if pre.len() > 0 {
            assert(pre.last().1 + 1 < a) by {
                assert(rs[rs.len() - 2].1 + 1 < rs[rs.len() - 1].0);
            }
        }
        assert forall|i: int, j: int| 0 <= i < j < f.len() implies #[trigger] f[i]
            <= #[trigger] f[j] by {
            if j < f0.len() {
                assert(f[i] == f0[i] && f[j] == f0[j]);
            } else if i >= f0.len() {
                assert(f[i] == run[i - f0.len()] && f[j] == run[j - f0.len()]);
            } else {
                assert(f[i] == f0[i] && f[j] == run[j - f0.len()]);
                assert(f0[i] <= pre.last().1);
                assert(a <= run[j - f0.len()]);
            }
        }
        assert forall|k: int| 0 <= k < f.len() implies #[trigger] f[k] <= rs.last().1 by {
            if k < f0.len() {
                assert(f[k] == f0[k]);
                assert(f0[k] <= pre.last().1);
            } else {
                assert(f[k] == run[k - f0.len()]);
            }
        }
    }
}

/// Folding a gapped run onto an accumulator appends it as one range.
proof fn lemma_coalesce_range(acc: Seq<(u32, u32)>, a: u32, b: u32)
    requires
        a <= b,
        acc.len() > 0 ==> acc.last().1 + 1 < a,
    ensures
        coalesce_from(acc, range_seq(a, b)) == acc.push((a, b)),
    decreases b - a,
{
    if a == b {
        let run = range_seq(a, b);
        assert(run.len() == 1 && run[0] == a);
        assert(run.drop_last() =~= Seq::<u32>::empty());
        assert(coalesce_from(acc, Seq::<u32>::empty()) == acc);
        assert(coalesce_from(acc, run) == coalesce_step(acc, a));
        assert(coalesce_step(acc, a) =~= acc.push((a, a)));
    } else {
        lemma_coalesce_range(acc, a, (b - 1) as u32);
        let run = range_seq(a, b);
        let shorter = range_seq(a, (b - 1) as u32);
        assert(run.drop_last() =~= shorter);
        assert(run.last() == b);
        assert(coalesce_from(acc, run) == coalesce_step(acc.push((a, (b - 1) as u32)), b));
        assert(coalesce_step(acc.push((a, (b - 1) as u32)), b) =~= acc.push((a, b)));
    }
}

/// Re-coalescing the flattened values of a canonical range list gives
/// the list back.
proof fn lemma_coalesce_flatten(rs: Seq<(u32, u32)>)
    requires
        forall|i: int| 0 <= i < rs.len() ==> (#[trigger] rs[i]).0 <= rs[i].1,
        forall|i: int| 0 <= i < rs.len() - 1 ==> (#[trigger] rs[i]).1 + 1 < rs[i + 1].0,
    ensures
        coalesce_runs(flatten_ranges(rs)) == rs,
    decreases rs.len(),
{
    if rs.len() == 0 {
        assert(coalesce_runs(flatten_ranges(rs)) =~= rs);
    } else {
        let pre = rs.drop_last();
        assert(forall|i: int| 0 <= i < pre.len() ==> pre[i] == rs[i]);
        lemma_coalesce_flatten(pre);
        let (a, b) = rs.last();
        lemma_coalesce_split(flatten_ranges(pre), range_seq(a, b));
        if pre.len() > 0 {
            assert(pre.last().1 + 1 < a) by {
                assert(rs[rs.len() - 2].1 + 1 < rs[rs.len() - 1].0);
            }
        }
        lemma_coalesce_range(pre, a, b);
        assert(pre.push((a, b)) =~= rs);
    }
}

/// Sorting a sorted sequence changes nothing.
pub proof fn lemma_sort_seq_fixed(s: Seq<u32>)
    requires
        sorted_lines(s),
    ensures
        sort_seq(s) == s,
{
    lemma_lines_leq_total();
    s.lemma_sort_by_ensures(lines_leq());
    assert(sorted_by(s, lines_leq())) by {
        assert(forall|i: int, j: int|
            0 <= i < j < s.len() ==> #[trigger] lines_leq()(s[i], s[j]));
    }
    assert(sorted_by(sort_seq(s), lines_leq()));
    lemma_sorted_unique(s, sort_seq(s), lines_leq());
}

/// Law: the adjacency coalescer is idempotent — coalescing the values its
/// own output covers gives the same output back.
pub proof fn lemma_gather_idempotent(x: Seq<u32>)
    ensures
        gather_spec(flatten_ranges(gather_spec(x))) == gather_spec(x),
{
    let s = sort_seq(x);
    lemma_lines_leq_total();
    x.lemma_sort_by_ensures(lines_leq());
    assert forall|i: int, j: int| 0 <= i < j < s.len() implies #[trigger] s[i]
        <= #[trigger] s[j] by {
        assert(lines_leq()(s[i], s[j]));
    }
    lemma_coalesce_runs_canonical(s);
    let rs = gather_spec(x);
    lemma_flatten_props(rs);
    lemma_sort_seq_fixed(flatten_ranges(rs));
    lemma_coalesce_flatten(rs);
}

/// One fold step of the hunk-membership coalescer: extend the last range's
/// end to `v` when some single hunk contains both the range's end and `v`;
/// open a fresh range otherwise. Numeric adjacency plays no part here.
pub open spec fn hunk_step(hunks: Seq<DiffHunk>, acc: Seq<(u32, u32)>, v: u32) -> Seq<(u32, u32)> {
    if acc.len() > 0 && spec_lines_in_same_hunk(hunks, acc.last().1 as u64, v as u64) {
        acc.update(acc.len() - 1, (acc.last().0, v))
    } else {
        acc.push((v, v))
    }
}

/// Fold the hunk-membership coalescer over a sequence of line numbers.
pub open spec fn hunk_runs(hunks: Seq<DiffHunk>, s: Seq<u32>) -> Seq<(u32, u32)>
    decreases s.len(),
{
    if s.len() == 0 {
        Seq::empty()
    } else {
        hunk_step(hunks, hunk_runs(hunks, s.drop_last()), s.last())
    }
}

/// Coalesce already attributed line numbers into ranges, merging two lines
/// whenever one hunk's new range contains both. A code-hosting review API
/// takes one contiguous hunk reference per comment, so lines far apart
/// still merge when they share a hunk.
pub fn coalesce_by_hunk(hunks: &Vec<DiffHunk>, lines: &Vec<u32>) -> (r: Vec<(u32, u32)>)
    ensures
        r@ == hunk_runs(hunks@, lines@),
{
    let mut acc: Vec<(u32, u32)> = Vec::new();
    for i in 0..lines.len()
        invariant
            acc@ == hunk_runs(hunks@, lines@.subrange(0, i as int)),
    {
        let v: u32 = lines[i];
        let n: usize = acc.len();
        let mut merged: bool = false;
        if n > 0 {
            let last: (u32, u32) = acc[n - 1];
            if lines_in_same_hunk(hunks, last.1 as u64, v as u64) {
                let _ = acc.pop();
                acc.push((last.0, v));
                merged = true;
                proof {
                    assert(acc@ =~= hunk_step(
                        hunks@,
                        hunk_runs(hunks@, lines@.subrange(0, i as int)),
                        v,
                    ));
                }
            }
        }
        if !merged {
            acc.push((v, v));
        }
        proof {
            assert(lines@.subrange(0, i + 1 as int).drop_last() =~= lines@.subrange(0, i as int));
            assert(lines@.subrange(0, i + 1 as int).last() == lines@[i as int]);
        }
    }
    proof {
        assert(lines@.subrange(0, lines@.len() as int) =~= lines@);
    }
    acc
}

/// Law: every range the hunk-membership coalescer returns starts and ends
/// on input values.
pub proof fn lemma_hunk_runs_endpoints(hunks: Seq<DiffHunk>, s: Seq<u32>)
    ensures
        forall|i: int|
            0 <= i < hunk_runs(hunks, s).len() ==> s.contains(#[trigger] hunk_runs(hunks, s)[i].0)
                && s.contains(hunk_runs(hunks, s)[i].1),
    decreases s.len(),
{
    if s.len() > 0 {
        lemma_hunk_runs_endpoints(hunks, s.drop_last());
        let prev = hunk_runs(hunks, s.drop_last());
        let v = s.last();
        assert(s.contains(v)) by {
            assert(s[s.len() - 1] == v);
        }
        assert forall|x: u32| s.drop_last().contains(x) implies s.contains(x) by {
            let k = choose|k: int| 0 <= k < s.drop_last().len() && s.drop_last()[k] == x;
            assert(s[k] == x);
        }
    }
}

/// Index of the output range of the hunk-membership coalescer that covers
/// the `k`-th input value: the last range for the last value, and otherwise
/// wherever the value's range already stood before the last fold step.
pub open spec fn hunk_runs_index(hunks: Seq<DiffHunk>, s: Seq<u32>, k: int) -> int
    decreases s.len(),
{
    if s.len() == 0 {
        0
    } else if k >= s.len() - 1 {
        hunk_runs(hunks, s).len() - 1
    } else {
        hunk_runs_index(hunks, s.drop_last(), k)
    }
}

/// Law: with ascending input, every input value lies inside the output
/// range that `hunk_runs_index` points at.
pub proof fn lemma_hunk_runs_covers(hunks: Seq<DiffHunk>, s: Seq<u32>)
    requires
        sorted_lines(s),
    ensures
        forall|k: int|
            0 <= k < s.len() ==> {
                let w = #[trigger] hunk_runs_index(hunks, s, k);
                0 <= w < hunk_runs(hunks, s).len() && hunk_runs(hunks, s)[w].0 <= s[k]
                    <= hunk_runs(hunks, s)[w].1
            },
    decreases s.len(),
{
    if s.len() > 0 {
        let pre = s.drop_last();
        let prev = hunk_runs(hunks, pre);
        let out = hunk_runs(hunks, s);
        let v = s.last();
        assert forall|i: int, j: int| 0 <= i < j < pre.len() implies #[trigger] pre[i]
            <= #[trigger] pre[j] by {
            assert(pre[i] == s[i] && pre[j] == s[j]);
        }
        lemma_hunk_runs_covers(hunks, pre);
        lemma_hunk_runs_endpoints(hunks, pre);
        let merged = prev.len() > 0 && spec_lines_in_same_hunk(
            hunks,
            prev.last().1 as u64,
            v as u64,
        );
        if merged {
            assert(pre.contains(prev.last().0));
            let w0 = choose|w0: int| 0 <= w0 < pre.len() && pre[w0] == prev.last().0;
            assert(pre[w0] == s[w0] && s[w0] <= v);
            assert(out.last().0 == prev.last().0 && out.last().1 == v);
        }
        assert forall|k: int| 0 <= k < s.len() implies {
            let w = #[trigger] hunk_runs_index(hunks, s, k);
            0 <= w < out.len() && out[w].0 <= s[k] <= out[w].1
        } by {
            if k == s.len() - 1 {
                assert(hunk_runs_index(hunks, s, k) == out.len() - 1);
            } else {
                let w = hunk_runs_index(hunks, pre, k);
                assert(hunk_runs_index(hunks, s, k) == w);
                assert(0 <= w < prev.len() && prev[w].0 <= pre[k] <= prev[w].1);
                assert(pre[k] == s[k]);
                if merged && w == prev.len() - 1 {
                    assert(out[w].0 == prev[w].0 && out[w].1 == v);
                    assert(s[k] <= v);
                } else {
                    assert(out[w] == prev[w]);
                }
            }
        }
    }
}

} // verus!
