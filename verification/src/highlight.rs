//! Turning matched character positions into contiguous highlight runs.

use core::ops::RangeInclusive;
use vstd::prelude::*;
use vstd::std_specs::range::RangeInclusiveView;

verus! {

/// The run that covers `first..=last`.
pub open spec fn run(first: usize, last: usize) -> RangeInclusiveView<usize> {
    RangeInclusiveView { start: first, end: last, exhausted: false }
}

/// Whether position `i` of `s` opens a new run: it is the first position, or
/// it does not directly continue the position before it.
pub open spec fn starts_run(s: Seq<usize>, i: int) -> bool {
    i == 0 || s[i] < s[i - 1] || s[i] - s[i - 1] > 1
}

/// The highlight runs of a sequence of positions: each position either
/// extends the run before it by one or by nothing, or opens a run of its own.
pub open spec fn coalesce(s: Seq<usize>) -> Seq<RangeInclusiveView<usize>>
    decreases s.len(),
{
    if s.len() == 0 {
        Seq::empty()
    } else {
        let head = coalesce(s.drop_last());
        if starts_run(s, s.len() - 1) {
            head.push(run(s.last(), s.last()))
        } else {
            head.drop_last().push(run(head.last().start, s.last()))
        }
    }
}

/// The views of a sequence of inclusive ranges.
pub open spec fn runs_view(v: Seq<RangeInclusive<usize>>) -> Seq<RangeInclusiveView<usize>> {
    Seq::new(v.len(), |k: int| v[k]@)
}

/// No position is less than one before it.
pub open spec fn ascending(s: Seq<usize>) -> bool {
    forall|i: int, j: int| 0 <= i <= j < s.len() ==> s[i] <= s[j]
}

/// Whether one of the runs holds position `x`.
pub open spec fn covers(runs: Seq<RangeInclusiveView<usize>>, x: usize) -> bool {
    exists|k: int| 0 <= k < runs.len() && (#[trigger] runs[k]).start <= x <= runs[k].end
}

/// Each position is strictly greater than the one before it.
pub open spec fn strictly_ascending(s: Seq<usize>) -> bool {
    forall|i: int, j: int| 0 <= i < j < s.len() ==> s[i] < s[j]
}

/// The positions `first, first + 1, .., last`.
pub open spec fn span(r: RangeInclusiveView<usize>) -> Seq<usize> {
    Seq::new((r.end - r.start + 1) as nat, |i: int| (r.start + i) as usize)
}

/// All positions that the runs cover, run after run.
pub open spec fn expand(runs: Seq<RangeInclusiveView<usize>>) -> Seq<usize>
    decreases runs.len(),
{
    if runs.len() == 0 {
        Seq::empty()
    } else {
        expand(runs.drop_last()) + span(runs.last())
    }
}

/// Runs are proper (first position at most the last, not exhausted), come in
/// ascending order and leave at least one position free between neighbours.
pub open spec fn separated(runs: Seq<RangeInclusiveView<usize>>) -> bool {
    &&& forall|k: int|
        0 <= k < runs.len() ==> (#[trigger] runs[k]).start <= runs[k].end && !runs[k].exhausted
    &&& forall|k: int|
        0 <= k < runs.len() - 1 ==> (#[trigger] runs[k]).end + 1 < runs[k + 1].start
}

/// A position lies in the runs with one more run at their end exactly if it
/// lies in the runs before or in that run.
proof fn lemma_covers_push(
    runs: Seq<RangeInclusiveView<usize>>,
    r: RangeInclusiveView<usize>,
    x: usize,
)
    ensures
        covers(runs.push(r), x) <==> (covers(runs, x) || r.start <= x <= r.end),
{
    let out = runs.push(r);
    if covers(runs, x) {
        let k = choose|k: int| 0 <= k < runs.len() && (#[trigger] runs[k]).start <= x <= runs[k].end;
        assert(out[k] == runs[k]);
    }
    if r.start <= x <= r.end {
        assert(out[runs.len() as int] == r);
    }
    if covers(out, x) {
        let k = choose|k: int| 0 <= k < out.len() && (#[trigger] out[k]).start <= x <= out[k].end;
        if k < runs.len() {
            assert(runs[k] == out[k]);
        }
    }
}

/// A value occurs in a sequence with one more element at its end exactly if
/// it occurs before or is that element.
proof fn lemma_contains_push(front: Seq<usize>, last: usize, x: usize)
    ensures
        front.push(last).contains(x) <==> (front.contains(x) || x == last),
{
    let s = front.push(last);
    if front.contains(x) {
        let i = choose|i: int| 0 <= i < front.len() && front[i] == x;
        assert(s[i] == x);
    }
    if x == last {
        assert(s[front.len() as int] == x);
    }
    if s.contains(x) {
        let i = choose|i: int| 0 <= i < s.len() && s[i] == x;
        if i < front.len() {
            assert(front[i] == x);
        }
    }
}

/// For ascending positions the runs are separated, and a position lies in one
/// of them exactly if it is one of the positions given.
pub proof fn lemma_coalesce_covers(s: Seq<usize>)
    requires
        ascending(s),
    ensures
        separated(coalesce(s)),
        forall|x: usize| covers(coalesce(s), x) <==> s.contains(x),
        s.len() > 0 ==> coalesce(s).len() > 0 && coalesce(s).last().end == s.last(),
        s.len() == 0 ==> coalesce(s).len() == 0,
    decreases s.len(),
{
    if s.len() > 0 {
        let front = s.drop_last();
        lemma_coalesce_covers(front);
        let head = coalesce(front);
        let last = s.last();
        let out = coalesce(s);
        assert(front.push(last) == s);
        if front.len() > 0 {
            assert(front.last() == s[s.len() - 2]);
        }
        if starts_run(s, s.len() - 1) {
            assert(out == head.push(run(last, last)));
            assert forall|k: int| 0 <= k < out.len() - 1 implies (#[trigger] out[k]).end + 1
                < out[k + 1].start by {
                assert(out[k] == head[k]);
                if k < out.len() - 2 {
                    assert(out[k + 1] == head[k + 1]);
                }
            }
            assert forall|x: usize| covers(out, x) <==> s.contains(x) by {
                lemma_covers_push(head, run(last, last), x);
                lemma_contains_push(front, last, x);
            }
        } else {
            let prev = head.last();
            let rest = head.drop_last();
            let grown = run(prev.start, last);
            assert(out == rest.push(grown));
            assert(head == rest.push(prev));
            assert(prev == head[head.len() - 1]);
            assert forall|k: int| 0 <= k < out.len() implies (#[trigger] out[k]).start
                <= out[k].end && !out[k].exhausted by {
                if k < out.len() - 1 {
                    assert(out[k] == head[k]);
                }
            }
            assert forall|k: int| 0 <= k < out.len() - 1 implies (#[trigger] out[k]).end + 1
                < out[k + 1].start by {
                assert(out[k] == head[k]);
                if k < out.len() - 2 {
                    assert(out[k + 1] == head[k + 1]);
                } else {
                    assert(out[k + 1].start == head[k + 1].start);
                }
            }
            assert forall|x: usize| covers(out, x) <==> s.contains(x) by {
                lemma_covers_push(rest, grown, x);
                lemma_covers_push(rest, prev, x);
                lemma_contains_push(front, last, x);
                if x == last {
                    assert(grown.start <= x <= grown.end);
                }
            }
        }
    } else {
        assert forall|x: usize| covers(coalesce(s), x) <==> s.contains(x) by {}
    }
}

/// For strictly ascending positions the runs, laid out position by position,
/// give back exactly the positions, in order.
pub proof fn lemma_coalesce_expands(s: Seq<usize>)
    requires
        strictly_ascending(s),
    ensures
        expand(coalesce(s)) == s,
    decreases s.len(),
{
    if s.len() > 0 {
        let front = s.drop_last();
        lemma_coalesce_expands(front);
        lemma_coalesce_covers(front);
        let head = coalesce(front);
        let x = s.last();
        assert(front.push(x) == s);
        if starts_run(s, s.len() - 1) {
            let out = head.push(run(x, x));
            assert(out.drop_last() == head);
            assert(span(run(x, x)) == seq![x]);
        } else {
            let prev = head.last();
            let grown = run(prev.start, x);
            let out = head.drop_last().push(grown);
            assert(front.last() == s[s.len() - 2]);
            assert(prev == head[head.len() - 1]);
            assert(x == prev.end + 1);
            assert(out.drop_last() == head.drop_last());
            assert(span(grown) == span(prev).push(x));
            assert(expand(head) == expand(head.drop_last()) + span(prev));
            assert(expand(out) == expand(head.drop_last()) + span(grown));
            assert(expand(out) == expand(head).push(x));
        }
    }
}

/// Coalesces matched positions into inclusive ranges: a position that is one
/// more than (or equal to) the one before it continues the current range, any
/// other opens a new one.
pub fn runs_to_ranges(indices: Vec<usize>) -> (ranges: Vec<RangeInclusive<usize>>)
    ensures
        runs_view(ranges@) == coalesce(indices@),
        ascending(indices@) ==> separated(runs_view(ranges@)) && forall|x: usize|
            covers(runs_view(ranges@), x) <==> indices@.contains(x),
        strictly_ascending(indices@) ==> expand(runs_view(ranges@)) == indices@,
{
    let mut ranges: Vec<RangeInclusive<usize>> = Vec::new();
    if indices.len() == 0 {
        assert(runs_view(ranges@) == coalesce(indices@));
        proof {
            lemma_coalesce_expands(indices@);
            lemma_coalesce_covers(indices@);
        }
        return ranges;
    }
    let mut left: usize = indices[0];
    let mut right: usize = indices[0];
    let mut i: usize = 1;
    proof {
        let one = indices@.take(1);
        assert(one.drop_last() == Seq::<usize>::empty());
        assert(coalesce(one.drop_last()) == Seq::<RangeInclusiveView<usize>>::empty());
        assert(runs_view(ranges@).push(run(left, right)) == coalesce(one));
    }
    while i < indices.len()
        invariant
            1 <= i <= indices.len(),
            right == indices[i - 1],
            runs_view(ranges@).push(run(left, right)) == coalesce(indices@.take(i as int)),
        decreases indices.len() - i,
    {
        let l: usize = indices[i - 1];
        let r: usize = indices[i];
        proof {
            let cur = indices@.take(i + 1);
            assert(cur.drop_last() == indices@.take(i as int));
            assert(starts_run(cur, i as int) == (r < l || r - l > 1));
        }
        let ghost before = runs_view(ranges@);
        if r < l || r - l > 1 {
            ranges.push(RangeInclusive::new(left, right));
            assert(runs_view(ranges@) == before.push(run(left, right)));
            left = r;
            right = r;
        } else {
            assert(before.push(run(left, right)).drop_last() == before);
            right = r;
        }
        i += 1;
    }
    let ghost before = runs_view(ranges@);
    ranges.push(RangeInclusive::new(left, right));
    proof {
        assert(runs_view(ranges@) == before.push(run(left, right)));
        assert(indices@.take(indices.len() as int) == indices@);
        if strictly_ascending(indices@) {
            lemma_coalesce_expands(indices@);
        }
        if ascending(indices@) {
            lemma_coalesce_covers(indices@);
        }
    }
    ranges
}

} // verus!
