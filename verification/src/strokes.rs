//! Lines on the screen: closing outlines, and joining the visible parts of a
//! line.
//!
//! Points are carried along and never read, so they may have any type.

use vstd::prelude::*;

verus! {

/// The points of an outline with its first point again at the end, where it is
/// closed and has two points at least.
pub fn outline_points<P: Copy>(points: Vec<P>, closed: bool) -> (r: Vec<P>)
    ensures
        r@ == outline_of(points@, closed),
{
    let mut r = points;
    if closed && r.len() >= 2 {
        let first = r[0];
        r.push(first);
    }
    r
}

/// The visible part of a segment of a line.
pub struct VisiblePart<P> {
    pub start: P,
    pub end: P,
    /// Whether it starts where the visible part before it ends.
    pub joins: bool,
}

/// The runs that visible parts make up: a part that joins goes on with the run
/// before it, any other begins a new one.
pub open spec fn runs_of<P>(parts: Seq<VisiblePart<P>>) -> Seq<Seq<P>>
    decreases parts.len(),
{
    if parts.len() == 0 {
        Seq::empty()
    } else {
        let before = runs_of(parts.drop_last());
        let part = parts.last();
        if part.joins && before.len() > 0 {
            before.drop_last().push(before.last().push(part.end))
        } else {
            before.push(seq![part.start, part.end])
        }
    }
}

/// The points of each run.
pub open spec fn point_runs<P>(runs: Seq<Vec<P>>) -> Seq<Seq<P>> {
    Seq::new(runs.len(), |i: int| runs[i]@)
}

/// The runs that the visible parts of a line make up.
pub fn join_runs<P: Copy>(parts: &Vec<VisiblePart<P>>) -> (r: Vec<Vec<P>>)
    ensures
        point_runs(r@) == runs_of(parts@),
{
    let mut r: Vec<Vec<P>> = Vec::new();
    let mut i: usize = 0;
    assert(parts@.take(0) =~= Seq::empty());
    assert(point_runs(r@) =~= runs_of(parts@.take(0)));
    while i < parts.len()
        invariant
            i <= parts@.len(),
            point_runs(r@) == runs_of(parts@.take(i as int)),
        decreases parts@.len() - i,
    {
        let ghost before = runs_of(parts@.take(i as int));
        assert(parts@.take(i + 1).drop_last() =~= parts@.take(i as int));
        assert(before.len() == r@.len());
        let part = &parts[i];
        let ghost runs = r@;
        let next = if part.joins {
            match r.pop() {
                Some(run) => {
                    let mut run = run;
                    assert(run@ == point_runs(runs)[runs.len() - 1]);
                    run.push(part.end);
                    run
                },
                None => vec![part.start, part.end],
            }
        } else {
            vec![part.start, part.end]
        };
        r.push(next);
        i = i + 1;
        assert(point_runs(r@) =~= runs_of(parts@.take(i as int))) by {
            if part.joins && before.len() > 0 {
                assert forall|j: int| 0 <= j < runs.len() - 1 implies r@[j] == runs[j] by {}
                assert(before.last() == runs[runs.len() - 1]@);
            } else {
                assert(next@ =~= seq![part.start, part.end]);
            }
        }
    }
    assert(parts@.take(parts@.len() as int) =~= parts@);
    r
}

/// The number of segments in runs.
pub open spec fn segment_count<P>(runs: Seq<Seq<P>>) -> int
    decreases runs.len(),
{
    if runs.len() == 0 {
        0
    } else {
        segment_count(runs.drop_last()) + runs.last().len() - 1
    }
}

/// Joining loses no visible part and adds none: the runs have as many segments as
/// there are parts, and every run has one at least.
pub proof fn lemma_runs<P>(parts: Seq<VisiblePart<P>>)
    ensures
        segment_count(runs_of(parts)) == parts.len(),
        forall|i: int| 0 <= i < runs_of(parts).len() ==> (#[trigger] runs_of(parts)[i]).len() >= 2,
    decreases parts.len(),
{
    if parts.len() > 0 {
        lemma_runs(parts.drop_last());
        let before = runs_of(parts.drop_last());
        let part = parts.last();
        let after = runs_of(parts);
        if part.joins && before.len() > 0 {
            assert(after.drop_last() =~= before.drop_last());
        } else {
            assert(after.drop_last() =~= before);
        }
        assert forall|i: int| 0 <= i < after.len() implies (#[trigger] after[i]).len() >= 2 by {
            if i < after.len() - 1 {
                assert(after[i] == before[i]);
            } else if part.joins && before.len() > 0 {
                assert(before[before.len() - 1].len() >= 2);
            }
        }
    }
}

/// Whether a run has a segment from one point to another.
pub open spec fn has_segment<P>(runs: Seq<Seq<P>>, run: int, k: int, from: P, to: P) -> bool {
    0 <= run < runs.len() && 1 <= k < runs[run].len() && runs[run][k - 1] == from && runs[run][k]
        == to
}

/// Where the segment of a part starts: at its own start, or where it joins at the end
/// of the part before it.
pub open spec fn segment_start<P>(parts: Seq<VisiblePart<P>>, i: int) -> P {
    if i > 0 && parts[i].joins {
        parts[i - 1].end
    } else {
        parts[i].start
    }
}

proof fn lemma_part_found<P>(parts: Seq<VisiblePart<P>>, i: int) -> (r: (int, int))
    requires
        0 <= i < parts.len(),
    ensures
        has_segment(runs_of(parts), r.0, r.1, segment_start(parts, i), parts[i].end),
        i == 0 || !parts[i].joins ==> r.1 == 1,
    decreases parts.len(),
{
    let head = parts.drop_last();
    let before = runs_of(head);
    let after = runs_of(parts);
    lemma_runs(parts);
    lemma_runs(head);
    lemma_last_end(head);
    if i < head.len() {
        assert(head[i] == parts[i]);
        if i > 0 {
            assert(head[i - 1] == parts[i - 1]);
        }
        let r = lemma_part_found(head, i);
        if r.0 < before.len() - 1 || !parts.last().joins {
            assert(after[r.0] == before[r.0]);
        } else {
            assert(after[r.0] == before[r.0].push(parts.last().end));
        }
        r
    } else {
        let last = after.len() - 1;
        if parts.last().joins && before.len() > 0 {
            assert(after[last] == before.last().push(parts.last().end));
            assert(head[i - 1] == parts[i - 1]);
            assert(before[before.len() - 1].len() >= 2);
            (last, before.last().len() as int)
        } else {
            assert(after[last] =~= seq![parts.last().start, parts.last().end]);
            (last, 1)
        }
    }
}

/// Every visible part is drawn: some run has its segment, from its own start, or
/// where it joins from where the part before it ended. A part that does not join
/// begins a run.
pub proof fn lemma_part_is_drawn<P>(parts: Seq<VisiblePart<P>>, i: int)
    requires
        0 <= i < parts.len(),
    ensures
        exists|run: int, k: int| #[trigger]
            has_segment(runs_of(parts), run, k, segment_start(parts, i), parts[i].end) && (i == 0
                || !parts[i].joins ==> k == 1),
{
    let r = lemma_part_found(parts, i);
    assert(has_segment(runs_of(parts), r.0, r.1, segment_start(parts, i), parts[i].end));
}

proof fn lemma_last_end<P>(parts: Seq<VisiblePart<P>>)
    ensures
        runs_of(parts).len() == 0 <==> parts.len() == 0,
        parts.len() > 0 ==> runs_of(parts).last().len() >= 2 && runs_of(parts).last().last()
            == parts.last().end,
    decreases parts.len(),
{
    lemma_runs(parts);
    if parts.len() > 0 {
        lemma_last_end(parts.drop_last());
        assert(runs_of(parts)[runs_of(parts).len() - 1].len() >= 2);
    }
}

/// How many parts begin a run.
pub open spec fn beginnings<P>(parts: Seq<VisiblePart<P>>) -> int
    decreases parts.len(),
{
    if parts.len() == 0 {
        0
    } else {
        beginnings(parts.drop_last()) + if parts.len() == 1 || !parts.last().joins {
            1int
        } else {
            0
        }
    }
}

/// There are as many runs as parts that do not go on with one: the first, and those
/// that do not join.
pub proof fn lemma_run_count<P>(parts: Seq<VisiblePart<P>>)
    ensures
        runs_of(parts).len() == beginnings(parts),
    decreases parts.len(),
{
    if parts.len() > 0 {
        lemma_run_count(parts.drop_last());
        lemma_last_end(parts.drop_last());
    }
}

/// The points of an outline as it is drawn.
pub open spec fn outline_of<P>(points: Seq<P>, closed: bool) -> Seq<P> {
    if closed && points.len() >= 2 {
        points.push(points[0])
    } else {
        points
    }
}

/// An outline is drawn through all of its points in turn; a closed one of two points
/// at least comes back to where it began, and an open one ends where it ends.
pub proof fn lemma_outline<P>(points: Seq<P>, closed: bool)
    requires
        points.len() > 0,
    ensures
        forall|i: int| 0 <= i < points.len() ==> #[trigger] outline_of(points, closed)[i]
            == points[i],
        closed && points.len() >= 2 ==> outline_of(points, closed).len() == points.len() + 1
            && outline_of(points, closed).last() == points[0],
        !closed || points.len() < 2 ==> outline_of(points, closed) == points,
{
}

} // verus!
