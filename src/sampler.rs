use vstd::prelude::*;
use crate::point::{Point, lemma_distance_tests_agree};
use crate::source::{PointSource, RandomPoints};

verus! {

/// Whether `p` counts as a hit under the chosen test: the squared-distance
/// test when `fast`, the distance test otherwise.
pub open spec fn is_hit(p: Point, fast: bool) -> bool {
    if fast {
        p.in_circle()
    } else {
        p.in_circle_by_distance()
    }
}

/// Number of points of `pts` that are hits under the chosen test.
pub open spec fn hits(pts: Seq<Point>, fast: bool) -> nat
    decreases pts.len(),
{
    if pts.len() == 0 {
        0
    } else {
        hits(pts.drop_last(), fast) + (if is_hit(pts.last(), fast) { 1nat } else { 0nat })
    }
}

/// Every point of `pts` lies in the unit square.
pub open spec fn all_wf(pts: Seq<Point>) -> bool {
    forall|i: int| 0 <= i < pts.len() ==> (#[trigger] pts[i]).wf()
}

/// No sequence has more hits than points.
pub proof fn lemma_hits_bounded(pts: Seq<Point>, fast: bool)
    ensures
        hits(pts, fast) <= pts.len(),
    decreases pts.len(),
{
    if pts.len() > 0 {
        lemma_hits_bounded(pts.drop_last(), fast);
    }
}

/// On any sequence of points of the unit square, the fast and the slow test
/// count the same number of hits.
pub proof fn lemma_modes_count_alike(pts: Seq<Point>)
    requires
        all_wf(pts),
    ensures
        hits(pts, true) == hits(pts, false),
    decreases pts.len(),
{
    if pts.len() > 0 {
        lemma_distance_tests_agree(pts.last());
        lemma_modes_count_alike(pts.drop_last());
    }
}

/// Draws `samples` points from `source` and counts the hits among them.
pub fn count_in_circle<S: PointSource>(source: &mut S, samples: u64, fast: bool) -> (count: u64)
    requires
        old(source).inv(),
    ensures
        final(source).inv(),
        final(source).drawn().len() == old(source).drawn().len() + samples,
        final(source).drawn().subrange(0, old(source).drawn().len() as int) == old(source).drawn(),
        all_wf(final(source).drawn().subrange(old(source).drawn().len() as int, final(source).drawn().len() as int)),
        count == hits(final(source).drawn().subrange(old(source).drawn().len() as int, final(source).drawn().len() as int), fast),
        count <= samples,
{
    let ghost start = source.drawn();
    let ghost mut batch: Seq<Point> = Seq::empty();
    let mut count: u64 = 0;
    let mut i: u64 = 0;
    while i < samples
        invariant
            source.inv(),
            i <= samples,
            batch.len() == i,
            source.drawn() == start + batch,
            all_wf(batch),
            count == hits(batch, fast),
            count <= i,
        decreases samples - i,
    {
        let p = source.next_point();
        let hit = if fast {
            p.in_circle_fast()
        } else {
            p.in_circle_slow()
        };
        proof {
            let next = batch.push(p);
            assert(next.drop_last() =~= batch);
            assert(start + next =~= (start + batch).push(p));
            batch = next;
        }
        if hit {
            count = count + 1;
        }
        i = i + 1;
    }
    assert(source.drawn().subrange(start.len() as int, source.drawn().len() as int) =~= batch);
    assert(source.drawn().subrange(0, start.len() as int) =~= start);
    count
}

/// Draws `samples` random points and counts those inside the quarter circle,
/// by the test chosen with `fast`.
pub fn sample_in_circle(samples: u64, fast: bool) -> (count: u64)
    ensures
        count <= samples,
        exists|pts: Seq<Point>|
            pts.len() == samples && all_wf(pts) && count == #[trigger] hits(pts, fast),
{
    let mut source = RandomPoints::new();
    let count = count_in_circle(&mut source, samples, fast);
    let ghost pts = source.drawn().subrange(0, samples as int);
    assert(source.drawn() =~= pts);
    count
}

/// Counts the hits among `samples` random points with the squared-distance
/// test.
pub fn monte_carlo_fast(samples: u64) -> (count: u64)
    ensures
        count <= samples,
        exists|pts: Seq<Point>|
            pts.len() == samples && all_wf(pts) && count == #[trigger] hits(pts, true),
{
    sample_in_circle(samples, true)
}

/// Counts the hits among `samples` random points with the distance test,
/// which takes a square root for every point.
pub fn monte_carlo_slow(samples: u64) -> (count: u64)
    ensures
        count <= samples,
        exists|pts: Seq<Point>|
            pts.len() == samples && all_wf(pts) && count == #[trigger] hits(pts, false),
{
    sample_in_circle(samples, false)
}

} // verus!
