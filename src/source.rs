use rand::Rng;
use vstd::prelude::*;
use vstd::arithmetic::div_mod::{lemma_add_mod_noop, lemma_small_mod, lemma_mod_self_0, lemma_mod_pos_bound};
use crate::point::{Point, UNIT};

verus! {

/// A supply of points of the unit square.
///
/// Sampling is written against this trait, so that a fixed sequence of points
/// can stand in for the random generator.
pub trait PointSource {
    /// The points handed out so far, oldest first.
    spec fn drawn(&self) -> Seq<Point>;

    /// Well-formedness of the source's own state.
    spec fn inv(&self) -> bool;

    /// Hands out the next point.
    fn next_point(&mut self) -> (p: Point)
        requires
            old(self).inv(),
        ensures
            final(self).inv(),
            p.wf(),
            final(self).drawn() == old(self).drawn().push(p),
    ;
}

/// A deterministic source that hands out a fixed list of points in order,
/// starting over at the front when the list is used up.
pub struct ScriptedPoints {
    points: Vec<Point>,
    next: usize,
    history: Ghost<Seq<Point>>,
}

impl ScriptedPoints {
    /// The list of points handed out, in order.
    pub closed spec fn script(&self) -> Seq<Point> {
        self.points@
    }

    /// A source that replays `points`, or `None` when the list is empty or
    /// holds a point outside the unit square.
    pub fn new(points: Vec<Point>) -> (r: Option<ScriptedPoints>)
        ensures
            r.is_some() == (points@.len() > 0 && forall|i: int|
                0 <= i < points@.len() ==> (#[trigger] points@[i]).wf()),
            r matches Some(s) ==> s.inv() && s.script() == points@ && s.drawn() == Seq::<Point>::empty(),
    {
        let mut i: usize = 0;
        while i < points.len()
            invariant
                i <= points@.len(),
                forall|j: int| 0 <= j < i ==> (#[trigger] points@[j]).wf(),
            decreases points@.len() - i,
        {
            if !(points[i].x < UNIT && points[i].y < UNIT) {
                return None;
            }
            i = i + 1;
        }
        if points.len() == 0 {
            return None;
        }
        proof {
            lemma_small_mod(0, points@.len());
        }
        Some(ScriptedPoints { points, next: 0, history: Ghost(Seq::empty()) })
    }
}

impl PointSource for ScriptedPoints {
    closed spec fn drawn(&self) -> Seq<Point> {
        self.history@
    }

    /// The points handed out so far are the script repeated.
    closed spec fn inv(&self) -> bool {
        let n = self.points@.len();
        &&& n > 0
        &&& forall|i: int| 0 <= i < n ==> (#[trigger] self.points@[i]).wf()
        &&& self.next as int == (self.history@.len() as int) % (n as int)
        &&& forall|i: int| 0 <= i < self.history@.len() ==>
                #[trigger] self.history@[i] == self.points@[i % (n as int)]
    }

    fn next_point(&mut self) -> (p: Point) {
        let ghost n = self.points@.len() as int;
        let ghost h = self.history@.len() as int;
        proof {
            lemma_mod_pos_bound(h, n);
        }
        let p = self.points[self.next];
        let wrap = self.next == self.points.len() - 1;
        proof {
            lemma_add_mod_noop(h, 1, n);
            if self.next + 1 < n {
                lemma_small_mod(self.next as nat + 1, n as nat);
            }
            if n == 1 {
                lemma_mod_self_0(1);
            } else {
                lemma_small_mod(1, n as nat);
            }
            lemma_mod_self_0(n);
            self.history@ = self.history@.push(p);
        }
        if wrap {
            self.next = 0;
        } else {
            self.next = self.next + 1;
        }
        p
    }
}

#[verifier::external_type_specification]
#[verifier::external_body]
pub struct ExThreadRng(rand::rngs::ThreadRng);

/// Relies on rand::thread_rng: a handle on the generator of the calling
/// thread, seeded from the operating system.
pub assume_specification[ rand::thread_rng ]() -> rand::rngs::ThreadRng;

/// Relies on rand's `Rng::gen_range` over a half-open range: a value in
/// `[0, bound)`, uniformly drawn; it panics only on an empty range.
#[verifier::external_body]
fn draw_below(rng: &mut rand::rngs::ThreadRng, bound: u64) -> (r: u64)
    requires
        bound > 0,
    ensures
        r < bound,
{
    rng.gen_range(0..bound)
}

/// Uniformly random points, from the generator of the calling thread.
///
/// Each coordinate is a uniform draw of `[0, UNIT)`, which divided by `UNIT`
/// is the distribution of a uniform `f64` of `[0, 1)`.
pub struct RandomPoints {
    rng: rand::rngs::ThreadRng,
    history: Ghost<Seq<Point>>,
}

impl RandomPoints {
    /// A fresh source owned by the caller's thread.
    pub fn new() -> (r: RandomPoints)
        ensures
            r.inv(),
            r.drawn() == Seq::<Point>::empty(),
    {
        RandomPoints { rng: rand::thread_rng(), history: Ghost(Seq::empty()) }
    }
}

impl PointSource for RandomPoints {
    closed spec fn drawn(&self) -> Seq<Point> {
        self.history@
    }

    closed spec fn inv(&self) -> bool {
        true
    }

    fn next_point(&mut self) -> (p: Point) {
        let x = draw_below(&mut self.rng, UNIT);
        let y = draw_below(&mut self.rng, UNIT);
        let p = Point { x, y };
        proof {
            self.history@ = self.history@.push(p);
        }
        p
    }
}

} // verus!
