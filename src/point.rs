use vstd::prelude::*;

verus! {

/// Number of steps of a coordinate in `[0, 1)`: `2^53`, the resolution of a
/// uniformly drawn `f64` in that interval.
pub const UNIT: u64 = 9007199254740992;

/// A point of the unit square; `x` stands for `x / UNIT`, `y` for `y / UNIT`.
#[derive(Clone, Copy, Debug, PartialEq, Eq, Structural)]
pub struct Point {
    pub x: u64,
    pub y: u64,
}

/// `r` is the square root of `d`, rounded up.
pub open spec fn is_ceil_root(r: nat, d: nat) -> bool {
    &&& r * r >= d
    &&& (r == 0 || (r - 1) * (r - 1) < d)
}

impl Point {
    /// Both coordinates lie in `[0, 1)`.
    pub open spec fn wf(self) -> bool {
        self.x < UNIT && self.y < UNIT
    }

    /// Squared distance from the origin, in units of `1 / UNIT^2`.
    pub open spec fn sq_dist(self) -> nat {
        (self.x * self.x + self.y * self.y) as nat
    }

    /// The squared-distance test: `x^2 + y^2 <= 1`.
    pub open spec fn in_circle(self) -> bool {
        self.sq_dist() <= UNIT * UNIT
    }

    /// The distance test: `sqrt(x^2 + y^2) <= 1`, with the root rounded up to
    /// the next step of the fixed-point scale.
    pub open spec fn in_circle_by_distance(self) -> bool {
        exists|r: nat| is_ceil_root(r, self.sq_dist()) && r <= UNIT
    }

    /// A point with the given fixed-point coordinates, or `None` when one of
    /// them lies outside `[0, 1)`.
    pub fn new(x: u64, y: u64) -> (r: Option<Point>)
        ensures
            r == (if x < UNIT && y < UNIT { Some(Point { x, y }) } else { None::<Point> }),
    {
        if x < UNIT && y < UNIT {
            Some(Point { x, y })
        } else {
            None
        }
    }

    /// Squared distance from the origin, computed exactly.
    pub fn squared_distance(&self) -> (d: u128)
        requires
            self.wf(),
        ensures
            d == self.sq_dist(),
            d < 2 * UNIT * UNIT,
    {
        let x = self.x as u128;
        let y = self.y as u128;
        assert(x * x < UNIT * UNIT && y * y < UNIT * UNIT) by (nonlinear_arith)
            requires
                x < UNIT,
                y < UNIT,
        ;
        x * x + y * y
    }

    /// Fast in-circle test on the squared distance.
    pub fn in_circle_fast(&self) -> (r: bool)
        requires
            self.wf(),
        ensures
            r == self.in_circle(),
    {
        let d = self.squared_distance();
        d <= (UNIT as u128) * (UNIT as u128)
    }

    /// Slow in-circle test: takes the square root of the squared distance and
    /// compares it with one.
    pub fn in_circle_slow(&self) -> (r: bool)
        requires
            self.wf(),
        ensures
            r == self.in_circle_by_distance(),
    {
        let d = self.squared_distance();
        let root = ceil_sqrt(d);
        if root as u128 <= UNIT as u128 {
            true
        } else {
            assert forall|r: nat| is_ceil_root(r, self.sq_dist()) implies r > UNIT by {
                lemma_ceil_root_unique(r, root as nat, d as nat);
            }
            false
        }
    }
}

/// Square root of `d`, rounded up, by bisection.
pub fn ceil_sqrt(d: u128) -> (r: u64)
    requires
        d <= 2 * UNIT * UNIT,
    ensures
        is_ceil_root(r as nat, d as nat),
{
    let mut lo: u64 = 0;
    let mut hi: u64 = 2 * UNIT;
    assert((2 * UNIT) * (2 * UNIT) >= d) by (nonlinear_arith)
        requires
            d <= 2 * UNIT * UNIT,
    ;
    while lo < hi
        invariant
            lo <= hi <= 2 * UNIT,
            hi * hi >= d,
            lo == 0 || (lo - 1) * (lo - 1) < d,
        decreases hi - lo,
    {
        let mid: u64 = lo + (hi - lo) / 2;
        let m = mid as u128;
        assert(m * m <= 324518553658426726783156020576256) by (nonlinear_arith)
            requires
                m <= 18014398509481984,
        ;
        if m * m >= d {
            hi = mid;
        } else {
            lo = mid + 1;
        }
    }
    hi
}

/// Two rounded-up square roots of the same number are equal.
pub proof fn lemma_ceil_root_unique(a: nat, b: nat, d: nat)
    requires
        is_ceil_root(a, d),
        is_ceil_root(b, d),
    ensures
        a == b,
{
    if a < b {
        assert((b - 1) * (b - 1) >= a * a) by (nonlinear_arith)
            requires
                a <= b - 1,
        ;
    } else if b < a {
        assert((a - 1) * (a - 1) >= b * b) by (nonlinear_arith)
            requires
                b <= a - 1,
        ;
    }
}

/// Every `d` up to `bound^2` has a rounded-up square root no larger than `bound`.
pub proof fn lemma_ceil_root_exists(d: nat, bound: nat)
    requires
        d <= bound * bound,
    ensures
        exists|r: nat| is_ceil_root(r, d) && r <= bound,
    decreases bound,
{
    if bound == 0 {
        assert(is_ceil_root(0, d));
    } else if (bound - 1) * (bound - 1) < d {
        assert(is_ceil_root(bound, d));
    } else {
        lemma_ceil_root_exists(d, (bound - 1) as nat);
    }
}

/// The distance test and the squared-distance test agree on every point of
/// the unit square.
pub proof fn lemma_distance_tests_agree(p: Point)
    requires
        p.wf(),
    ensures
        p.in_circle_by_distance() == p.in_circle(),
{
    let d = p.sq_dist();
    if p.in_circle() {
        lemma_ceil_root_exists(d, UNIT as nat);
    }
    if p.in_circle_by_distance() {
        let r = choose|r: nat| is_ceil_root(r, d) && r <= UNIT;
        assert(r * r <= UNIT * UNIT) by (nonlinear_arith)
            requires
                r <= UNIT,
        ;
    }
}

} // verus!
