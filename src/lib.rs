//! Monte Carlo estimation of pi.
//!
//! Points are drawn uniformly from the unit square and counted when they
//! fall inside the quarter circle of radius one. A coordinate is held as a
//! fixed-point integer `k` standing for `k / UNIT`, so the in-circle test is
//! exact integer arithmetic.
use vstd::prelude::*;

pub mod point;
pub mod source;
pub mod sampler;
pub mod coordinator;

verus! {

} // verus!
