//! Ranges of ray parameters and of colour channels.
use crate::scalar::{Scalar, INFINITY_BITS, SIGN_BIT};
use vstd::prelude::*;

verus! {

/// A range between two bounds. Nothing is asked of the bounds: with
/// `min` above `max` the range holds no value at all.
#[derive(Clone, Copy, Debug)]
pub struct Interval {
    pub min: Scalar,
    pub max: Scalar,
}

impl Interval {
    /// Whether `x` lies in the closed range `[min, max]`.
    pub open spec fn contains_spec(self, x: Scalar) -> bool {
        self.min.le_spec(x) && x.le_spec(self.max)
    }

    /// Whether `x` lies in the open range `(min, max)`.
    pub open spec fn surrounds_spec(self, x: Scalar) -> bool {
        self.min.lt_spec(x) && x.lt_spec(self.max)
    }

    /// `x` moved to the nearer bound when it lies outside `[min, max]`.
    /// The lower bound is tried first; a NaN passes through.
    pub open spec fn clamps_spec(self, x: Scalar) -> Scalar {
        if x.lt_spec(self.min) {
            self.min
        } else if x.gt_spec(self.max) {
            self.max
        } else {
            x
        }
    }

    /// The range from negative to positive infinity.
    pub open spec fn universe_spec() -> Interval {
        Interval {
            min: Scalar { bits: (SIGN_BIT + INFINITY_BITS) as u64 },
            max: Scalar { bits: INFINITY_BITS },
        }
    }

    /// The range from positive to negative infinity.
    pub open spec fn empty_spec() -> Interval {
        Interval {
            min: Scalar { bits: INFINITY_BITS },
            max: Scalar { bits: (SIGN_BIT + INFINITY_BITS) as u64 },
        }
    }

    /// The range of all values, from negative to positive infinity.
    pub fn new_default() -> (r: Interval)
        ensures
            r == Interval::universe_spec(),
    {
        Interval { min: Scalar::neg_infinity(), max: Scalar::infinity() }
    }

    /// The range between the given bounds.
    pub fn new(min: Scalar, max: Scalar) -> (r: Interval)
        ensures
            r.min == min,
            r.max == max,
    {
        Interval { min, max }
    }

    /// The range that holds nothing: from positive to negative infinity.
    pub fn empty() -> (r: Interval)
        ensures
            r == Interval::empty_spec(),
    {
        Interval { min: Scalar::infinity(), max: Scalar::neg_infinity() }
    }

    /// The range of all values; the same as `new_default`.
    pub fn universe() -> (r: Interval)
        ensures
            r == Interval::universe_spec(),
    {
        Interval::new_default()
    }

    /// Whether `min <= x <= max`.
    pub fn contains(&self, x: Scalar) -> (r: bool)
        ensures
            r == self.contains_spec(x),
    {
        self.min.le(x) && x.le(self.max)
    }

    /// Whether `min < x < max`.
    pub fn surrounds(&self, x: Scalar) -> (r: bool)
        ensures
            r == self.surrounds_spec(x),
    {
        self.min.lt(x) && x.lt(self.max)
    }

    /// `x` projected into `[min, max]`.
    pub fn clamps(&self, x: Scalar) -> (r: Scalar)
        ensures
            r == self.clamps_spec(x),
    {
        if x.lt(self.min) {
            self.min
        } else if x.gt(self.max) {
            self.max
        } else {
            x
        }
    }
}

/// Clamping lands inside the range: for bounds in order and a value that
/// is a number, the result lies in `[min, max]`, and a value already there
/// is returned as it is.
pub proof fn lemma_clamps_into_range(range: Interval, x: Scalar)
    requires
        range.min.le_spec(range.max),
        !x.is_nan_spec(),
    ensures
        range.contains_spec(range.clamps_spec(x)),
        range.contains_spec(x) ==> range.clamps_spec(x) == x,
        range.clamps_spec(range.clamps_spec(x)) == range.clamps_spec(x),
{
}

/// The open range lies inside the closed one.
pub proof fn lemma_surrounds_implies_contains(range: Interval, x: Scalar)
    requires
        range.surrounds_spec(x),
    ensures
        range.contains_spec(x),
{
}

/// The empty range holds nothing, and every number lies in the universe.
pub proof fn lemma_empty_and_universe(x: Scalar)
    ensures
        !Interval::empty_spec().contains_spec(x),
        !x.is_nan_spec() ==> Interval::universe_spec().contains_spec(x),
{
    let inf = Interval::universe_spec().max;
    let ninf = Interval::universe_spec().min;
    crate::scalar::lemma_rank_orders(inf, x);
    crate::scalar::lemma_rank_orders(x, inf);
    crate::scalar::lemma_rank_orders(ninf, x);
    crate::scalar::lemma_rank_orders(x, ninf);
}

} // verus!
