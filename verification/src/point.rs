//! Planar point algebra on the local tangent plane.
//!
//! A [`FlatPoint`] holds east (`x`) and north (`y`) offsets from a
//! projection's origin, in kilometers at scale 10^12 (one unit is
//! 10^-12 km). Distances come back at the same scale; squared distances
//! at scale 10^24; bearings in whole microdegrees, measured clockwise
//! from north.

use crate::arith::{isqrt_u128, mul_div, muldiv, sqrt_floor};
use crate::trig::{
    atan2_udeg, atan2_udeg_spec, cos_udeg, cos_udeg_spec, lemma_atan2_udeg_spec_antisym, sin_udeg,
    sin_udeg_spec, FP,
};
use vstd::prelude::*;

verus! {

/// Largest coordinate magnitude (scale 10^12 km) the distance
/// operations accept; four million kilometers, far beyond the
/// projection's validity, but small enough that a squared sum of
/// deltas stays representable.
pub const COORD_LIMIT: i64 = 4_000_000_000_000_000_000;

/// Representation of a geographical point on Earth as projected by a
/// [`FlatProjection`](crate::FlatProjection) instance.
#[derive(Debug, Copy, Clone, PartialEq, PartialOrd)]
pub struct FlatPoint {
    /// X-axis component of the flat-surface point: kilometers east of
    /// the origin, at scale 10^12.
    pub x: i64,
    /// Y-axis component of the flat-surface point: kilometers north of
    /// the origin, at scale 10^12.
    pub y: i64,
}

/// Both coordinates within `COORD_LIMIT`.
pub open spec fn in_coord_range(p: FlatPoint) -> bool {
    &&& -COORD_LIMIT <= p.x <= COORD_LIMIT
    &&& -COORD_LIMIT <= p.y <= COORD_LIMIT
}

/// The squared Euclidean distance between two points, exact in
/// integers (scale 10^24 square kilometers).
pub open spec fn distance_squared_spec(a: FlatPoint, b: FlatPoint) -> int {
    (a.x - b.x) * (a.x - b.x) + (a.y - b.y) * (a.y - b.y)
}

/// The distance between two points: the integer square root of the
/// exact squared distance (scale 10^12 kilometers).
pub open spec fn distance_spec(a: FlatPoint, b: FlatPoint) -> int {
    sqrt_floor(distance_squared_spec(a, b))
}

/// The bearing from `a` to `b` in whole microdegrees: 0 at due north,
/// 90e6 at due east, in `[-180e6, 180e6]`.
pub open spec fn bearing_spec(a: FlatPoint, b: FlatPoint) -> int {
    atan2_udeg_spec(-(a.x - b.x), -(a.y - b.y))
}

/// The easting a move of `dist` along `bearing` adds: the sine of the
/// bearing times the distance.
pub open spec fn destination_dx_spec(dist: int, bearing: int) -> int {
    mul_div(sin_udeg_spec(bearing), dist, FP as int)
}

/// The northing a move of `dist` along `bearing` adds: the cosine of
/// the bearing times the distance.
pub open spec fn destination_dy_spec(dist: int, bearing: int) -> int {
    mul_div(cos_udeg_spec(bearing), dist, FP as int)
}

impl FlatPoint {
    /// Calculates the approximate distance in kilometers (scale 10^12)
    /// from this `FlatPoint` to another.
    pub fn distance(&self, other: &FlatPoint) -> (r: i128)
        requires
            in_coord_range(*self),
            in_coord_range(*other),
        ensures
            r == distance_spec(*self, *other),
            0 <= r,
            r * r <= distance_squared_spec(*self, *other),
            distance_squared_spec(*self, *other) < (r + 1) * (r + 1),
    {
        let sq: i128 = self.distance_squared(other);
        let root: u128 = isqrt_u128(sq as u128);
        proof {
            assert(root <= 12_000_000_000_000_000_000) by (nonlinear_arith)
                requires
                    root as int * root as int <= sq as int,
                    sq as int <= 128_000_000_000_000_000_000_000_000_000_000_000_000,
                    0 <= root,
            ;
        }
        root as i128
    }

    /// Calculates the exact squared distance (scale 10^24) from this
    /// `FlatPoint` to another.
    ///
    /// This method can be used for fast distance comparisons.
    pub fn distance_squared(&self, other: &FlatPoint) -> (r: i128)
        requires
            in_coord_range(*self),
            in_coord_range(*other),
        ensures
            r == distance_squared_spec(*self, *other),
            0 <= r <= 128_000_000_000_000_000_000_000_000_000_000_000_000,
    {
        let (dx, dy): (i128, i128) = self.delta(other);
        proof {
            assert(0 <= dx * dx <= 64_000_000_000_000_000_000_000_000_000_000_000_000
                && 0 <= dy * dy <= 64_000_000_000_000_000_000_000_000_000_000_000_000)
                by (nonlinear_arith)
                requires
                    -8_000_000_000_000_000_000 <= dx <= 8_000_000_000_000_000_000,
                    -8_000_000_000_000_000_000 <= dy <= 8_000_000_000_000_000_000,
            ;
        }
        dx * dx + dy * dy
    }

    /// Calculates the approximate average bearing in whole
    /// microdegrees, between -180e6 and 180e6, from this `FlatPoint`
    /// to another.
    pub fn bearing(&self, other: &FlatPoint) -> (r: i64)
        ensures
            r == bearing_spec(*self, *other),
            -180_000_000 <= r <= 180_000_000,
    {
        let (dx, dy): (i128, i128) = self.delta(other);
        atan2_udeg(-dx, -dy)
    }

    /// Calculates the approximate distance (scale 10^12 kilometers) and
    /// average bearing (whole microdegrees) from this `FlatPoint` to
    /// another, sharing one computation of the coordinate deltas.
    pub fn distance_bearing(&self, other: &FlatPoint) -> (r: (i128, i64))
        requires
            in_coord_range(*self),
            in_coord_range(*other),
        ensures
            r.0 == distance_spec(*self, *other),
            r.1 == bearing_spec(*self, *other),
    {
        let (dx, dy): (i128, i128) = self.delta(other);
        proof {
            assert(0 <= dx * dx <= 64_000_000_000_000_000_000_000_000_000_000_000_000
                && 0 <= dy * dy <= 64_000_000_000_000_000_000_000_000_000_000_000_000)
                by (nonlinear_arith)
                requires
                    -8_000_000_000_000_000_000 <= dx <= 8_000_000_000_000_000_000,
                    -8_000_000_000_000_000_000 <= dy <= 8_000_000_000_000_000_000,
            ;
        }
        let sq: i128 = dx * dx + dy * dy;
        let root: u128 = isqrt_u128(sq as u128);
        proof {
            assert(root <= 12_000_000_000_000_000_000) by (nonlinear_arith)
                requires
                    root as int * root as int <= sq as int,
                    sq as int <= 128_000_000_000_000_000_000_000_000_000_000_000_000,
                    0 <= root,
            ;
        }
        (root as i128, atan2_udeg(-dx, -dy))
    }

    /// The coordinate deltas from `other` to `self`, exactly.
    fn delta(&self, other: &FlatPoint) -> (r: (i128, i128))
        ensures
            r.0 == self.x - other.x,
            r.1 == self.y - other.y,
            -18_446_744_073_709_551_615 <= r.0 <= 18_446_744_073_709_551_615,
            -18_446_744_073_709_551_615 <= r.1 <= 18_446_744_073_709_551_615,
    {
        ((self.x as i128) - (other.x as i128), (self.y as i128) - (other.y as i128))
    }

    /// Returns a new `FlatPoint`, at the given distance (scale 10^12
    /// kilometers) in the direction of the given bearing (whole
    /// microdegrees) from this one.
    pub fn destination(&self, dist: i128, bearing: i64) -> (r: FlatPoint)
        requires
            in_coord_range(*self),
            -COORD_LIMIT <= dist <= COORD_LIMIT,
        ensures
            r.x == self.x + destination_dx_spec(dist as int, bearing as int),
            r.y == self.y + destination_dy_spec(dist as int, bearing as int),
    {
        let s: i128 = sin_udeg(bearing);
        let c: i128 = cos_udeg(bearing);
        let dx: i128 = muldiv(s, dist, FP, Ghost(FP as int), Ghost(COORD_LIMIT as int),
            Ghost(COORD_LIMIT as int));
        let dy: i128 = muldiv(c, dist, FP, Ghost(FP as int), Ghost(COORD_LIMIT as int),
            Ghost(COORD_LIMIT as int));
        FlatPoint { x: self.x + (dx as i64), y: self.y + (dy as i64) }
    }

    /// Returns a new `FlatPoint` given easting and northing offsets
    /// (scale 10^12 kilometers) from this `FlatPoint`.
    pub fn offset(&self, dx: i64, dy: i64) -> (r: FlatPoint)
        requires
            i64::MIN <= self.x + dx <= i64::MAX,
            i64::MIN <= self.y + dy <= i64::MAX,
        ensures
            r.x == self.x + dx,
            r.y == self.y + dy,
    {
        FlatPoint { x: self.x + dx, y: self.y + dy }
    }
}

/// The distance between two planar points does not depend on their
/// order, and neither does the squared distance.
pub proof fn lemma_distance_symmetric(a: FlatPoint, b: FlatPoint)
    ensures
        distance_squared_spec(a, b) == distance_squared_spec(b, a),
        distance_spec(a, b) == distance_spec(b, a),
{
    assert((a.x - b.x) * (a.x - b.x) == (b.x - a.x) * (b.x - a.x)) by (nonlinear_arith);
    assert((a.y - b.y) * (a.y - b.y) == (b.y - a.y) * (b.y - a.y)) by (nonlinear_arith);
}

/// Destination and distance are consistent at zero distance, for
/// every point and every bearing: moving nowhere changes neither
/// coordinate, and the distance from a point to itself is exactly
/// zero.
pub proof fn lemma_destination_of_zero_distance(p: FlatPoint, bearing: int)
    ensures
        destination_dx_spec(0, bearing) == 0,
        destination_dy_spec(0, bearing) == 0,
        distance_spec(p, p) == 0,
        distance_squared_spec(p, p) == 0,
{
    vstd::arithmetic::div_mod::lemma_div_of0(FP as int);
    assert(sin_udeg_spec(bearing) * 0 == 0);
    assert(cos_udeg_spec(bearing) * 0 == 0);
}

/// For distinct points, the bearings taken in the two directions
/// differ by exactly half a turn, one way or the other: 180 degrees
/// modulo 360.
pub proof fn lemma_bearing_antisymmetric(a: FlatPoint, b: FlatPoint)
    requires
        !(a.x == b.x && a.y == b.y),
    ensures
        bearing_spec(a, b) - bearing_spec(b, a) == 180_000_000
            || bearing_spec(a, b) - bearing_spec(b, a) == -180_000_000,
{
    lemma_atan2_udeg_spec_antisym(a.x - b.x, a.y - b.y);
}

} // verus!
