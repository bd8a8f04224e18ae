//! Projection from geographic coordinates onto a local tangent plane.
//!
//! Geographic input is in whole microdegrees (10^-6 degree). The two
//! scale factors `kx` and `ky` (kilometers per degree of longitude and
//! latitude) are held at scale 10^6, so a projected coordinate —
//! microdegrees times a scale factor — lands at scale 10^12 kilometers,
//! with no rounding at all: projecting is exact, and unprojecting is an
//! exact inverse wherever the scale factors are positive.

use crate::arith::{div_trunc, lemma_tdiv_bound, lemma_tdiv_exact, lemma_tdiv_range, mul_div,
    muldiv, tdiv};
use crate::point::{FlatPoint, in_coord_range, COORD_LIMIT};
use crate::trig::{cos_udeg, cos_udeg_spec, FP};
use vstd::prelude::*;

verus! {

/// Largest accepted magnitude for geographic input, in microdegrees
/// (one full turn).
pub const MAX_UDEG: i64 = 360_000_000;

/// Largest possible magnitude of a scale factor (scale 10^6 km/deg).
pub const MAX_SCALE: i64 = 120_000_000;

/// The longitude scale factor (km per degree, at scale 10^6) for a
/// reference latitude in microdegrees: an even polynomial in the
/// cosine of the latitude, whose higher cosines come from the
/// double-angle recurrence `cos((n+1)t) = 2 cos(t) cos(nt) - cos((n-1)t)`.
pub open spec fn kx_of_lat(lat: int) -> int {
    let c1: int = cos_udeg_spec(lat);
    let c2: int = 2 * mul_div(c1, c1, FP as int) - FP;
    let c3: int = 2 * mul_div(c1, c2, FP as int) - c1;
    let c4: int = 2 * mul_div(c1, c3, FP as int) - c2;
    let c5: int = 2 * mul_div(c1, c4, FP as int) - c3;
    tdiv(111_415_130 * c1 - 94_550 * c3 + 120 * c5, FP as int)
}

/// The latitude scale factor (km per degree, at scale 10^6) for a
/// reference latitude in microdegrees.
pub open spec fn ky_of_lat(lat: int) -> int {
    let c1: int = cos_udeg_spec(lat);
    let c2: int = 2 * mul_div(c1, c1, FP as int) - FP;
    let c3: int = 2 * mul_div(c1, c2, FP as int) - c1;
    let c4: int = 2 * mul_div(c1, c3, FP as int) - c2;
    tdiv(111_132_090 * (FP as int) - 566_050 * c2 + 1_200 * c4, FP as int)
}

/// Projection from WGS84 geographic coordinates to a cartesian
/// coordinate system for fast geodesic approximations, calibrated at a
/// reference latitude.
#[derive(Debug, Copy, Clone, PartialEq, PartialOrd)]
pub struct FlatProjection {
    kx: i64,
    ky: i64,

    lat: i64,
    lon: i64,
}

impl FlatProjection {
    /// The longitude scale factor, km per degree at scale 10^6.
    pub closed spec fn scale_x(self) -> int {
        self.kx as int
    }

    /// The latitude scale factor, km per degree at scale 10^6.
    pub closed spec fn scale_y(self) -> int {
        self.ky as int
    }

    /// The origin longitude, microdegrees.
    pub closed spec fn origin_lon(self) -> int {
        self.lon as int
    }

    /// The origin latitude, microdegrees.
    pub closed spec fn origin_lat(self) -> int {
        self.lat as int
    }

    /// What construction guarantees: a bounded origin, bounded scale
    /// factors, and a positive latitude scale factor.
    pub open spec fn wf(self) -> bool {
        &&& -MAX_UDEG <= self.origin_lon() <= MAX_UDEG
        &&& -MAX_UDEG <= self.origin_lat() <= MAX_UDEG
        &&& -MAX_SCALE <= self.scale_x() <= MAX_SCALE
        &&& 1 <= self.scale_y() <= MAX_SCALE
    }

    /// Projecting, at the level of the mathematical values: scale the
    /// offsets from the origin, exactly.
    pub open spec fn project_spec(self, longitude: int, latitude: int) -> (int, int) {
        ((longitude - self.origin_lon()) * self.scale_x(),
            (latitude - self.origin_lat()) * self.scale_y())
    }

    /// Unprojecting, at the level of the mathematical values: divide
    /// the plane coordinates by the scale factors (truncating) and move
    /// back to the origin.
    pub open spec fn unproject_spec(self, x: int, y: int) -> (int, int) {
        (tdiv(x, self.scale_x()) + self.origin_lon(),
            tdiv(y, self.scale_y()) + self.origin_lat())
    }

    /// Creates a new `FlatProjection` instance that will work best
    /// around the given latitude, with the given origin (microdegrees).
    pub fn new(longitude: i64, latitude: i64) -> (r: FlatProjection)
        requires
            -MAX_UDEG <= longitude <= MAX_UDEG,
            -MAX_UDEG <= latitude <= MAX_UDEG,
        ensures
            r.scale_x() == kx_of_lat(latitude as int),
            r.scale_y() == ky_of_lat(latitude as int),
            r.origin_lon() == longitude,
            r.origin_lat() == latitude,
            r.wf(),
    {
        let c1: i128 = cos_udeg(latitude);
        let cc: i128 = muldiv(c1, c1, FP, Ghost(FP as int), Ghost(FP as int), Ghost(FP as int));
        proof {
            assert(0 <= c1 * c1) by (nonlinear_arith);
            vstd::arithmetic::div_mod::lemma_div_pos_is_pos(c1 * c1, FP as int);
        }
        let c2: i128 = 2 * cc - FP;
        let c3: i128 = 2 * muldiv(c1, c2, FP, Ghost(FP as int), Ghost(FP as int), Ghost(FP as int))
            - c1;
        let c4: i128 = 2 * muldiv(c1, c3, FP, Ghost(FP as int), Ghost(3 * FP as int),
            Ghost(3 * FP as int)) - c2;
        let c5: i128 = 2 * muldiv(c1, c4, FP, Ghost(FP as int), Ghost(7 * FP as int),
            Ghost(7 * FP as int)) - c3;
        let numx: i128 = 111_415_130 * c1 - 94_550 * c3 + 120 * c5;
        let kx128: i128 = div_trunc(numx, FP);
        let numy: i128 = 111_132_090 * FP - 566_050 * c2 + 1_200 * c4;
        let ky128: i128 = div_trunc(numy, FP);
        proof {
            lemma_tdiv_bound(numx as int, FP as int, 111_702_000);
            lemma_tdiv_range(numy as int, FP as int, 110_557_640, 111_706_540);
        }
        FlatProjection { kx: kx128 as i64, ky: ky128 as i64, lat: latitude, lon: longitude }
    }

    /// Converts a longitude and latitude (in microdegrees) to a
    /// [`FlatPoint`] instance that can be used for fast geodesic
    /// approximations: exactly the scaled offsets from the origin.
    pub fn project(&self, longitude: i64, latitude: i64) -> (r: FlatPoint)
        requires
            self.wf(),
            -MAX_UDEG <= longitude <= MAX_UDEG,
            -MAX_UDEG <= latitude <= MAX_UDEG,
        ensures
            (r.x as int, r.y as int) == self.project_spec(longitude as int, latitude as int),
            in_coord_range(r),
    {
        let dlon: i64 = longitude - self.lon;
        let dlat: i64 = latitude - self.lat;
        proof {
            assert(-90_000_000_000_000_000 <= (dlon as int) * (self.kx as int)
                <= 90_000_000_000_000_000 && -90_000_000_000_000_000 <= (dlat as int) * (self.ky
                as int) <= 90_000_000_000_000_000) by (nonlinear_arith)
                requires
                    -720_000_000 <= dlon <= 720_000_000,
                    -720_000_000 <= dlat <= 720_000_000,
                    -120_000_000 <= self.kx <= 120_000_000,
                    -120_000_000 <= self.ky <= 120_000_000,
            ;
        }
        let x: i128 = (dlon as i128) * (self.kx as i128);
        let y: i128 = (dlat as i128) * (self.ky as i128);
        FlatPoint { x: x as i64, y: y as i64 }
    }

    /// Converts a [`FlatPoint`] back to a (longitude, latitude) pair in
    /// microdegrees. Exact inverse of [`Self::project`] whenever the
    /// longitude scale factor is positive — that is, away from the
    /// poles.
    pub fn unproject(&self, p: &FlatPoint) -> (r: (i64, i64))
        requires
            self.wf(),
            1 <= self.scale_x(),
            in_coord_range(*p),
        ensures
            (r.0 as int, r.1 as int) == self.unproject_spec(p.x as int, p.y as int),
    {
        proof {
            assert((COORD_LIMIT as int) * 1 <= (COORD_LIMIT as int) * (self.kx as int)
                && (COORD_LIMIT as int) * 1 <= (COORD_LIMIT as int) * (self.ky as int))
                by (nonlinear_arith)
                requires
                    1 <= self.kx,
                    1 <= self.ky,
            ;
            lemma_tdiv_bound(p.x as int, self.kx as int, COORD_LIMIT as int);
            lemma_tdiv_bound(p.y as int, self.ky as int, COORD_LIMIT as int);
        }
        let qx: i128 = div_trunc(p.x as i128, self.kx as i128);
        let qy: i128 = div_trunc(p.y as i128, self.ky as i128);
        ((qx as i64) + self.lon, (qy as i64) + self.lat)
    }
}

/// Round trip: for every projection with positive scale factors —
/// every reference latitude away from the poles — and every
/// geographic coordinate, unprojecting a projected coordinate returns
/// it exactly.
pub proof fn lemma_unproject_inverts_project(proj: FlatProjection, longitude: int, latitude: int)
    requires
        1 <= proj.scale_x(),
        1 <= proj.scale_y(),
    ensures
        proj.unproject_spec(
            proj.project_spec(longitude, latitude).0,
            proj.project_spec(longitude, latitude).1,
        ) == (longitude, latitude),
{
    lemma_tdiv_exact(longitude - proj.origin_lon(), proj.scale_x());
    lemma_tdiv_exact(latitude - proj.origin_lat(), proj.scale_y());
}

} // verus!
