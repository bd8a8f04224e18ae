//! The ellipsoidal inverse-geodesic oracle: the iterative method of
//! Vincenty, computing the exact ellipsoidal distance between two
//! geographic coordinates, independently of the flat projection.
//!
//! Coordinates arrive in whole microdegrees. The ellipsoid's axes are
//! held at scale 10^9 in the caller's length unit, its flattening at
//! scale 10^15, and the distance comes back at scale 10^9 in the same
//! length unit as the axes.
//!
//! The fixed-point iteration over the auxiliary longitude difference
//! runs at scale 10^15 radians, stops when an update moves by at most
//! 10^-12 radians, and gives up after one hundred updates — the
//! expected outcome for nearly antipodal points, reported as an
//! explicit error and never as a plausible-looking distance. Two
//! degeneracies are handled exactly as values: coincident points end
//! the iteration with distance zero, and on the equatorial line, where
//! the midpoint term has a vanishing denominator, zero stands in for
//! the undefined quotient.

use crate::arith::{
    div_trunc, isqrt_u128, lemma_tdiv_bound, lemma_tdiv_exact, lemma_tdiv_range, mul_div, muldiv,
    sqrt_floor, tdiv,
};
use crate::trig::{
    atan2_rad, atan2_rad_spec, cos_rad, cos_rad_spec, cos_udeg, cos_udeg_spec, rad_of_udeg,
    rad_of_udeg_spec, sin_rad, sin_rad_spec, sin_udeg, sin_udeg_spec, FP, PI_FP,
};
use vstd::arithmetic::div_mod::{lemma_div_pos_is_pos, lemma_fundamental_div_mod};
use vstd::prelude::*;

verus! {

/// The distinguishable failure of the inverse-geodesic iteration.
#[derive(Debug, Clone, Copy, PartialEq, Eq, Structural)]
pub enum VincentyError {
    /// The iteration hit its budget without meeting the tolerance;
    /// the two points are nearly antipodal.
    NoConvergence,
}

/// An ellipsoid of revolution: semi-major and semi-minor axes at scale
/// 10^9 in any one length unit, and flattening at scale 10^15.
#[derive(Debug, Copy, Clone, PartialEq)]
pub struct Ellipsoid {
    a: i64,
    b: i64,
    f: i64,
}

impl Ellipsoid {
    /// The semi-major axis, at scale 10^9.
    pub closed spec fn axis_major(self) -> int {
        self.a as int
    }

    /// The semi-minor axis, at scale 10^9.
    pub closed spec fn axis_minor(self) -> int {
        self.b as int
    }

    /// The flattening, at scale 10^15.
    pub closed spec fn flattening(self) -> int {
        self.f as int
    }

    /// A usable ellipsoid: not too eccentric, not too small, not too
    /// large, and nearly spherical at most — the bounds under which
    /// every step of the iteration stays representable.
    pub open spec fn wf(self) -> bool {
        &&& 1_000_000_000_000 <= self.axis_minor()
        &&& self.axis_minor() <= self.axis_major()
        &&& self.axis_major() <= 2 * self.axis_minor()
        &&& self.axis_major() <= 20_000_000_000_000_000
        &&& 0 <= self.flattening() <= 10_000_000_000_000
    }

    /// An ellipsoid from its semi-major axis, semi-minor axis (both at
    /// scale 10^9, any one length unit) and flattening (scale 10^15).
    pub fn new(a: i64, b: i64, f: i64) -> (r: Ellipsoid)
        requires
            1_000_000_000_000 <= b <= a <= 2 * b,
            a <= 20_000_000_000_000_000,
            0 <= f <= 10_000_000_000_000,
        ensures
            r.axis_major() == a,
            r.axis_minor() == b,
            r.flattening() == f,
            r.wf(),
    {
        Ellipsoid { a, b, f }
    }

    /// The WGS84 ellipsoid, axes in kilometers at scale 10^9.
    pub fn wgs84() -> (r: Ellipsoid)
        ensures
            r.axis_major() == 6_378_137_000_000int,
            r.axis_minor() == 6_356_752_314_245int,
            r.flattening() == 3_352_810_664_747int,
            r.wf(),
    {
        Ellipsoid { a: 6_378_137_000_000, b: 6_356_752_314_245, f: 3_352_810_664_747 }
    }
}

/// The reduced latitude on the auxiliary sphere, in radians at scale
/// `FP`: `atan((1 - f) tan(lat))`, evaluated as a four-quadrant
/// arctangent so that the poles need no special case.
pub open spec fn reduced_lat_spec(f: int, lat: int) -> int {
    atan2_rad_spec(mul_div(FP - f, sin_udeg_spec(lat), FP as int), cos_udeg_spec(lat))
}

/// Everything one pass of the iteration establishes about the
/// spherical triangle, along with the next auxiliary longitude
/// difference.
pub struct VinStep {
    /// Sine of the angular separation on the auxiliary sphere.
    pub sin_sigma: int,
    /// Cosine of the angular separation.
    pub cos_sigma: int,
    /// The angular separation itself, radians at scale `FP`.
    pub sigma: int,
    /// Squared cosine of the forward azimuth.
    pub cos_sq_alpha: int,
    /// Cosine of twice the angular midpoint, clamped to two units.
    pub cos2sm: int,
    /// The updated auxiliary longitude difference.
    pub lambda_next: int,
}

/// One pass of the iteration at a given auxiliary longitude difference
/// `lambda`: the spherical-triangle quantities, and the corrected
/// `lambda` from the flattening-dependent series.
pub open spec fn vin_step(
    su1: int,
    cu1: int,
    su2: int,
    cu2: int,
    f: int,
    l_rad: int,
    lambda: int,
) -> VinStep {
    let sin_l: int = sin_rad_spec(lambda);
    let cos_l: int = cos_rad_spec(lambda);
    let t1: int = mul_div(cu2, sin_l, FP as int);
    let p1: int = mul_div(cu1, su2, FP as int);
    let p2: int = mul_div(su1, cu2, FP as int);
    let p3: int = mul_div(p2, cos_l, FP as int);
    let t2: int = p1 - p3;
    let sin_sigma: int = sqrt_floor(t1 * t1 + t2 * t2);
    let q2: int = mul_div(su1, su2, FP as int);
    let p_cc: int = mul_div(cu1, cu2, FP as int);
    let cos_sigma: int = q2 + mul_div(p_cc, cos_l, FP as int);
    let sigma: int = atan2_rad_spec(sin_sigma, cos_sigma);
    let q_alpha: int = mul_div(p_cc, sin_l, FP as int);
    let sa_raw: int = tdiv(q_alpha * FP, sin_sigma);
    let sin_alpha: int = if sa_raw > FP {
        FP as int
    } else if sa_raw < -FP {
        -(FP as int)
    } else {
        sa_raw
    };
    let csa: int = FP - mul_div(sin_alpha, sin_alpha, FP as int);
    let cos2sm: int = if csa == 0 {
        0
    } else {
        let raw: int = cos_sigma - tdiv((2 * q2) * FP, csa);
        if raw > 2 * FP {
            2 * (FP as int)
        } else if raw < -2 * FP {
            -2 * (FP as int)
        } else {
            raw
        }
    };
    let i1: int = 4 * FP - 3 * csa;
    let i3: int = 4 * FP + mul_div(f, i1, FP as int);
    let cc: int = mul_div(f, mul_div(csa, i3, FP as int), 16 * (FP as int));
    let m2: int = 2 * mul_div(cos2sm, cos2sm, FP as int) - FP;
    let m4: int = mul_div(mul_div(cc, cos_sigma, FP as int), m2, FP as int);
    let m5: int = cos2sm + m4;
    let m7: int = mul_div(mul_div(cc, sin_sigma, FP as int), m5, FP as int);
    let m8: int = sigma + m7;
    let m10: int = mul_div(FP - cc, f, FP as int);
    let m12: int = mul_div(mul_div(m10, sin_alpha, FP as int), m8, FP as int);
    VinStep {
        sin_sigma,
        cos_sigma,
        sigma,
        cos_sq_alpha: csa,
        cos2sm,
        lambda_next: l_rad + m12,
    }
}

/// How a run of the iteration can end.
pub enum VinLoopResult {
    /// The points coincide on the auxiliary sphere; the distance is
    /// exactly zero.
    Coincident,
    /// An update moved by at most the tolerance while budget remained.
    Converged(VinStep),
    /// The budget ran out.
    Exhausted,
}

/// The iteration itself: runs passes of [`vin_step`] until the points
/// prove coincident, an update moves by at most 1000 units (10^-12
/// radians) with budget to spare, or the budget runs out — spending
/// the last unit of budget reports exhaustion even if that very pass
/// met the tolerance.
pub open spec fn vin_loop_spec(
    su1: int,
    cu1: int,
    su2: int,
    cu2: int,
    f: int,
    l_rad: int,
    lambda: int,
    fuel: nat,
) -> VinLoopResult
    decreases fuel,
{
    if fuel == 0 {
        VinLoopResult::Exhausted
    } else {
        let st = vin_step(su1, cu1, su2, cu2, f, l_rad, lambda);
        if st.sin_sigma == 0 {
            VinLoopResult::Coincident
        } else if fuel == 1 {
            VinLoopResult::Exhausted
        } else if -1000 <= st.lambda_next - lambda <= 1000 {
            VinLoopResult::Converged(st)
        } else {
            vin_loop_spec(su1, cu1, su2, cu2, f, l_rad, st.lambda_next, (fuel - 1) as nat)
        }
    }
}

/// The closing series once the iteration has converged: the
/// ellipsoidal correction of the angular separation, and the distance
/// `b * A * (sigma - delta sigma)` at scale 10^9.
pub open spec fn vin_finish_spec(a: int, b: int, st: VinStep) -> int {
    let bb2: int = tdiv(b * b, FP as int);
    let ratio: int = tdiv(a * a - b * b, bb2);
    let usq: int = mul_div(st.cos_sq_alpha, ratio, FP as int);
    let e1: int = 320 * FP - 175 * usq;
    let e2: int = -768 * (FP as int) + mul_div(usq, e1, FP as int);
    let e3: int = 4096 * (FP as int) + mul_div(usq, e2, FP as int);
    let aa: int = FP + mul_div(usq, e3, 16384 * (FP as int));
    let g1: int = 74 * FP - 47 * usq;
    let g2: int = -128 * (FP as int) + mul_div(usq, g1, FP as int);
    let g3: int = 256 * (FP as int) + mul_div(usq, g2, FP as int);
    let bser: int = mul_div(usq, g3, 1024 * (FP as int));
    let h1: int = mul_div(st.cos2sm, st.cos2sm, FP as int);
    let h2: int = 2 * h1 - FP;
    let h3: int = mul_div(st.cos_sigma, h2, FP as int);
    let h4: int = mul_div(st.sin_sigma, st.sin_sigma, FP as int);
    let h5: int = 4 * h4 - 3 * FP;
    let h6: int = 4 * h1 - 3 * FP;
    let h7: int = mul_div(st.cos2sm, h5, FP as int);
    let h8: int = mul_div(h7, h6, FP as int);
    let h9: int = mul_div(bser, h8, 6 * (FP as int));
    let h10: int = h3 - h9;
    let h11: int = mul_div(bser, h10, 4 * (FP as int));
    let h12: int = st.cos2sm + h11;
    let h13: int = mul_div(bser, st.sin_sigma, FP as int);
    let dsig: int = mul_div(h13, h12, FP as int);
    let k1: int = mul_div(b, aa, FP as int);
    mul_div(k1, st.sigma - dsig, FP as int)
}

/// The whole oracle, at the level of the mathematical values: reduce
/// both latitudes, iterate from the longitude difference, and close
/// with the ellipsoidal series — `Ok` with the distance at scale 10^9
/// exactly when the iteration ends within its budget, the coincident
/// case giving exactly zero, and `Err` exactly when the budget runs
/// out.
pub open spec fn vincenty_spec(
    ell: Ellipsoid,
    lon1: int,
    lat1: int,
    lon2: int,
    lat2: int,
) -> Result<int, VincentyError> {
    let f: int = ell.flattening();
    let l_rad: int = rad_of_udeg_spec(lon2 - lon1);
    let u1: int = reduced_lat_spec(f, lat1);
    let u2: int = reduced_lat_spec(f, lat2);
    match vin_loop_spec(
        sin_rad_spec(u1),
        cos_rad_spec(u1),
        sin_rad_spec(u2),
        cos_rad_spec(u2),
        f,
        l_rad,
        l_rad,
        100,
    ) {
        VinLoopResult::Coincident => Ok(0),
        VinLoopResult::Converged(st) => Ok(
            vin_finish_spec(ell.axis_major(), ell.axis_minor(), st),
        ),
        VinLoopResult::Exhausted => Err(VincentyError::NoConvergence),
    }
}

/// A machine result, read as a mathematical one.
pub open spec fn lifted(r: Result<i128, VincentyError>) -> Result<int, VincentyError> {
    match r {
        Ok(d) => Ok(d as int),
        Err(e) => Err(e),
    }
}

/// Computes the exact ellipsoidal distance between two geographic
/// coordinates (whole microdegrees), at scale 10^9 in the unit of the
/// ellipsoid's axes. Fails — explicitly, never with a made-up
/// distance — exactly when the iteration's budget runs out, which is
/// expected for nearly antipodal points.
#[verifier::rlimit(100)]
pub fn vincenty_distance(
    ell: &Ellipsoid,
    lon1: i64,
    lat1: i64,
    lon2: i64,
    lat2: i64,
) -> (r: Result<i128, VincentyError>)
    requires
        ell.wf(),
        -180_000_000 <= lon1 <= 180_000_000,
        -90_000_000 <= lat1 <= 90_000_000,
        -180_000_000 <= lon2 <= 180_000_000,
        -90_000_000 <= lat2 <= 90_000_000,
    ensures
        lifted(r) == vincenty_spec(*ell, lon1 as int, lat1 as int, lon2 as int, lat2 as int),
{
    let fval: i128 = ell.f as i128;
    let a128: i128 = ell.a as i128;
    let b128: i128 = ell.b as i128;
    let l_rad: i128 = rad_of_udeg(lon2 - lon1);

    let s1: i128 = sin_udeg(lat1);
    let c1: i128 = cos_udeg(lat1);
    let sr1: i128 = muldiv(FP - fval, s1, FP, Ghost(FP as int), Ghost(FP as int), Ghost(FP as int));
    let u1: i128 = atan2_rad(sr1, c1);
    let su1: i128 = sin_rad(u1);
    let cu1: i128 = cos_rad(u1);

    let s2: i128 = sin_udeg(lat2);
    let c2: i128 = cos_udeg(lat2);
    let sr2: i128 = muldiv(FP - fval, s2, FP, Ghost(FP as int), Ghost(FP as int), Ghost(FP as int));
    let u2: i128 = atan2_rad(sr2, c2);
    let su2: i128 = sin_rad(u2);
    let cu2: i128 = cos_rad(u2);

    let mut lambda: i128 = l_rad;
    let mut iters: u64 = 100;
    loop
        invariant
            ell.wf(),
            a128 == ell.axis_major(),
            b128 == ell.axis_minor(),
            fval == ell.flattening(),
            0 <= fval <= 10_000_000_000_000,
            1_000_000_000_000 <= b128 <= a128 <= 2 * b128,
            a128 <= 20_000_000_000_000_000,
            -FP <= su1 <= FP,
            -FP <= cu1 <= FP,
            -FP <= su2 <= FP,
            -FP <= cu2 <= FP,
            su1 == sin_rad_spec(reduced_lat_spec(fval as int, lat1 as int)),
            cu1 == cos_rad_spec(reduced_lat_spec(fval as int, lat1 as int)),
            su2 == sin_rad_spec(reduced_lat_spec(fval as int, lat2 as int)),
            cu2 == cos_rad_spec(reduced_lat_spec(fval as int, lat2 as int)),
            -6_283_185_307_179_587 <= l_rad <= 6_283_185_307_179_587,
            l_rad == rad_of_udeg_spec(lon2 as int - lon1 as int),
            -6_350_000_000_000_000 <= lambda <= 6_350_000_000_000_000,
            1 <= iters <= 100,
            vin_loop_spec(su1 as int, cu1 as int, su2 as int, cu2 as int, fval as int,
                l_rad as int, l_rad as int, 100) == vin_loop_spec(su1 as int, cu1 as int,
                su2 as int, cu2 as int, fval as int, l_rad as int, lambda as int, iters as nat),
        decreases iters,
    {
        let ghost fuel0: nat = iters as nat;
        let ghost st = vin_step(su1 as int, cu1 as int, su2 as int, cu2 as int, fval as int,
            l_rad as int, lambda as int);

        let sin_l: i128 = sin_rad(lambda);
        let cos_l: i128 = cos_rad(lambda);
        let t1: i128 = muldiv(cu2, sin_l, FP, Ghost(FP as int), Ghost(FP as int), Ghost(FP as int));
        let p1: i128 = muldiv(cu1, su2, FP, Ghost(FP as int), Ghost(FP as int), Ghost(FP as int));
        let p2: i128 = muldiv(su1, cu2, FP, Ghost(FP as int), Ghost(FP as int), Ghost(FP as int));
        let p3: i128 = muldiv(p2, cos_l, FP, Ghost(FP as int), Ghost(FP as int), Ghost(FP as int));
        let t2: i128 = p1 - p3;
        proof {
            assert(0 <= t1 * t1 <= 1_000_000_000_000_000_000_000_000_000_000 && 0 <= t2 * t2
                <= 4_000_000_000_000_000_000_000_000_000_000) by (nonlinear_arith)
                requires
                    -FP <= t1 <= FP,
                    -(2 * FP) <= t2 <= 2 * FP,
                    FP == 1_000_000_000_000_000,
            ;
        }
        let ssq: i128 = t1 * t1 + t2 * t2;
        let ss_u: u128 = isqrt_u128(ssq as u128);
        proof {
            assert(ss_u <= 2_300_000_000_000_000) by (nonlinear_arith)
                requires
                    ss_u as int * ss_u as int <= ssq as int,
                    ssq <= 5_000_000_000_000_000_000_000_000_000_000,
                    0 <= ss_u,
            ;
        }
        let sin_sigma: i128 = ss_u as i128;
        proof {
            assert(st.sin_sigma == sin_sigma as int);
        }
        if sin_sigma == 0 {
            return Ok(0);
        }
        let q2: i128 = muldiv(su1, su2, FP, Ghost(FP as int), Ghost(FP as int), Ghost(FP as int));
        let p_cc: i128 = muldiv(cu1, cu2, FP, Ghost(FP as int), Ghost(FP as int), Ghost(FP as int));
        let cos_sigma: i128 = q2 + muldiv(p_cc, cos_l, FP, Ghost(FP as int), Ghost(FP as int),
            Ghost(FP as int));
        let sigma: i128 = atan2_rad(sin_sigma, cos_sigma);
        let q_alpha: i128 = muldiv(p_cc, sin_l, FP, Ghost(FP as int), Ghost(FP as int),
            Ghost(FP as int));
        let num_sa: i128 = q_alpha * FP;
        let sa_raw: i128 = div_trunc(num_sa, sin_sigma);
        proof {
            assert(1_000_000_000_000_000_000_000_000_000_000 * 1
                <= 1_000_000_000_000_000_000_000_000_000_000 * (sin_sigma as int))
                by (nonlinear_arith)
                requires
                    1 <= sin_sigma,
            ;
            lemma_tdiv_bound(num_sa as int, sin_sigma as int,
                1_000_000_000_000_000_000_000_000_000_000);
        }
        let sin_alpha: i128 = if sa_raw > FP {
            FP
        } else if sa_raw < -FP {
            -FP
        } else {
            sa_raw
        };
        let sasq: i128 = muldiv(sin_alpha, sin_alpha, FP, Ghost(FP as int), Ghost(FP as int),
            Ghost(FP as int));
        proof {
            assert(0 <= sin_alpha * sin_alpha) by (nonlinear_arith);
            lemma_div_pos_is_pos(sin_alpha * sin_alpha, FP as int);
        }
        let csa: i128 = FP - sasq;
        let cos2sm: i128 = if csa == 0 {
            0
        } else {
            let num2: i128 = (2 * q2) * FP;
            let w2: i128 = div_trunc(num2, csa);
            proof {
                assert(2_000_000_000_000_000_000_000_000_000_000 * 1
                    <= 2_000_000_000_000_000_000_000_000_000_000 * (csa as int))
                    by (nonlinear_arith)
                    requires
                        1 <= csa,
                ;
                lemma_tdiv_bound(num2 as int, csa as int,
                    2_000_000_000_000_000_000_000_000_000_000);
            }
            let raw: i128 = cos_sigma - w2;
            if raw > 2 * FP {
                2 * FP
            } else if raw < -(2 * FP) {
                -(2 * FP)
            } else {
                raw
            }
        };
        let i1: i128 = 4 * FP - 3 * csa;
        let i2: i128 = muldiv(fval, i1, FP, Ghost(10_000_000_000_000), Ghost(4 * FP as int),
            Ghost(40_000_000_000_000));
        let i3: i128 = 4 * FP + i2;
        let i4: i128 = muldiv(csa, i3, FP, Ghost(FP as int), Ghost(4_040_000_000_000_000),
            Ghost(4_040_000_000_000_000));
        let cc: i128 = muldiv(fval, i4, 16 * FP, Ghost(10_000_000_000_000),
            Ghost(4_040_000_000_000_000), Ghost(2_600_000_000_000));
        let m1: i128 = muldiv(cos2sm, cos2sm, FP, Ghost(2 * FP as int), Ghost(2 * FP as int),
            Ghost(4 * FP as int));
        proof {
            assert(0 <= cos2sm * cos2sm) by (nonlinear_arith);
            lemma_div_pos_is_pos(cos2sm * cos2sm, FP as int);
        }
        let m2: i128 = 2 * m1 - FP;
        let m3: i128 = muldiv(cc, cos_sigma, FP, Ghost(2_600_000_000_000), Ghost(2 * FP as int),
            Ghost(5_200_000_000_000));
        let m4: i128 = muldiv(m3, m2, FP, Ghost(5_200_000_000_000), Ghost(7 * FP as int),
            Ghost(36_400_000_000_000));
        let m5: i128 = cos2sm + m4;
        let m6: i128 = muldiv(cc, sin_sigma, FP, Ghost(2_600_000_000_000),
            Ghost(2_300_000_000_000_000), Ghost(5_980_000_000_000));
        let m7: i128 = muldiv(m6, m5, FP, Ghost(5_980_000_000_000), Ghost(2_040_000_000_000_000),
            Ghost(12_200_000_000_000));
        let m8: i128 = sigma + m7;
        let m9: i128 = FP - cc;
        let m10: i128 = muldiv(m9, fval, FP, Ghost(FP as int), Ghost(10_000_000_000_000),
            Ghost(10_000_000_000_000));
        let m11: i128 = muldiv(m10, sin_alpha, FP, Ghost(10_000_000_000_000), Ghost(FP as int),
            Ghost(10_000_000_000_000));
        let m12: i128 = muldiv(m11, m8, FP, Ghost(10_000_000_000_000),
            Ghost(3_160_000_000_000_000), Ghost(31_600_000_000_000));
        let lambda_next: i128 = l_rad + m12;
        proof {
            assert(st.cos_sigma == cos_sigma as int);
            assert(st.sigma == sigma as int);
            assert(st.cos_sq_alpha == csa as int);
            assert(st.cos2sm == cos2sm as int);
            assert(st.lambda_next == lambda_next as int);
        }
        iters = iters - 1;
        if iters == 0 {
            proof {
                assert(vin_loop_spec(su1 as int, cu1 as int, su2 as int, cu2 as int, fval as int,
                    l_rad as int, lambda as int, fuel0) == VinLoopResult::Exhausted);
            }
            return Err(VincentyError::NoConvergence);
        }
        let dl: i128 = lambda_next - lambda;
        if -1000 <= dl && dl <= 1000 {
            proof {
                assert(vin_loop_spec(su1 as int, cu1 as int, su2 as int, cu2 as int, fval as int,
                    l_rad as int, lambda as int, fuel0) == VinLoopResult::Converged(st));
            }
            proof {
                assert(1_000_000_000_000_000_000_000_000 <= b128 * b128
                    && b128 * b128 <= 400_000_000_000_000_000_000_000_000_000_000
                    && b128 * b128 <= a128 * a128 <= 4 * (b128 * b128)) by (nonlinear_arith)
                    requires
                        1_000_000_000_000 <= b128 <= a128 <= 2 * b128,
                        a128 <= 20_000_000_000_000_000,
                ;
            }
            let bsq: i128 = b128 * b128;
            let asq: i128 = a128 * a128;
            let bb2: i128 = div_trunc(bsq, FP);
            let e2num: i128 = asq - bsq;
            proof {
                lemma_tdiv_range(bsq as int, FP as int, 1_000_000_000,
                    400_000_000_000_000_000);
                lemma_fundamental_div_mod(bsq as int, FP as int);
                assert(e2num <= 3_100_000_000_000_000 * (bb2 as int)) by (nonlinear_arith)
                    requires
                        e2num <= 3 * (bsq as int),
                        bsq as int <= (FP as int) * (bb2 as int) + FP,
                        1_000_000_000 <= bb2,
                        FP == 1_000_000_000_000_000,
                ;
                assert(0 <= e2num <= 3_100_000_000_000_000 * (bb2 as int));
                lemma_tdiv_bound(e2num as int, bb2 as int, 3_100_000_000_000_000);
                lemma_div_pos_is_pos(e2num as int, bb2 as int);
            }
            let ratio: i128 = div_trunc(e2num, bb2);
            let usq: i128 = muldiv(csa, ratio, FP, Ghost(FP as int),
                Ghost(3_100_000_000_000_000), Ghost(3_100_000_000_000_000));
            let e1: i128 = 320 * FP - 175 * usq;
            let e2: i128 = -768 * FP + muldiv(usq, e1, FP, Ghost(3_100_000_000_000_000),
                Ghost(330_000_000_000_000_000), Ghost(1_023_000_000_000_000_000));
            let e3: i128 = 4096 * FP + muldiv(usq, e2, FP, Ghost(3_100_000_000_000_000),
                Ghost(1_800_000_000_000_000_000), Ghost(5_580_000_000_000_000_000));
            let aa: i128 = FP + muldiv(usq, e3, 16384 * FP, Ghost(3_100_000_000_000_000),
                Ghost(9_700_000_000_000_000_000), Ghost(1_900_000_000_000_000));
            let g1: i128 = 74 * FP - 47 * usq;
            let g2: i128 = -128 * FP + muldiv(usq, g1, FP, Ghost(3_100_000_000_000_000),
                Ghost(75_000_000_000_000_000), Ghost(232_500_000_000_000_000));
            let g3: i128 = 256 * FP + muldiv(usq, g2, FP, Ghost(3_100_000_000_000_000),
                Ghost(370_000_000_000_000_000), Ghost(1_147_000_000_000_000_000));
            let bser: i128 = muldiv(usq, g3, 1024 * FP, Ghost(3_100_000_000_000_000),
                Ghost(1_410_000_000_000_000_000), Ghost(4_270_000_000_000_000));
            let h3: i128 = muldiv(cos_sigma, m2, FP, Ghost(2 * FP as int), Ghost(7 * FP as int),
                Ghost(14 * FP as int));
            let h4: i128 = muldiv(sin_sigma, sin_sigma, FP, Ghost(2_300_000_000_000_000),
                Ghost(2_300_000_000_000_000), Ghost(5_290_000_000_000_000));
            let h5: i128 = 4 * h4 - 3 * FP;
            let h6: i128 = 4 * m1 - 3 * FP;
            let h7: i128 = muldiv(cos2sm, h5, FP, Ghost(2 * FP as int),
                Ghost(18_200_000_000_000_000), Ghost(36_400_000_000_000_000));
            let h8: i128 = muldiv(h7, h6, FP, Ghost(36_400_000_000_000_000),
                Ghost(13_000_000_000_000_000), Ghost(474_000_000_000_000_000));
            let h9: i128 = muldiv(bser, h8, 6 * FP, Ghost(4_270_000_000_000_000),
                Ghost(474_000_000_000_000_000), Ghost(338_000_000_000_000_000));
            let h10: i128 = h3 - h9;
            let h11: i128 = muldiv(bser, h10, 4 * FP, Ghost(4_270_000_000_000_000),
                Ghost(352_000_000_000_000_000), Ghost(376_000_000_000_000_000));
            let h12: i128 = cos2sm + h11;
            let h13: i128 = muldiv(bser, sin_sigma, FP, Ghost(4_270_000_000_000_000),
                Ghost(2_300_000_000_000_000), Ghost(9_821_000_000_000_000));
            let dsig: i128 = muldiv(h13, h12, FP, Ghost(9_821_000_000_000_000),
                Ghost(378_000_000_000_000_000), Ghost(3_713_000_000_000_000_000));
            let k1: i128 = muldiv(b128, aa, FP, Ghost(20_000_000_000_000_000),
                Ghost(2_900_000_000_000_000), Ghost(58_000_000_000_000_000));
            let k2: i128 = sigma - dsig;
            let s: i128 = muldiv(k1, k2, FP, Ghost(58_000_000_000_000_000),
                Ghost(3_720_000_000_000_000_000), Ghost(216_000_000_000_000_000_000));
            proof {
                assert(s == vin_finish_spec(a128 as int, b128 as int, st));
            }
            return Ok(s);
        }
        lambda = lambda_next;
    }
}

/// Oracle degeneracy: the ellipsoidal distance between a point and
/// itself is exactly zero — the very first pass of the iteration
/// detects the coincidence and ends.
pub proof fn lemma_vincenty_self_is_zero(ell: Ellipsoid, lon: int, lat: int)
    ensures
        vincenty_spec(ell, lon, lat, lon, lat) == Ok::<int, VincentyError>(0),
{
    let f: int = ell.flattening();
    assert(rad_of_udeg_spec(0) == 0) by {
        assert(0 * PI_FP == 0);
        vstd::arithmetic::div_mod::lemma_div_of0(180_000_000);
    }
    let u: int = reduced_lat_spec(f, lat);
    let su: int = sin_rad_spec(u);
    let cu: int = cos_rad_spec(u);
    assert(sin_rad_spec(0) == 0);
    assert(cos_rad_spec(0) == FP);
    let st = vin_step(su, cu, su, cu, f, 0, 0);
    assert(st.sin_sigma == 0) by {
        let t1: int = mul_div(cu, sin_rad_spec(0), FP as int);
        assert(cu * 0 == 0);
        vstd::arithmetic::div_mod::lemma_div_of0(FP as int);
        let p1: int = mul_div(cu, su, FP as int);
        let p2: int = mul_div(su, cu, FP as int);
        assert(cu * su == su * cu) by (nonlinear_arith);
        lemma_tdiv_exact(p2, FP as int);
        assert(mul_div(p2, cos_rad_spec(0), FP as int) == p2);
        assert(t1 == 0 && p1 - p2 == 0);
    }
    assert(vin_loop_spec(su, cu, su, cu, f, 0, 0, 100) == VinLoopResult::Coincident);
}

} // verus!
