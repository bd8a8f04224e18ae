//! Fixed-point trigonometry at scale `FP` (10^15 units per 1.0).
//!
//! Angles arrive either as radians at scale `FP` or as microdegrees
//! (10^-6 degree). Quadrant folding is done exactly — in whole
//! microdegrees for degree input, with the truncated constant for pi for
//! radian input — and a truncated Taylor polynomial evaluates the core
//! function on `[0, pi/2]`. Every function returns exactly the value of
//! its spec-level mirror.

use crate::arith::{div_trunc, euclid_rem_i64, lemma_tdiv_bound, mul_div, muldiv, tdiv};
use vstd::prelude::*;

verus! {

/// Fixed-point unit: this many integer steps stand for the real value 1.
pub const FP: i128 = 1_000_000_000_000_000;

/// pi at scale `FP`, truncated.
pub const PI_FP: i128 = 3_141_592_653_589_793;

/// 2 * pi at scale `FP`, truncated.
pub const TWO_PI_FP: i128 = 6_283_185_307_179_586;

/// pi / 2 at scale `FP`, truncated.
pub const HALF_PI_FP: i128 = 1_570_796_326_794_896;

/// pi / 4 at scale `FP`, truncated.
pub const QUARTER_PI_FP: i128 = 785_398_163_397_448;

/// Microdegrees in a full turn.
pub const TURN_UDEG: i64 = 360_000_000;

/// Microdegrees in a quarter turn.
pub const QUARTER_UDEG: i64 = 90_000_000;

/// Radians at scale `FP` for an angle given in microdegrees:
/// `z * pi / 180e6`, truncated.
pub open spec fn rad_of_udeg_spec(z: int) -> int {
    tdiv(z * PI_FP, 180_000_000)
}

/// The truncated Taylor polynomial for the sine of `x` radians (scale
/// `FP`), valid on `[0, pi/2]`, with the final value clamped to `FP`.
pub open spec fn sin_taylor_spec(x: int) -> int {
    let w: int = mul_div(x, x, FP as int);
    let u7: int = FP - mul_div(w, FP as int, 272 * FP as int);
    let u6: int = FP - mul_div(w, u7, 210 * FP as int);
    let u5: int = FP - mul_div(w, u6, 156 * FP as int);
    let u4: int = FP - mul_div(w, u5, 110 * FP as int);
    let u3: int = FP - mul_div(w, u4, 72 * FP as int);
    let u2: int = FP - mul_div(w, u3, 42 * FP as int);
    let u1: int = FP - mul_div(w, u2, 20 * FP as int);
    let u0: int = FP - mul_div(w, u1, 6 * FP as int);
    let s: int = mul_div(x, u0, FP as int);
    if s > FP {
        FP as int
    } else {
        s
    }
}

/// The truncated Taylor polynomial for the cosine of `x` radians (scale
/// `FP`), valid on `[0, pi/2]`. Exactly `FP` at `x == 0`.
pub open spec fn cos_taylor_spec(x: int) -> int {
    let w: int = mul_div(x, x, FP as int);
    let v7: int = FP - mul_div(w, FP as int, 240 * FP as int);
    let v6: int = FP - mul_div(w, v7, 182 * FP as int);
    let v5: int = FP - mul_div(w, v6, 132 * FP as int);
    let v4: int = FP - mul_div(w, v5, 90 * FP as int);
    let v3: int = FP - mul_div(w, v4, 56 * FP as int);
    let v2: int = FP - mul_div(w, v3, 30 * FP as int);
    let v1: int = FP - mul_div(w, v2, 12 * FP as int);
    FP - mul_div(w, v1, 2 * FP as int)
}

/// Sine of an angle in radians at scale `FP`, for `|x| <= 8e15`:
/// one exact turn correction brings `x` into `[-pi, pi]`, then the sign
/// and the half-turn are folded out.
pub open spec fn sin_rad_spec(x: int) -> int {
    let y: int = if x > PI_FP {
        x - TWO_PI_FP
    } else if x < -PI_FP {
        x + TWO_PI_FP
    } else {
        x
    };
    if y >= 0 {
        if y <= HALF_PI_FP {
            sin_taylor_spec(y)
        } else {
            sin_taylor_spec(PI_FP - y)
        }
    } else {
        if -y <= HALF_PI_FP {
            -sin_taylor_spec(-y)
        } else {
            -sin_taylor_spec(PI_FP + y)
        }
    }
}

/// Cosine of an angle in radians at scale `FP`, for `|x| <= 8e15`.
/// Exactly `FP` at `x == 0`.
pub open spec fn cos_rad_spec(x: int) -> int {
    let y: int = if x > PI_FP {
        x - TWO_PI_FP
    } else if x < -PI_FP {
        x + TWO_PI_FP
    } else {
        x
    };
    let c: int = if y < 0 {
        -y
    } else {
        y
    };
    if c <= HALF_PI_FP {
        cos_taylor_spec(c)
    } else {
        -cos_taylor_spec(PI_FP - c)
    }
}

/// Sine of an angle in whole microdegrees, at scale `FP`. The quadrant
/// is folded out exactly in integer microdegrees, so the identities
/// between quadrants hold exactly.
pub open spec fn sin_udeg_spec(a: int) -> int {
    let m: int = a % (TURN_UDEG as int);
    let q: int = m / (QUARTER_UDEG as int);
    let z: int = m % (QUARTER_UDEG as int);
    if q == 0 {
        sin_taylor_spec(rad_of_udeg_spec(z))
    } else if q == 1 {
        sin_taylor_spec(rad_of_udeg_spec(QUARTER_UDEG - z))
    } else if q == 2 {
        -sin_taylor_spec(rad_of_udeg_spec(z))
    } else {
        -sin_taylor_spec(rad_of_udeg_spec(QUARTER_UDEG - z))
    }
}

/// Cosine of an angle in whole microdegrees, at scale `FP`.
pub open spec fn cos_udeg_spec(a: int) -> int {
    let m: int = a % (TURN_UDEG as int);
    let q: int = m / (QUARTER_UDEG as int);
    let z: int = m % (QUARTER_UDEG as int);
    if q == 0 {
        sin_taylor_spec(rad_of_udeg_spec(QUARTER_UDEG - z))
    } else if q == 1 {
        -sin_taylor_spec(rad_of_udeg_spec(z))
    } else if q == 2 {
        -sin_taylor_spec(rad_of_udeg_spec(QUARTER_UDEG - z))
    } else {
        sin_taylor_spec(rad_of_udeg_spec(z))
    }
}

/// tan(pi/8) at scale `FP`, truncated; the folding threshold for the
/// arctangent.
pub const ATAN_SPLIT: i128 = 414_213_562_373_095;

/// 180/pi at scale 10^15; with the denominator below it converts radians
/// at scale `FP` to microdegrees.
pub const UDEG_OF_RAD_NUM: i128 = 57_295_779_513_082_320;

/// Denominator paired with `UDEG_OF_RAD_NUM` (10^24).
pub const UDEG_OF_RAD_DEN: i128 = 1_000_000_000_000_000_000_000_000;

/// Largest argument magnitude accepted by the arctangent-of-quotient
/// functions.
pub const ATAN2_MAX_ARG: i128 = 20_000_000_000_000_000_000;

/// Microdegrees for a value in radians at scale `FP`, truncated.
pub open spec fn udeg_of_rad_spec(r: int) -> int {
    tdiv(r * UDEG_OF_RAD_NUM, UDEG_OF_RAD_DEN as int)
}

/// The truncated Taylor polynomial for the arctangent (radians at scale
/// `FP`) of `v` at scale `FP`, valid on `[0, 0.45]`.
pub open spec fn atan_poly_spec(v: int) -> int {
    let w: int = mul_div(v, v, FP as int);
    let p21: int = 47_619_047_619_047 - mul_div(w, 43_478_260_869_565, FP as int);
    let p19: int = 52_631_578_947_368 - mul_div(w, p21, FP as int);
    let p17: int = 58_823_529_411_764 - mul_div(w, p19, FP as int);
    let p15: int = 66_666_666_666_666 - mul_div(w, p17, FP as int);
    let p13: int = 76_923_076_923_076 - mul_div(w, p15, FP as int);
    let p11: int = 90_909_090_909_090 - mul_div(w, p13, FP as int);
    let p9: int = 111_111_111_111_111 - mul_div(w, p11, FP as int);
    let p7: int = 142_857_142_857_142 - mul_div(w, p9, FP as int);
    let p5: int = 200_000_000_000_000 - mul_div(w, p7, FP as int);
    let p3: int = 333_333_333_333_333 - mul_div(w, p5, FP as int);
    let q: int = FP - mul_div(w, p3, FP as int);
    mul_div(v, q, FP as int)
}

/// Arctangent in radians at scale `FP` of a ratio `t` in `[0, 1]` at
/// scale `FP`: ratios above tan(pi/8) are folded with
/// `atan(t) = pi/4 - atan((1 - t) / (1 + t))`.
pub open spec fn atan_core_spec(t: int) -> int {
    if t <= ATAN_SPLIT {
        atan_poly_spec(t)
    } else {
        QUARTER_PI_FP - atan_poly_spec(tdiv((FP - t) * FP, FP + t))
    }
}

/// Four-quadrant arctangent in radians at scale `FP`. Zero for the
/// origin; otherwise in `[-pi, pi]`, measured from the positive `x`
/// direction.
pub open spec fn atan2_rad_spec(y: int, x: int) -> int {
    if y == 0 && x == 0 {
        0
    } else {
        let ay: int = if y < 0 { -y } else { y };
        let ax: int = if x < 0 { -x } else { x };
        let base: int = if ay <= ax {
            atan_core_spec(tdiv(ay * FP, ax))
        } else {
            HALF_PI_FP - atan_core_spec(tdiv(ax * FP, ay))
        };
        if x >= 0 {
            if y >= 0 {
                base
            } else {
                -base
            }
        } else {
            if y >= 0 {
                PI_FP - base
            } else {
                base - PI_FP
            }
        }
    }
}

/// Four-quadrant arctangent in whole microdegrees. Zero for the origin;
/// otherwise in `[-180e6, 180e6]`. Only the core arctangent is
/// converted from radians; all quadrant arithmetic is exact in
/// microdegrees, so swapping the signs of both arguments moves the
/// result by exactly half a turn.
pub open spec fn atan2_udeg_spec(y: int, x: int) -> int {
    if y == 0 && x == 0 {
        0
    } else {
        let ay: int = if y < 0 { -y } else { y };
        let ax: int = if x < 0 { -x } else { x };
        let base: int = if ay <= ax {
            udeg_of_rad_spec(atan_core_spec(tdiv(ay * FP, ax)))
        } else {
            90_000_000 - udeg_of_rad_spec(atan_core_spec(tdiv(ax * FP, ay)))
        };
        if x >= 0 {
            if y >= 0 {
                base
            } else {
                -base
            }
        } else {
            if y >= 0 {
                180_000_000 - base
            } else {
                base - 180_000_000
            }
        }
    }
}

/// The arctangent polynomial stays between 0 and a little under pi/4 on
/// its domain, and is exactly 0 at 0.
pub proof fn lemma_atan_poly_spec_bounds(v: int)
    requires
        0 <= v <= 450_000_000_000_000,
    ensures
        0 <= atan_poly_spec(v) <= 495_000_000_000_000,
        v == 0 ==> atan_poly_spec(v) == 0,
{
    let w: int = mul_div(v, v, FP as int);
    assert(0 <= v * v <= 202_500_000_000_000 * (FP as int)) by (nonlinear_arith)
        requires
            0 <= v <= 450_000_000_000_000,
    ;
    lemma_tdiv_bound(v * v, FP as int, 202_500_000_000_000);
    vstd::arithmetic::div_mod::lemma_div_pos_is_pos(v * v, FP as int);
    assert forall|p: int| -430_000_000_000_000 <= p <= 430_000_000_000_000 implies
        -91_000_000_000_000 <= #[trigger] mul_div(w, p, FP as int) <= 91_000_000_000_000 by {
        assert(-91_000_000_000_000 * (FP as int) <= w * p <= 91_000_000_000_000 * (FP as int))
            by (nonlinear_arith)
            requires
                0 <= w <= 210_000_000_000_000,
                -430_000_000_000_000 <= p <= 430_000_000_000_000,
        ;
        lemma_tdiv_bound(w * p, FP as int, 91_000_000_000_000);
    }
    let p21: int = 47_619_047_619_047 - mul_div(w, 43_478_260_869_565, FP as int);
    let p19: int = 52_631_578_947_368 - mul_div(w, p21, FP as int);
    let p17: int = 58_823_529_411_764 - mul_div(w, p19, FP as int);
    let p15: int = 66_666_666_666_666 - mul_div(w, p17, FP as int);
    let p13: int = 76_923_076_923_076 - mul_div(w, p15, FP as int);
    let p11: int = 90_909_090_909_090 - mul_div(w, p13, FP as int);
    let p9: int = 111_111_111_111_111 - mul_div(w, p11, FP as int);
    let p7: int = 142_857_142_857_142 - mul_div(w, p9, FP as int);
    let p5: int = 200_000_000_000_000 - mul_div(w, p7, FP as int);
    let p3: int = 333_333_333_333_333 - mul_div(w, p5, FP as int);
    let q: int = FP - mul_div(w, p3, FP as int);
    assert(0 <= v * q <= 495_000_000_000_000 * (FP as int)) by (nonlinear_arith)
        requires
            0 <= v <= 450_000_000_000_000,
            909_000_000_000_000 <= q <= 1_100_000_000_000_000,
    ;
    lemma_tdiv_bound(v * q, FP as int, 495_000_000_000_000);
    vstd::arithmetic::div_mod::lemma_div_pos_is_pos(v * q, FP as int);
    if v == 0 {
        assert(atan_poly_spec(0) == tdiv(0 * q, FP as int));
    }
}

/// The folded arctangent stays within `[0, pi/4]` on `[0, 1]`, and is
/// exactly 0 at 0.
pub proof fn lemma_atan_core_spec_bounds(t: int)
    requires
        0 <= t <= FP,
    ensures
        0 <= atan_core_spec(t) <= QUARTER_PI_FP,
        t == 0 ==> atan_core_spec(t) == 0,
{
    if t <= ATAN_SPLIT {
        lemma_atan_poly_spec_bounds(t);
    } else {
        let u: int = tdiv((FP - t) * FP, FP + t);
        assert(0 <= (FP - t) * (FP as int) <= 450_000_000_000_000 * (FP + t)) by (nonlinear_arith)
            requires
                ATAN_SPLIT < t <= FP,
        ;
        lemma_tdiv_bound((FP - t) * FP, FP + t, 450_000_000_000_000);
        vstd::arithmetic::div_mod::lemma_div_pos_is_pos((FP - t) * FP, FP + t);
        lemma_atan_poly_spec_bounds(u);
    }
}

/// Converting a core arctangent to microdegrees lands in `[0, 45e6]`.
pub proof fn lemma_udeg_of_core_bounds(r: int)
    requires
        0 <= r <= QUARTER_PI_FP,
    ensures
        0 <= udeg_of_rad_spec(r) <= 45_000_000,
        r == 0 ==> udeg_of_rad_spec(r) == 0,
{
    lemma_tdiv_bound(r * UDEG_OF_RAD_NUM, UDEG_OF_RAD_DEN as int, 45_000_000);
    vstd::arithmetic::div_mod::lemma_div_pos_is_pos(r * UDEG_OF_RAD_NUM, UDEG_OF_RAD_DEN as int);
}

/// Negating both arguments of the microdegree arctangent moves the
/// result by exactly half a turn, one way or the other.
pub proof fn lemma_atan2_udeg_spec_antisym(y: int, x: int)
    requires
        !(y == 0 && x == 0),
        -ATAN2_MAX_ARG <= y <= ATAN2_MAX_ARG,
        -ATAN2_MAX_ARG <= x <= ATAN2_MAX_ARG,
    ensures
        atan2_udeg_spec(-y, -x) - atan2_udeg_spec(y, x) == 180_000_000
            || atan2_udeg_spec(-y, -x) - atan2_udeg_spec(y, x) == -180_000_000,
{
    let ay: int = if y < 0 { -y } else { y };
    let ax: int = if x < 0 { -x } else { x };
    let base: int = if ay <= ax {
        udeg_of_rad_spec(atan_core_spec(tdiv(ay * FP, ax)))
    } else {
        90_000_000 - udeg_of_rad_spec(atan_core_spec(tdiv(ax * FP, ay)))
    };
    if ay <= ax {
        assert(0 <= ay * FP <= (FP as int) * ax) by (nonlinear_arith)
            requires
                0 <= ay <= ax,
        ;
        lemma_tdiv_bound(ay * FP, ax, FP as int);
        vstd::arithmetic::div_mod::lemma_div_pos_is_pos(ay * FP, ax);
        lemma_atan_core_spec_bounds(tdiv(ay * FP, ax));
        lemma_udeg_of_core_bounds(atan_core_spec(tdiv(ay * FP, ax)));
    } else {
        assert(0 <= ax * FP <= (FP as int) * ay) by (nonlinear_arith)
            requires
                0 <= ax <= ay,
        ;
        lemma_tdiv_bound(ax * FP, ay, FP as int);
        vstd::arithmetic::div_mod::lemma_div_pos_is_pos(ax * FP, ay);
        lemma_atan_core_spec_bounds(tdiv(ax * FP, ay));
        lemma_udeg_of_core_bounds(atan_core_spec(tdiv(ax * FP, ay)));
    }
    if ay == 0 {
        vstd::arithmetic::div_mod::lemma_div_of0(ax);
    }
    if ax == 0 {
        vstd::arithmetic::div_mod::lemma_div_of0(ay);
    }
    assert(0 <= base <= 90_000_000);
}

/// The arctangent polynomial on `[0, 0.45]`, radians at scale `FP`.
pub fn atan_poly(v: i128) -> (r: i128)
    requires
        0 <= v <= 450_000_000_000_000,
    ensures
        r == atan_poly_spec(v as int),
        0 <= r <= 495_000_000_000_000,
{
    let w: i128 = muldiv(v, v, FP, Ghost(450_000_000_000_000), Ghost(450_000_000_000_000),
        Ghost(202_500_000_000_000));
    let p21: i128 = 47_619_047_619_047 - muldiv(w, 43_478_260_869_565, FP,
        Ghost(210_000_000_000_000), Ghost(430_000_000_000_000), Ghost(91_000_000_000_000));
    let p19: i128 = 52_631_578_947_368 - muldiv(w, p21, FP, Ghost(210_000_000_000_000),
        Ghost(430_000_000_000_000), Ghost(91_000_000_000_000));
    let p17: i128 = 58_823_529_411_764 - muldiv(w, p19, FP, Ghost(210_000_000_000_000),
        Ghost(430_000_000_000_000), Ghost(91_000_000_000_000));
    let p15: i128 = 66_666_666_666_666 - muldiv(w, p17, FP, Ghost(210_000_000_000_000),
        Ghost(430_000_000_000_000), Ghost(91_000_000_000_000));
    let p13: i128 = 76_923_076_923_076 - muldiv(w, p15, FP, Ghost(210_000_000_000_000),
        Ghost(430_000_000_000_000), Ghost(91_000_000_000_000));
    let p11: i128 = 90_909_090_909_090 - muldiv(w, p13, FP, Ghost(210_000_000_000_000),
        Ghost(430_000_000_000_000), Ghost(91_000_000_000_000));
    let p9: i128 = 111_111_111_111_111 - muldiv(w, p11, FP, Ghost(210_000_000_000_000),
        Ghost(430_000_000_000_000), Ghost(91_000_000_000_000));
    let p7: i128 = 142_857_142_857_142 - muldiv(w, p9, FP, Ghost(210_000_000_000_000),
        Ghost(430_000_000_000_000), Ghost(91_000_000_000_000));
    let p5: i128 = 200_000_000_000_000 - muldiv(w, p7, FP, Ghost(210_000_000_000_000),
        Ghost(430_000_000_000_000), Ghost(91_000_000_000_000));
    let p3: i128 = 333_333_333_333_333 - muldiv(w, p5, FP, Ghost(210_000_000_000_000),
        Ghost(430_000_000_000_000), Ghost(91_000_000_000_000));
    let q: i128 = FP - muldiv(w, p3, FP, Ghost(210_000_000_000_000), Ghost(430_000_000_000_000),
        Ghost(91_000_000_000_000));
    muldiv(v, q, FP, Ghost(450_000_000_000_000), Ghost(1_100_000_000_000_000),
        Ghost(495_000_000_000_000))
}

/// Arctangent in radians at scale `FP` of a ratio in `[0, 1]` at scale
/// `FP`.
pub fn atan_core(t: i128) -> (r: i128)
    requires
        0 <= t <= FP,
    ensures
        r == atan_core_spec(t as int),
        0 <= r <= QUARTER_PI_FP,
        t == 0 ==> r == 0,
{
    let r: i128 = if t <= ATAN_SPLIT {
        atan_poly(t)
    } else {
        let p: i128 = (FP - t) * FP;
        let u: i128 = div_trunc(p, FP + t);
        proof {
            assert(0 <= (FP - t) * (FP as int) <= 450_000_000_000_000 * (FP + t))
                by (nonlinear_arith)
                requires
                    ATAN_SPLIT < t <= FP,
            ;
            lemma_tdiv_bound(p as int, FP + t, 450_000_000_000_000);
            vstd::arithmetic::div_mod::lemma_div_pos_is_pos(p as int, FP + t);
        }
        QUARTER_PI_FP - atan_poly(u)
    };
    proof {
        lemma_atan_core_spec_bounds(t as int);
    }
    r
}

/// Converts a core arctangent (radians at scale `FP`, within
/// `[0, pi/4]`) to whole microdegrees.
fn udeg_of_atan(r: i128) -> (u: i64)
    requires
        0 <= r <= QUARTER_PI_FP,
    ensures
        u == udeg_of_rad_spec(r as int),
        0 <= u <= 45_000_000,
        r == 0 ==> u == 0,
{
    let p: i128 = r * UDEG_OF_RAD_NUM;
    let q: i128 = div_trunc(p, UDEG_OF_RAD_DEN);
    proof {
        lemma_udeg_of_core_bounds(r as int);
    }
    q as i64
}

/// Four-quadrant arctangent in radians at scale `FP`, within
/// `[-pi, pi]`; 0 at the origin, and never negative for `y >= 0`.
pub fn atan2_rad(y: i128, x: i128) -> (r: i128)
    requires
        -ATAN2_MAX_ARG <= y <= ATAN2_MAX_ARG,
        -ATAN2_MAX_ARG <= x <= ATAN2_MAX_ARG,
    ensures
        r == atan2_rad_spec(y as int, x as int),
        -PI_FP <= r <= PI_FP,
        0 <= y ==> 0 <= r,
{
    if y == 0 && x == 0 {
        return 0;
    }
    let ay: i128 = if y < 0 { -y } else { y };
    let ax: i128 = if x < 0 { -x } else { x };
    let base: i128 = if ay <= ax {
        let t: i128 = div_trunc(ay * FP, ax);
        proof {
            assert(0 <= ay * (FP as int) <= (FP as int) * ax) by (nonlinear_arith)
                requires
                    0 <= ay <= ax,
            ;
            lemma_tdiv_bound(ay * FP, ax as int, FP as int);
            vstd::arithmetic::div_mod::lemma_div_pos_is_pos(ay * FP, ax as int);
        }
        atan_core(t)
    } else {
        let t: i128 = div_trunc(ax * FP, ay);
        proof {
            assert(0 <= ax * (FP as int) <= (FP as int) * ay) by (nonlinear_arith)
                requires
                    0 <= ax <= ay,
            ;
            lemma_tdiv_bound(ax * FP, ay as int, FP as int);
            vstd::arithmetic::div_mod::lemma_div_pos_is_pos(ax * FP, ay as int);
        }
        HALF_PI_FP - atan_core(t)
    };
    if x >= 0 {
        if y >= 0 {
            base
        } else {
            -base
        }
    } else {
        if y >= 0 {
            PI_FP - base
        } else {
            base - PI_FP
        }
    }
}

/// Four-quadrant arctangent in whole microdegrees, within
/// `[-180e6, 180e6]`; 0 at the origin.
pub fn atan2_udeg(y: i128, x: i128) -> (r: i64)
    requires
        -ATAN2_MAX_ARG <= y <= ATAN2_MAX_ARG,
        -ATAN2_MAX_ARG <= x <= ATAN2_MAX_ARG,
    ensures
        r == atan2_udeg_spec(y as int, x as int),
        -180_000_000 <= r <= 180_000_000,
{
    if y == 0 && x == 0 {
        return 0;
    }
    let ay: i128 = if y < 0 { -y } else { y };
    let ax: i128 = if x < 0 { -x } else { x };
    let base: i64 = if ay <= ax {
        let t: i128 = div_trunc(ay * FP, ax);
        proof {
            assert(0 <= ay * (FP as int) <= (FP as int) * ax) by (nonlinear_arith)
                requires
                    0 <= ay <= ax,
            ;
            lemma_tdiv_bound(ay * FP, ax as int, FP as int);
            vstd::arithmetic::div_mod::lemma_div_pos_is_pos(ay * FP, ax as int);
        }
        udeg_of_atan(atan_core(t))
    } else {
        let t: i128 = div_trunc(ax * FP, ay);
        proof {
            assert(0 <= ax * (FP as int) <= (FP as int) * ay) by (nonlinear_arith)
                requires
                    0 <= ax <= ay,
            ;
            lemma_tdiv_bound(ax * FP, ay as int, FP as int);
            vstd::arithmetic::div_mod::lemma_div_pos_is_pos(ax * FP, ay as int);
        }
        90_000_000 - udeg_of_atan(atan_core(t))
    };
    if x >= 0 {
        if y >= 0 {
            base
        } else {
            -base
        }
    } else {
        if y >= 0 {
            180_000_000 - base
        } else {
            base - 180_000_000
        }
    }
}

/// Converts whole microdegrees to radians at scale `FP`.
pub fn rad_of_udeg(z: i64) -> (r: i128)
    requires
        -720_000_000 <= z <= 720_000_000,
    ensures
        r == rad_of_udeg_spec(z as int),
        0 <= z ==> 0 <= r,
        0 <= z <= 90_000_000 ==> r <= HALF_PI_FP + 1,
        -360_000_000 <= z <= 360_000_000 ==> -6_283_185_307_179_587 <= r
            <= 6_283_185_307_179_587,
        -25_132_741_228_718_345 <= r <= 25_132_741_228_718_345,
    {
    let p: i128 = (z as i128) * PI_FP;
    let r: i128 = div_trunc(p, 180_000_000);
    proof {
        lemma_tdiv_bound(p as int, 180_000_000, 25_132_741_228_718_345);
        if -360_000_000 <= z <= 360_000_000 {
            lemma_tdiv_bound(p as int, 180_000_000, 6_283_185_307_179_587);
        }
        if 0 <= z {
            vstd::arithmetic::div_mod::lemma_div_pos_is_pos(p as int, 180_000_000);
            if z <= 90_000_000 {
                lemma_tdiv_bound(p as int, 180_000_000, HALF_PI_FP + 1);
            }
        }
    }
    r
}

/// The sine Taylor polynomial on `[0, pi/2]` (radians at scale `FP`).
pub fn sin_taylor(x: i128) -> (r: i128)
    requires
        0 <= x <= HALF_PI_FP + 2,
    ensures
        r == sin_taylor_spec(x as int),
        0 <= r <= FP,
        x == 0 ==> r == 0,
{
    let w: i128 = muldiv(x, x, FP, Ghost(1_600_000_000_000_000), Ghost(1_600_000_000_000_000),
        Ghost(2_560_000_000_000_000));
    let u7: i128 = FP - muldiv(w, FP, 272 * FP, Ghost(2_560_000_000_000_000), Ghost(FP as int),
        Ghost(430_000_000_000_000));
    let u6: i128 = FP - muldiv(w, u7, 210 * FP, Ghost(2_560_000_000_000_000), Ghost(FP as int),
        Ghost(430_000_000_000_000));
    let u5: i128 = FP - muldiv(w, u6, 156 * FP, Ghost(2_560_000_000_000_000), Ghost(FP as int),
        Ghost(430_000_000_000_000));
    let u4: i128 = FP - muldiv(w, u5, 110 * FP, Ghost(2_560_000_000_000_000), Ghost(FP as int),
        Ghost(430_000_000_000_000));
    let u3: i128 = FP - muldiv(w, u4, 72 * FP, Ghost(2_560_000_000_000_000), Ghost(FP as int),
        Ghost(430_000_000_000_000));
    let u2: i128 = FP - muldiv(w, u3, 42 * FP, Ghost(2_560_000_000_000_000), Ghost(FP as int),
        Ghost(430_000_000_000_000));
    let u1: i128 = FP - muldiv(w, u2, 20 * FP, Ghost(2_560_000_000_000_000), Ghost(FP as int),
        Ghost(430_000_000_000_000));
    let u0: i128 = FP - muldiv(w, u1, 6 * FP, Ghost(2_560_000_000_000_000), Ghost(FP as int),
        Ghost(430_000_000_000_000));
    let s: i128 = muldiv(x, u0, FP, Ghost(1_600_000_000_000_000), Ghost(FP as int),
        Ghost(1_600_000_000_000_000));
    if s > FP {
        FP
    } else {
        s
    }
}

/// The cosine Taylor polynomial on `[0, pi/2]` (radians at scale `FP`).
pub fn cos_taylor(x: i128) -> (r: i128)
    requires
        0 <= x <= HALF_PI_FP + 2,
    ensures
        r == cos_taylor_spec(x as int),
        -FP <= r <= FP,
        x == 0 ==> r == FP,
{
    let w: i128 = muldiv(x, x, FP, Ghost(1_600_000_000_000_000), Ghost(1_600_000_000_000_000),
        Ghost(2_560_000_000_000_000));
    let v7: i128 = FP - muldiv(w, FP, 240 * FP, Ghost(2_560_000_000_000_000), Ghost(FP as int),
        Ghost(430_000_000_000_000));
    let v6: i128 = FP - muldiv(w, v7, 182 * FP, Ghost(2_560_000_000_000_000), Ghost(FP as int),
        Ghost(430_000_000_000_000));
    let v5: i128 = FP - muldiv(w, v6, 132 * FP, Ghost(2_560_000_000_000_000), Ghost(FP as int),
        Ghost(430_000_000_000_000));
    let v4: i128 = FP - muldiv(w, v5, 90 * FP, Ghost(2_560_000_000_000_000), Ghost(FP as int),
        Ghost(430_000_000_000_000));
    let v3: i128 = FP - muldiv(w, v4, 56 * FP, Ghost(2_560_000_000_000_000), Ghost(FP as int),
        Ghost(430_000_000_000_000));
    let v2: i128 = FP - muldiv(w, v3, 30 * FP, Ghost(2_560_000_000_000_000), Ghost(FP as int),
        Ghost(430_000_000_000_000));
    let v1: i128 = FP - muldiv(w, v2, 12 * FP, Ghost(2_560_000_000_000_000), Ghost(FP as int),
        Ghost(430_000_000_000_000));
    let r: i128 = FP - muldiv(w, v1, 2 * FP, Ghost(2_560_000_000_000_000), Ghost(FP as int),
        Ghost(1_280_000_000_000_000));
    r
}

/// Sine of radians at scale `FP`, for arguments within `[-8e15, 8e15]`.
pub fn sin_rad(x: i128) -> (r: i128)
    requires
        -8_000_000_000_000_000 <= x <= 8_000_000_000_000_000,
    ensures
        r == sin_rad_spec(x as int),
        -FP <= r <= FP,
        x == 0 ==> r == 0,
{
    let y: i128 = if x > PI_FP {
        x - TWO_PI_FP
    } else if x < -PI_FP {
        x + TWO_PI_FP
    } else {
        x
    };
    if y >= 0 {
        if y <= HALF_PI_FP {
            sin_taylor(y)
        } else {
            sin_taylor(PI_FP - y)
        }
    } else {
        if -y <= HALF_PI_FP {
            -sin_taylor(-y)
        } else {
            -sin_taylor(PI_FP + y)
        }
    }
}

/// Cosine of radians at scale `FP`, for arguments within `[-8e15, 8e15]`.
pub fn cos_rad(x: i128) -> (r: i128)
    requires
        -8_000_000_000_000_000 <= x <= 8_000_000_000_000_000,
    ensures
        r == cos_rad_spec(x as int),
        -FP <= r <= FP,
        x == 0 ==> r == FP,
{
    let y: i128 = if x > PI_FP {
        x - TWO_PI_FP
    } else if x < -PI_FP {
        x + TWO_PI_FP
    } else {
        x
    };
    let c: i128 = if y < 0 {
        -y
    } else {
        y
    };
    if c <= HALF_PI_FP {
        cos_taylor(c)
    } else {
        -cos_taylor(PI_FP - c)
    }
}

/// Sine of whole microdegrees, at scale `FP`, for any argument.
pub fn sin_udeg(a: i64) -> (r: i128)
    ensures
        r == sin_udeg_spec(a as int),
        -FP <= r <= FP,
        a == 0 ==> r == 0,
{
    let m: i64 = euclid_rem_i64(a, TURN_UDEG);
    let q: i64 = ((m as u64) / (QUARTER_UDEG as u64)) as i64;
    let z: i64 = ((m as u64) % (QUARTER_UDEG as u64)) as i64;
    if q == 0 {
        sin_taylor(rad_of_udeg(z))
    } else if q == 1 {
        sin_taylor(rad_of_udeg(QUARTER_UDEG - z))
    } else if q == 2 {
        -sin_taylor(rad_of_udeg(z))
    } else {
        -sin_taylor(rad_of_udeg(QUARTER_UDEG - z))
    }
}

/// Cosine of whole microdegrees, at scale `FP`, for any argument.
pub fn cos_udeg(a: i64) -> (r: i128)
    ensures
        r == cos_udeg_spec(a as int),
        -FP <= r <= FP,
{
    let m: i64 = euclid_rem_i64(a, TURN_UDEG);
    let q: i64 = ((m as u64) / (QUARTER_UDEG as u64)) as i64;
    let z: i64 = ((m as u64) % (QUARTER_UDEG as u64)) as i64;
    if q == 0 {
        sin_taylor(rad_of_udeg(QUARTER_UDEG - z))
    } else if q == 1 {
        -sin_taylor(rad_of_udeg(z))
    } else if q == 2 {
        -sin_taylor(rad_of_udeg(QUARTER_UDEG - z))
    } else {
        sin_taylor(rad_of_udeg(z))
    }
}

} // verus!
