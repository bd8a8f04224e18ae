//! The algebraic properties of the projection and the planar algebra,
//! checked on concrete values: exact round trips, distance symmetry,
//! bearing anti-symmetry, destination consistency, and the pinned
//! degenerate bearing.

use flat_projection::{isqrt_u128, FlatPoint, FlatProjection};

const KM: i128 = 1_000_000_000_000;

fn approx(a: f64, b: f64, eps: f64) {
    assert!((a - b).abs() < eps, "{} vs {} (eps {})", a, b, eps);
}

#[test]
fn round_trip_is_exact() {
    let proj = FlatProjection::new(6_500_000, 51_050_000);
    let coords = [
        (6_186_389i64, 50_823_194i64),
        (6_953_333, 51_301_389),
        (11_000_000, 46_100_000),
        (2_000_000, 56_000_000),
        (-3_000_000, 55_000_000),
        (6_500_000, 51_050_000),
    ];
    for (lon, lat) in coords {
        let p = proj.project(lon, lat);
        assert_eq!(proj.unproject(&p), (lon, lat));
    }
}

#[test]
fn round_trip_is_exact_across_reference_latitudes() {
    for ref_lat in [-80_000_000i64, -10_000_000, 0, 30_000_000, 66_500_000, 89_000_000] {
        let proj = FlatProjection::new(0, ref_lat);
        for (lon, lat) in [(1_234_567i64, ref_lat + 4_999_999), (-4_999_999, ref_lat - 3_000_001)]
        {
            let p = proj.project(lon, lat);
            assert_eq!(proj.unproject(&p), (lon, lat));
        }
    }
}

#[test]
fn distance_is_symmetric() {
    let proj = FlatProjection::new(6_500_000, 51_050_000);
    let a = proj.project(6_186_389, 50_823_194);
    let b = proj.project(6_953_333, 51_301_389);
    assert_eq!(a.distance(&b), b.distance(&a));
    assert_eq!(a.distance_squared(&b), b.distance_squared(&a));
}

#[test]
fn distance_of_three_four_five_triangle_is_exact() {
    let a = FlatPoint { x: 0, y: 0 };
    let b = FlatPoint { x: 3 * (KM as i64), y: 4 * (KM as i64) };
    assert_eq!(a.distance_squared(&b), 25 * KM * KM);
    assert_eq!(a.distance(&b), 5 * KM);
}

#[test]
fn bearing_of_cardinal_directions_is_exact() {
    let o = FlatPoint { x: 0, y: 0 };
    let north = FlatPoint { x: 0, y: KM as i64 };
    let east = FlatPoint { x: KM as i64, y: 0 };
    let south = FlatPoint { x: 0, y: -(KM as i64) };
    let west = FlatPoint { x: -(KM as i64), y: 0 };
    assert_eq!(o.bearing(&north), 0);
    assert_eq!(o.bearing(&east), 90_000_000);
    assert_eq!(o.bearing(&south), 180_000_000);
    assert_eq!(o.bearing(&west), -90_000_000);
}

#[test]
fn bearing_of_a_point_to_itself_is_pinned_to_zero() {
    let p = FlatPoint { x: 12_345, y: -67_890 };
    assert_eq!(p.bearing(&p), 0);
}

#[test]
fn bearing_is_antisymmetric_modulo_half_turn() {
    let pairs = [
        (FlatPoint { x: 0, y: 0 }, FlatPoint { x: 10, y: 20 }),
        (FlatPoint { x: -5, y: 3 }, FlatPoint { x: 8, y: -11 }),
        (FlatPoint { x: 1, y: 0 }, FlatPoint { x: 0, y: 0 }),
        (FlatPoint { x: 0, y: 7 }, FlatPoint { x: 0, y: -7 }),
        (FlatPoint { x: 1_000_000_000, y: 2 }, FlatPoint { x: -3, y: 4_000_000_000 }),
    ];
    for (a, b) in pairs {
        let d = a.bearing(&b) - b.bearing(&a);
        assert!(d == 180_000_000 || d == -180_000_000, "difference was {}", d);
    }
}

#[test]
fn destination_distance_and_bearing_are_consistent() {
    let proj = FlatProjection::new(31_000_000, 50_000_000);
    let p = proj.project(30_500_000, 50_500_000);
    for bearing in [10_000_000i64, 77_700_000, 123_456_789, 200_000_000, 359_000_000] {
        for dist in [KM, 25 * KM / 10, KM / 100] {
            let q = p.destination(dist, bearing);
            let rd = p.distance(&q);
            approx(rd as f64 / 1e12, dist as f64 / 1e12, 0.00001);
            let rb = p.bearing(&q) as f64 / 1e6;
            let mut diff = (rb - bearing as f64 / 1e6).rem_euclid(360.0);
            if diff > 180.0 {
                diff = 360.0 - diff;
            }
            assert!(diff < 0.001, "bearing {} came back as {}", bearing, rb);
        }
    }
}

#[test]
fn distance_bearing_combines_both() {
    let proj = FlatProjection::new(6_500_000, 51_050_000);
    let a = proj.project(6_186_389, 50_823_194);
    let b = proj.project(6_953_333, 51_301_389);
    let (d, brg) = a.distance_bearing(&b);
    assert_eq!(d, a.distance(&b));
    assert_eq!(brg, a.bearing(&b));
    approx(d as f64 / 1e12, 75.648, 0.001);
    approx(brg as f64 / 1e6, 45.312, 0.001);
}

#[test]
fn offset_translates_exactly() {
    let proj = FlatProjection::new(31_000_000, 50_000_000);
    let p1 = proj.project(30_500_000, 50_500_000);
    let p2 = p1.offset(10 * KM as i64, 10 * KM as i64);
    assert_eq!(p2.x, p1.x + 10 * KM as i64);
    assert_eq!(p2.y, p1.y + 10 * KM as i64);
    let (dest_lon, dest_lat) = proj.unproject(&p2);
    approx(dest_lon as f64 / 1e6, 30.6394736, 0.00001);
    approx(dest_lat as f64 / 1e6, 50.5899044, 0.00001);
}

#[test]
fn projection_scale_at_equator_matches_the_polynomial() {
    let proj = FlatProjection::new(0, 0);
    let east = proj.project(1_000_000, 0);
    let north = proj.project(0, 1_000_000);
    assert_eq!(east.x, 111_320_700_000_000);
    assert_eq!(north.y, 110_567_240_000_000);
    approx(east.x as f64 / 1e12, 111.3207, 0.0001);
    approx(north.y as f64 / 1e12, 110.56724, 0.0001);
}

#[test]
fn integer_square_root_is_exact() {
    assert_eq!(isqrt_u128(0), 0);
    assert_eq!(isqrt_u128(1), 1);
    assert_eq!(isqrt_u128(15), 3);
    assert_eq!(isqrt_u128(16), 4);
    assert_eq!(isqrt_u128(u128::MAX), u64::MAX as u128);
}
