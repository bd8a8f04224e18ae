//! The ellipsoidal inverse-geodesic oracle: exact degeneracies, a
//! known distance, agreement with the fast path, and the explicit
//! non-convergence outcome for nearly antipodal points.

use flat_projection::{vincenty_distance, Ellipsoid, FlatProjection, VincentyError};

fn approx(a: f64, b: f64, eps: f64) {
    assert!((a - b).abs() < eps, "{} vs {} (eps {})", a, b, eps);
}

#[test]
fn oracle_distance_between_a_point_and_itself_is_exactly_zero() {
    let wgs84 = Ellipsoid::wgs84();
    assert_eq!(vincenty_distance(&wgs84, 6_186_389, 50_823_194, 6_186_389, 50_823_194), Ok(0));
    assert_eq!(vincenty_distance(&wgs84, 0, 0, 0, 0), Ok(0));
    assert_eq!(vincenty_distance(&wgs84, -180_000_000, -90_000_000, -180_000_000, -90_000_000),
        Ok(0));
}

#[test]
fn oracle_handles_the_equatorial_line() {
    let wgs84 = Ellipsoid::wgs84();
    let d = vincenty_distance(&wgs84, 0, 0, 1_000_000, 0).unwrap();
    approx(d as f64 / 1e9, 111.319491, 0.0001);
    let d2 = vincenty_distance(&wgs84, -3_000_000, 0, 2_500_000, 0).unwrap();
    approx(d2 as f64 / 1e9, 5.5 * 111.319491, 0.001);
}

#[test]
fn oracle_matches_the_known_ellipsoidal_distance() {
    let wgs84 = Ellipsoid::wgs84();
    let d = vincenty_distance(&wgs84, 6_186_389, 50_823_194, 6_953_333, 51_301_389).unwrap();
    approx(d as f64 / 1e9, 75.635_595, 0.0001);
    assert_eq!(d, 75_635_594_812);
}

#[test]
fn fast_path_agrees_with_the_oracle_at_calibration_range() {
    let proj = FlatProjection::new(6_500_000, 51_050_000);
    let a = proj.project(6_186_389, 50_823_194);
    let b = proj.project(6_953_333, 51_301_389);
    let fast = a.distance(&b) as f64 / 1e12;
    approx(fast, 75.648, 0.001);

    let wgs84 = Ellipsoid::wgs84();
    let exact = vincenty_distance(&wgs84, 6_186_389, 50_823_194, 6_953_333, 51_301_389).unwrap()
        as f64 / 1e9;
    approx(exact, 75.6356, 0.0001);

    assert!((fast - exact).abs() < 0.02, "{} vs {}", fast, exact);
}

#[test]
fn oracle_reports_non_convergence_for_nearly_antipodal_points() {
    let near_sphere = Ellipsoid::new(6_378_137_000_000, 6_378_130_000_000, 1_000_000_000);
    assert_eq!(vincenty_distance(&near_sphere, 0, 0, 179_999_999, 0),
        Err(VincentyError::NoConvergence));

    let wgs84 = Ellipsoid::wgs84();
    assert_eq!(vincenty_distance(&wgs84, 0, 0, 179_500_000, 0),
        Err(VincentyError::NoConvergence));
    assert_eq!(vincenty_distance(&wgs84, 0, 500_000, 179_900_000, -400_000),
        Err(VincentyError::NoConvergence));
}

#[test]
fn oracle_converges_for_an_ordinary_long_line() {
    let wgs84 = Ellipsoid::wgs84();
    let d = vincenty_distance(&wgs84, 2_294_500, 48_858_300, -74_044_500, 40_689_200).unwrap();
    approx(d as f64 / 1e9, 5853.108, 0.001);
}
