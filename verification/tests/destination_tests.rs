//! Destination round trips: a point moved by a known distance and
//! bearing lands on the expected coordinates, and lies at that same
//! distance from where it started.

use flat_projection::FlatProjection;

const KM: i128 = 1_000_000_000_000;

fn approx(a: f64, b: f64, eps: f64) {
    assert!((a - b).abs() < eps, "{} vs {} (eps {})", a, b, eps);
}

#[test]
fn lib_flatpoint_destination_ne() {
    let (lon, lat) = (30_500_000i64, 50_500_000i64);
    let proj = FlatProjection::new(31_000_000, 50_000_000);
    let p1 = proj.project(lon, lat);

    let (distance, bearing) = (KM, 45_000_000i64);
    let p2 = p1.destination(distance, bearing);
    let res_distance = p1.distance(&p2);
    let (dest_lon, dest_lat) = proj.unproject(&p2);
    approx(dest_lon as f64 / 1e6, 30.5098622, 0.00001);
    approx(dest_lat as f64 / 1e6, 50.5063572, 0.00001);
    approx(distance as f64 / 1e12, res_distance as f64 / 1e12, 0.00001);
}

#[test]
fn lib_flatpoint_destination_se() {
    let (lon, lat) = (30_500_000i64, 50_500_000i64);
    let proj = FlatProjection::new(31_000_000, 50_000_000);
    let p1 = proj.project(lon, lat);

    let (distance, bearing) = (KM, 135_000_000i64);

    let p2 = p1.destination(distance, bearing);
    let res_distance = p1.distance(&p2);
    let (dest_lon, dest_lat) = proj.unproject(&p2);
    approx(dest_lon as f64 / 1e6, 30.5098622, 0.00001);
    approx(dest_lat as f64 / 1e6, 50.4936427, 0.00001);
    approx(distance as f64 / 1e12, res_distance as f64 / 1e12, 0.00001);
}

#[test]
fn lib_flatpoint_destination_sw() {
    let (lon, lat) = (30_500_000i64, 50_500_000i64);
    let proj = FlatProjection::new(31_000_000, 50_000_000);
    let p1 = proj.project(lon, lat);

    let (distance, bearing) = (KM, 225_000_000i64);
    let p2 = p1.destination(distance, bearing);
    let res_distance = p1.distance(&p2);
    let (dest_lon, dest_lat) = proj.unproject(&p2);
    approx(dest_lon as f64 / 1e6, 30.4901377, 0.00001);
    approx(dest_lat as f64 / 1e6, 50.4936427, 0.00001);
    approx(distance as f64 / 1e12, res_distance as f64 / 1e12, 0.00001);
}

#[test]
fn lib_flatpoint_destination_nw() {
    let (lon, lat) = (30_500_000i64, 50_500_000i64);
    let proj = FlatProjection::new(31_000_000, 50_000_000);
    let p1 = proj.project(lon, lat);

    let (distance, bearing) = (KM, 315_000_000i64);
    let p2 = p1.destination(distance, bearing);
    let res_distance = p1.distance(&p2);
    let (dest_lon, dest_lat) = proj.unproject(&p2);
    approx(dest_lon as f64 / 1e6, 30.4901377, 0.00001);
    approx(dest_lat as f64 / 1e6, 50.5063572, 0.00001);
    approx(distance as f64 / 1e12, res_distance as f64 / 1e12, 0.00001);
}

#[test]
fn tests_flatpoint_destination_ne() {
    let (lon, lat) = (30_500_000i64, 50_500_000i64);
    let proj = FlatProjection::new(0, 50_000_000);
    let p1 = proj.project(lon, lat);

    let (distance, bearing) = (KM, 45_000_000i64);
    let p2 = p1.destination(distance, bearing);
    let res_distance = p1.distance(&p2);
    let (dest_lon, dest_lat) = proj.unproject(&p2);
    approx(dest_lon as f64 / 1e6, 30.5098622, 0.00001);
    approx(dest_lat as f64 / 1e6, 50.5063572, 0.00001);
    approx(distance as f64 / 1e12, res_distance as f64 / 1e12, 0.00001);
}

#[test]
fn tests_flatpoint_destination_se() {
    let (lon, lat) = (30_500_000i64, 50_500_000i64);
    let proj = FlatProjection::new(0, 50_000_000);
    let p1 = proj.project(lon, lat);

    let (distance, bearing) = (KM, 135_000_000i64);

    let p2 = p1.destination(distance, bearing);
    let res_distance = p1.distance(&p2);
    let (dest_lon, dest_lat) = proj.unproject(&p2);
    approx(dest_lon as f64 / 1e6, 30.5098622, 0.00001);
    approx(dest_lat as f64 / 1e6, 50.4936427, 0.00001);
    approx(distance as f64 / 1e12, res_distance as f64 / 1e12, 0.00001);
}

#[test]
fn tests_flatpoint_destination_sw() {
    let (lon, lat) = (30_500_000i64, 50_500_000i64);
    let proj = FlatProjection::new(0, 50_000_000);
    let p1 = proj.project(lon, lat);

    let (distance, bearing) = (KM, 225_000_000i64);
    let p2 = p1.destination(distance, bearing);
    let res_distance = p1.distance(&p2);
    let (dest_lon, dest_lat) = proj.unproject(&p2);
    approx(dest_lon as f64 / 1e6, 30.4901377, 0.00001);
    approx(dest_lat as f64 / 1e6, 50.4936427, 0.00001);
    approx(distance as f64 / 1e12, res_distance as f64 / 1e12, 0.00001);
}

#[test]
fn tests_flatpoint_destination_nw() {
    let (lon, lat) = (30_500_000i64, 50_500_000i64);
    let proj = FlatProjection::new(0, 50_000_000);
    let p1 = proj.project(lon, lat);

    let (distance, bearing) = (KM, 315_000_000i64);
    let p2 = p1.destination(distance, bearing);
    let res_distance = p1.distance(&p2);
    let (dest_lon, dest_lat) = proj.unproject(&p2);
    approx(dest_lon as f64 / 1e6, 30.4901377, 0.00001);
    approx(dest_lat as f64 / 1e6, 50.5063572, 0.00001);
    approx(distance as f64 / 1e12, res_distance as f64 / 1e12, 0.00001);
}
