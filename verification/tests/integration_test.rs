//! The projection against the high-precision oracle on a real pair of
//! places: the fast distance and bearing agree with the known
//! ellipsoidal values.

use flat_projection::FlatProjection;

fn approx(a: f64, b: f64, eps: f64) {
    assert!((a - b).abs() < eps, "{} vs {} (eps {})", a, b, eps);
}

#[test]
fn it_works() {
    let aachen = (6_186_389i64, 50_823_194i64);
    let meiersberg = (6_953_333i64, 51_301_389i64);

    let average_latitude = (aachen.1 + meiersberg.1) / 2;

    let proj = FlatProjection::new(aachen.0, average_latitude);

    let flat_aachen = proj.project(aachen.0, aachen.1);
    let flat_meiersberg = proj.project(meiersberg.0, meiersberg.1);

    let distance = flat_aachen.distance(&flat_meiersberg) as f64 / 1e12;
    let bearing = flat_aachen.bearing(&flat_meiersberg) as f64 / 1e6;

    const VINCENTY_DISTANCE: f64 = 75.635_595;
    approx(distance, VINCENTY_DISTANCE, 0.003);

    const VINCENTY_INITIAL_BEARING: f64 = 45.005_741;
    const VINCENTY_FINAL_BEARING: f64 = 45.602_300;
    const VINCENTY_AVERAGE_BEARING: f64 = (VINCENTY_INITIAL_BEARING + VINCENTY_FINAL_BEARING)
        / 2.;
    approx(bearing, VINCENTY_AVERAGE_BEARING, 0.003);
}
