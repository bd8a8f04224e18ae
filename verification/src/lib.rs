//! Fast geodesic distance approximations via flat surface projection.
//!
//! A [`FlatProjection`] maps geographic coordinates from a WGS84-like
//! ellipsoid onto a locally flat cartesian plane around a reference
//! latitude. On the projected [`FlatPoint`]s, distance, bearing and
//! destination are cheap planar arithmetic instead of spherical
//! trigonometry, and stay accurate for distances up to about 500 km
//! around the calibration latitude. Independently,
//! [`vincenty_distance`] computes the exact ellipsoidal distance by
//! the iterative inverse-geodesic method, as ground truth for the
//! approximation.
//!
//! All quantities are fixed-point integers; every module documents
//! the scale of its values. Angles cross the API in whole
//! microdegrees (10^-6 degree), planar coordinates and distances in
//! kilometers at scale 10^12, and the oracle's distances at scale
//! 10^9 in the unit of the ellipsoid's axes.
//!
//! Each function's contract pins its result down to the exact
//! integer, and the laws of the algebra are proved once and for all:
//! unprojecting a projected coordinate is an exact round trip
//! ([`projection::lemma_unproject_inverts_project`]), distance does
//! not depend on the order of its endpoints
//! ([`point::lemma_distance_symmetric`]), the two bearings between
//! distinct points differ by exactly half a turn
//! ([`point::lemma_bearing_antisymmetric`]), and the oracle's
//! distance from a point to itself is exactly zero
//! ([`vincenty::lemma_vincenty_self_is_zero`]).

pub mod arith;
pub mod point;
pub mod projection;
pub mod trig;
pub mod vincenty;

pub use arith::isqrt_u128;
pub use point::FlatPoint;
pub use projection::FlatProjection;
pub use vincenty::{vincenty_distance, Ellipsoid, VincentyError};
