//! Statistics over a GPS track: total horizontal distance along the track,
//! and total ascent and descent with small elevation changes discarded as
//! sensor noise.
//!
//! Coordinates and elevations are carried as fixed-point integers: latitude
//! and longitude in ten-millionths of a degree, elevations and distances in
//! millimeters. The caller parses the track document, converts each waypoint
//! to this representation, and evaluates the great-circle distance of each
//! contributing pair of points; everything else — which pairs contribute,
//! the noise filtering, the summation, the assembly of the result — is
//! verified here.

use vstd::prelude::*;

pub mod distance;
pub mod elevation;
pub mod model;
pub mod stats;

verus! {

/// Default elevation noise threshold: 2 meters, in millimeters.
pub const DEFAULT_ELE_THRESHOLD_MM: i64 = 2000;

} // verus!
