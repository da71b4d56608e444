//! Horizontal distance accumulation. The great-circle evaluation itself is
//! floating-point work done by the caller; this module pins down exactly
//! which consecutive waypoint pairs contribute a distance segment, and sums
//! the caller's per-pair results exactly.
//!
//! Pair policy, kept from the recording this library summarizes: a pair is
//! counted only when the previous point's longitude and latitude were both
//! strictly positive; the previous-point state starts at the (0, 0) sentinel,
//! so the first waypoint never contributes. Tracks in the western or southern
//! hemisphere therefore undercount — a known defect preserved for
//! compatibility.

use vstd::prelude::*;
use crate::model::Waypoint;

verus! {

/// A consecutive pair of track points, coordinates in ten-millionths of a
/// degree, whose great-circle distance contributes to the total.
#[derive(Clone, Copy, Debug, PartialEq, Eq, Structural)]
pub struct PointPair {
    pub lat1_e7: i64,
    pub lon1_e7: i64,
    pub lat2_e7: i64,
    pub lon2_e7: i64,
}

/// The contributing pairs of the waypoint sequence, given the previous
/// point's coordinates (0, 0 is the no-previous-point sentinel).
pub open spec fn pairs_from(pts: Seq<Waypoint>, prev_lat: i64, prev_lon: i64) -> Seq<PointPair>
    decreases pts.len(),
{
    if pts.len() == 0 {
        Seq::empty()
    } else {
        let w = pts[0];
        let rest = pairs_from(pts.drop_first(), w.lat_e7, w.lon_e7);
        if prev_lon > 0 && prev_lat > 0 {
            seq![
                PointPair {
                    lat1_e7: prev_lat,
                    lon1_e7: prev_lon,
                    lat2_e7: w.lat_e7,
                    lon2_e7: w.lon_e7,
                },
            ] + rest
        } else {
            rest
        }
    }
}

/// The contributing pairs of a whole waypoint sequence.
pub open spec fn contributing_pairs_of(pts: Seq<Waypoint>) -> Seq<PointPair> {
    pairs_from(pts, 0, 0)
}

/// The consecutive pairs of waypoints whose great-circle distance counts
/// toward the total, in track order.
pub fn contributing_pairs(pts: &Vec<Waypoint>) -> (pairs: Vec<PointPair>)
    ensures
        pairs@ == contributing_pairs_of(pts@),
{
    let mut pairs: Vec<PointPair> = Vec::new();
    let mut prev_lat: i64 = 0;
    let mut prev_lon: i64 = 0;
    let mut i: usize = 0;
    proof {
        assert(pts@.skip(0) =~= pts@);
        assert(pairs@ + pairs_from(pts@, 0, 0) =~= pairs_from(pts@, 0, 0));
    }
    while i < pts.len()
        invariant
            0 <= i <= pts@.len(),
            pairs@ + pairs_from(pts@.skip(i as int), prev_lat, prev_lon) =~= contributing_pairs_of(
                pts@,
            ),
        decreases pts@.len() - i,
    {
        proof {
            assert(pts@.skip(i as int).drop_first() =~= pts@.skip(i as int + 1));
            assert(pts@.skip(i as int)[0] == pts@[i as int]);
        }
        let w = pts[i];
        if prev_lon > 0 && prev_lat > 0 {
            let pair = PointPair {
                lat1_e7: prev_lat,
                lon1_e7: prev_lon,
                lat2_e7: w.lat_e7,
                lon2_e7: w.lon_e7,
            };
            let ghost rest = pairs_from(pts@.skip(i as int + 1), w.lat_e7, w.lon_e7);
            let ghost before = pairs@;
            pairs.push(pair);
            proof {
                assert(before.push(pair) + rest =~= before + (seq![pair] + rest));
            }
        }
        prev_lat = w.lat_e7;
        prev_lon = w.lon_e7;
        i = i + 1;
    }
    proof {
        assert(pts@.skip(pts@.len() as int) =~= Seq::<Waypoint>::empty());
        assert(pairs@ + Seq::<PointPair>::empty() =~= pairs@);
    }
    pairs
}

/// The exact sum of a sequence of distances in millimeters.
pub open spec fn spec_sum_mm(dists: Seq<u64>) -> int
    decreases dists.len(),
{
    if dists.len() == 0 {
        0
    } else {
        dists[0] + spec_sum_mm(dists.drop_first())
    }
}

/// A sum of distances is non-negative and at most one maximal distance per
/// entry.
pub proof fn lemma_sum_mm_bounds(dists: Seq<u64>)
    ensures
        0 <= spec_sum_mm(dists) <= dists.len() * (u64::MAX as int),
    decreases dists.len(),
{
    if dists.len() > 0 {
        lemma_sum_mm_bounds(dists.drop_first());
    }
}

/// The total of the caller's per-pair distances, exactly, in millimeters.
pub fn sum_distances_mm(dists: &Vec<u64>) -> (total: u128)
    ensures
        total == spec_sum_mm(dists@),
{
    let mut total: u128 = 0;
    let mut i: usize = 0;
    proof {
        assert(dists@.skip(0) =~= dists@);
    }
    while i < dists.len()
        invariant
            0 <= i <= dists@.len(),
            total + spec_sum_mm(dists@.skip(i as int)) == spec_sum_mm(dists@),
        decreases dists@.len() - i,
    {
        proof {
            assert(dists@.skip(i as int).drop_first() =~= dists@.skip(i as int + 1));
            assert(dists@.skip(i as int)[0] == dists@[i as int]);
            lemma_sum_mm_bounds(dists@.skip(i as int + 1));
            lemma_sum_mm_bounds(dists@);
            assert(dists@.len() <= u64::MAX);
            assert(dists@.len() * (u64::MAX as int) <= u64::MAX * (u64::MAX as int))
                by (nonlinear_arith)
                requires dists@.len() <= u64::MAX;
        }
        total = total + (dists[i] as u128);
        i = i + 1;
    }
    proof {
        assert(dists@.skip(dists@.len() as int) =~= Seq::<u64>::empty());
    }
    total
}

} // verus!
