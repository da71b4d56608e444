//! The stats aggregator: one pass over the first track's waypoints, feeding
//! the distance-pair policy and the noise-filtered elevation accumulator, and
//! assembly of the result record.

use vstd::prelude::*;
use crate::DEFAULT_ELE_THRESHOLD_MM;
use crate::model::{Gpx, Waypoint, flatten_track_points};
use crate::elevation::{
    ele_totals, elevations_of, elevations_of_points, elevation_totals, wf_elevations,
};
use crate::distance::{contributing_pairs_of, spec_sum_mm, sum_distances_mm};

verus! {

/// The summary of one track document: name of the first track, total
/// horizontal distance, total ascent and descent with noise discarded, and
/// the noise threshold that was applied. Distances and elevations are in
/// millimeters. All totals are non-negative by construction.
pub struct GpxStats {
    pub track_name: String,
    pub total_distance_mm: u128,
    pub total_ascent_mm: u128,
    pub total_descent_mm: u128,
    pub ele_threshold_mm: i64,
}

impl Default for GpxStats {
    /// The all-zero summary: no name, no distance, no elevation change, the
    /// default noise threshold.
    fn default() -> (stats: Self)
        ensures
            stats.track_name@ == Seq::<char>::empty(),
            stats.total_distance_mm == 0,
            stats.total_ascent_mm == 0,
            stats.total_descent_mm == 0,
            stats.ele_threshold_mm == DEFAULT_ELE_THRESHOLD_MM,
    {
        GpxStats {
            track_name: String::new(),
            total_distance_mm: 0,
            total_ascent_mm: 0,
            total_descent_mm: 0,
            ele_threshold_mm: DEFAULT_ELE_THRESHOLD_MM,
        }
    }
}

/// The name of the first track, or the empty string when the document has no
/// track or the track carries no name.
pub fn track_name_of(gpx: &Gpx) -> (name: String)
    ensures
        name@ == gpx.spec_track_name(),
{
    if gpx.tracks.len() > 0 {
        match &gpx.tracks[0].name {
            Some(n) => n.clone(),
            None => String::new(),
        }
    } else {
        String::new()
    }
}

/// Summarize a parsed track document against the caller's per-pair
/// great-circle distances and an explicit noise threshold.
///
/// `pair_distances_mm` must hold one distance for each contributing pair of
/// the first track's waypoints, in track order — the pairs that
/// [`crate::distance::contributing_pairs`] returns.
pub fn calculate_stats_with_threshold(
    gpx: &Gpx,
    pair_distances_mm: &Vec<u64>,
    threshold_mm: i64,
) -> (stats: GpxStats)
    requires
        gpx.wf(),
        pair_distances_mm@.len() == contributing_pairs_of(gpx.track_points()).len(),
    ensures
        stats.track_name@ == gpx.spec_track_name(),
        stats.total_distance_mm == spec_sum_mm(pair_distances_mm@),
        stats.total_ascent_mm == ele_totals(
            elevations_of(gpx.track_points()),
            threshold_mm as int,
        ).0,
        stats.total_descent_mm == ele_totals(
            elevations_of(gpx.track_points()),
            threshold_mm as int,
        ).1,
        stats.ele_threshold_mm == threshold_mm,
{
    let pts = flatten_track_points(gpx);
    let eles = elevations_of_points(&pts);
    proof {
        assert forall|i: int| 0 <= i < eles@.len() implies match #[trigger] eles@[i] {
            Some(e) => -crate::model::MAX_ABS_ELE_MM <= e <= crate::model::MAX_ABS_ELE_MM,
            None => true,
        } by {
            assert(eles@[i] == gpx.track_points()[i].ele_mm);
            assert(gpx.track_points()[i].wf());
        }
        assert(wf_elevations(eles@));
    }
    let totals = elevation_totals(&eles, threshold_mm);
    let total_distance = sum_distances_mm(pair_distances_mm);
    let name = track_name_of(gpx);
    GpxStats {
        track_name: name,
        total_distance_mm: total_distance,
        total_ascent_mm: totals.0,
        total_descent_mm: totals.1,
        ele_threshold_mm: threshold_mm,
    }
}

/// A document with no track is not an error: it has the empty name, no
/// contributing distance pair, and no elevation change, so every numeric
/// field of its summary is zero.
pub proof fn lemma_empty_document_zero(gpx: Gpx, threshold: int)
    requires
        gpx.tracks@.len() == 0,
    ensures
        gpx.spec_track_name() == Seq::<char>::empty(),
        contributing_pairs_of(gpx.track_points()).len() == 0,
        ele_totals(elevations_of(gpx.track_points()), threshold).0 == 0,
        ele_totals(elevations_of(gpx.track_points()), threshold).1 == 0,
{
    assert(gpx.track_points() =~= Seq::<Waypoint>::empty());
    assert(elevations_of(gpx.track_points()) =~= Seq::<Option<i64>>::empty());
}

/// A sequence of at most one waypoint yields no contributing distance pair —
/// the first point never has a counted predecessor — and no elevation
/// change.
pub proof fn lemma_single_waypoint_zero(pts: Seq<Waypoint>, threshold: int)
    requires
        pts.len() <= 1,
    ensures
        contributing_pairs_of(pts).len() == 0,
        ele_totals(elevations_of(pts), threshold).0 == 0,
        ele_totals(elevations_of(pts), threshold).1 == 0,
{
    let eles = elevations_of(pts);
    if pts.len() == 0 {
        assert(eles =~= Seq::<Option<i64>>::empty());
    } else {
        assert(pts.drop_first() =~= Seq::<Waypoint>::empty());
        assert(crate::distance::pairs_from(pts.drop_first(), pts[0].lat_e7, pts[0].lon_e7)
            =~= Seq::<crate::distance::PointPair>::empty());
        assert(contributing_pairs_of(pts) =~= Seq::<crate::distance::PointPair>::empty());
        assert(eles.len() == 1);
        assert(eles[0] == pts[0].ele_mm);
        assert(eles.drop_first() =~= Seq::<Option<i64>>::empty());
        match eles[0] {
            Some(e) => {
                assert(crate::elevation::ele_step(0, e as int, threshold).0 == 0);
                assert(crate::elevation::ele_step(0, e as int, threshold).1 == 0);
                assert(crate::elevation::ele_totals_from(eles.drop_first(), threshold, e as int).0
                    == 0);
                assert(crate::elevation::ele_totals_from(eles.drop_first(), threshold, e as int).1
                    == 0);
            },
            None => {
                assert(crate::elevation::ele_totals_from(eles.drop_first(), threshold, 0).0 == 0);
                assert(crate::elevation::ele_totals_from(eles.drop_first(), threshold, 0).1 == 0);
            },
        }
    }
}

/// Summarize a parsed track document with the default noise threshold of two
/// meters.
pub fn calculate_stats(gpx: &Gpx, pair_distances_mm: &Vec<u64>) -> (stats: GpxStats)
    requires
        gpx.wf(),
        pair_distances_mm@.len() == contributing_pairs_of(gpx.track_points()).len(),
    ensures
        stats.track_name@ == gpx.spec_track_name(),
        stats.total_distance_mm == spec_sum_mm(pair_distances_mm@),
        stats.total_ascent_mm == ele_totals(
            elevations_of(gpx.track_points()),
            DEFAULT_ELE_THRESHOLD_MM as int,
        ).0,
        stats.total_descent_mm == ele_totals(
            elevations_of(gpx.track_points()),
            DEFAULT_ELE_THRESHOLD_MM as int,
        ).1,
        stats.ele_threshold_mm == DEFAULT_ELE_THRESHOLD_MM,
{
    calculate_stats_with_threshold(gpx, pair_distances_mm, DEFAULT_ELE_THRESHOLD_MM)
}

} // verus!
