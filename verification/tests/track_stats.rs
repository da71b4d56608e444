use gpx_stats::DEFAULT_ELE_THRESHOLD_MM;
use gpx_stats::distance::{contributing_pairs, sum_distances_mm, PointPair};
use gpx_stats::elevation::elevation_totals;
use gpx_stats::model::{flatten_track_points, Gpx, Segment, Track, Waypoint};
use gpx_stats::stats::{calculate_stats, calculate_stats_with_threshold, GpxStats};

fn wp(lat_e7: i64, lon_e7: i64, ele_mm: Option<i64>) -> Waypoint {
    Waypoint { lat_e7, lon_e7, ele_mm }
}

fn one_track(name: Option<&str>, segments: Vec<Vec<Waypoint>>) -> Gpx {
    Gpx {
        tracks: vec![Track {
            name: name.map(|n| n.to_string()),
            segments: segments
                .into_iter()
                .map(|points| Segment { points })
                .collect(),
        }],
    }
}

fn stats_of(gpx: &Gpx, pair_distances_mm: Vec<u64>) -> GpxStats {
    let pts = flatten_track_points(gpx);
    let pairs = contributing_pairs(&pts);
    assert_eq!(pairs.len(), pair_distances_mm.len());
    calculate_stats(gpx, &pair_distances_mm)
}

#[test]
fn elevation_exact_values() {
    // first reading sets the state only; +5000 and -3000 both exceed 2000
    let eles = vec![Some(100_000i64), Some(105_000), Some(102_000)];
    let (ascent, descent) = elevation_totals(&eles, 2000);
    assert_eq!(ascent, 5000);
    assert_eq!(descent, 3000);
}

#[test]
fn no_readings_no_change() {
    let eles: Vec<Option<i64>> = vec![None, None, None];
    assert_eq!(elevation_totals(&eles, 2000), (0, 0));
    let empty: Vec<Option<i64>> = vec![];
    assert_eq!(elevation_totals(&empty, 2000), (0, 0));
}

#[test]
fn one_reading_no_change() {
    let eles = vec![None, Some(500_000i64), None];
    assert_eq!(elevation_totals(&eles, 2000), (0, 0));
}

#[test]
fn small_diffs_all_discarded() {
    // every step is at most 2000 in magnitude
    let eles = vec![Some(10_000i64), Some(11_500), Some(10_200), Some(12_200)];
    assert_eq!(elevation_totals(&eles, 2000), (0, 0));
}

#[test]
fn constant_elevation_no_change() {
    let eles = vec![Some(5_000i64); 100];
    assert_eq!(elevation_totals(&eles, 2000), (0, 0));
    assert_eq!(elevation_totals(&eles, 0), (0, 0));
}

#[test]
fn discarded_steps_do_not_accumulate() {
    // each +1999 step is below the threshold and the comparison is always
    // against the immediately preceding raw reading, so nothing is counted
    let eles = vec![
        Some(10_000i64),
        Some(11_999),
        Some(13_998),
        Some(15_997),
        Some(17_996),
    ];
    assert_eq!(elevation_totals(&eles, 2000), (0, 0));
}

#[test]
fn state_updates_even_when_discarded() {
    // +1000 discarded, then +4000 counted against the raw 11_000 reading
    let eles = vec![Some(10_000i64), Some(11_000), Some(15_000)];
    assert_eq!(elevation_totals(&eles, 2000), (4000, 0));
}

#[test]
fn gaps_leave_state_untouched() {
    let eles = vec![Some(10_000i64), None, None, Some(15_000)];
    assert_eq!(elevation_totals(&eles, 2000), (5000, 0));
}

#[test]
fn nonpositive_previous_reading_not_compared() {
    // a reading is only compared when the previous reading was > 0,
    // but it still becomes the new state
    let eles = vec![Some(-5_000i64), Some(10_000), Some(20_000)];
    assert_eq!(elevation_totals(&eles, 2000), (10_000, 0));
}

#[test]
fn threshold_monotonic_concrete() {
    let eles = vec![
        Some(10_000i64),
        Some(12_500),
        Some(11_000),
        Some(16_000),
        Some(14_500),
    ];
    let (a0, d0) = elevation_totals(&eles, 0);
    let (a1, d1) = elevation_totals(&eles, 2000);
    let (a2, d2) = elevation_totals(&eles, 3000);
    assert!(a1 <= a0 && d1 <= d0);
    assert!(a2 <= a1 && d2 <= d1);
    assert_eq!((a0, d0), (7500, 3000));
    assert_eq!((a1, d1), (7500, 0));
    assert_eq!((a2, d2), (5000, 0));
}

#[test]
fn contributing_pairs_policy() {
    // first point never contributes; a pair is counted only when the
    // previous point had strictly positive longitude and latitude
    let pts = vec![
        wp(10, 20, None),
        wp(30, 40, None),
        wp(-50, 60, None),
    ];
    let pairs = contributing_pairs(&pts);
    assert_eq!(
        pairs,
        vec![
            PointPair { lat1_e7: 10, lon1_e7: 20, lat2_e7: 30, lon2_e7: 40 },
            PointPair { lat1_e7: 30, lon1_e7: 40, lat2_e7: -50, lon2_e7: 60 },
        ]
    );
}

#[test]
fn nonpositive_previous_point_breaks_chain() {
    // after a point with a nonpositive coordinate the next pair is skipped
    let pts = vec![
        wp(10, 20, None),
        wp(-30, 40, None),
        wp(50, 60, None),
        wp(70, 80, None),
    ];
    let pairs = contributing_pairs(&pts);
    assert_eq!(
        pairs,
        vec![
            PointPair { lat1_e7: 10, lon1_e7: 20, lat2_e7: -30, lon2_e7: 40 },
            PointPair { lat1_e7: 50, lon1_e7: 60, lat2_e7: 70, lon2_e7: 80 },
        ]
    );
}

#[test]
fn zero_coordinate_previous_point_skipped() {
    // the guard is strict: a previous coordinate of exactly 0 disqualifies
    let on_meridian = vec![wp(10, 0, None), wp(30, 40, None)];
    assert_eq!(contributing_pairs(&on_meridian).len(), 0);
    let on_equator = vec![wp(0, 20, None), wp(30, 40, None)];
    assert_eq!(contributing_pairs(&on_equator).len(), 0);
}

#[test]
fn repeated_point_still_pairs() {
    // a point paired with itself is a valid pair; its distance is the
    // caller's to evaluate (zero for the great-circle distance)
    let pts = vec![wp(10, 20, None), wp(10, 20, None)];
    let pairs = contributing_pairs(&pts);
    assert_eq!(
        pairs,
        vec![PointPair { lat1_e7: 10, lon1_e7: 20, lat2_e7: 10, lon2_e7: 20 }]
    );
}

#[test]
fn sum_distances_exact() {
    assert_eq!(sum_distances_mm(&vec![5, 7]), 12);
    assert_eq!(sum_distances_mm(&vec![]), 0);
    assert_eq!(sum_distances_mm(&vec![u64::MAX, u64::MAX]), 2 * (u64::MAX as u128));
}

#[test]
fn empty_document_all_zero() {
    let gpx = Gpx { tracks: vec![] };
    let stats = stats_of(&gpx, vec![]);
    assert_eq!(stats.track_name, "");
    assert_eq!(stats.total_distance_mm, 0);
    assert_eq!(stats.total_ascent_mm, 0);
    assert_eq!(stats.total_descent_mm, 0);
    assert_eq!(stats.ele_threshold_mm, DEFAULT_ELE_THRESHOLD_MM);
}

#[test]
fn single_waypoint_all_zero() {
    let gpx = one_track(Some("lone"), vec![vec![wp(100, 200, Some(5_000))]]);
    let stats = stats_of(&gpx, vec![]);
    assert_eq!(stats.track_name, "lone");
    assert_eq!(stats.total_distance_mm, 0);
    assert_eq!(stats.total_ascent_mm, 0);
    assert_eq!(stats.total_descent_mm, 0);
}

#[test]
fn track_name_captured() {
    let gpx = one_track(
        Some("Anello Diga di Ridracoli"),
        vec![vec![wp(100, 200, None)]],
    );
    let stats = stats_of(&gpx, vec![]);
    assert_eq!(stats.track_name, "Anello Diga di Ridracoli");

    let unnamed = one_track(None, vec![vec![wp(100, 200, None)]]);
    assert_eq!(stats_of(&unnamed, vec![]).track_name, "");
}

#[test]
fn only_first_track_summarized() {
    let mut gpx = one_track(Some("first"), vec![vec![wp(100, 200, None)]]);
    gpx.tracks.push(Track {
        name: Some("second".to_string()),
        segments: vec![Segment {
            points: vec![wp(10, 20, Some(1_000)), wp(30, 40, Some(900_000))],
        }],
    });
    let stats = stats_of(&gpx, vec![]);
    assert_eq!(stats.track_name, "first");
    assert_eq!(stats.total_ascent_mm, 0);
    assert_eq!(stats.total_distance_mm, 0);
}

#[test]
fn state_persists_across_segments() {
    // the pair across the segment boundary is counted, and so is the
    // elevation difference across it
    let gpx = one_track(
        Some("two segments"),
        vec![
            vec![wp(10, 20, Some(100_000)), wp(30, 40, Some(101_000))],
            vec![wp(50, 60, Some(106_000))],
        ],
    );
    let pts = flatten_track_points(&gpx);
    let pairs = contributing_pairs(&pts);
    assert_eq!(pairs.len(), 2);
    assert_eq!(
        pairs[1],
        PointPair { lat1_e7: 30, lon1_e7: 40, lat2_e7: 50, lon2_e7: 60 }
    );
    let stats = calculate_stats(&gpx, &vec![1_000, 2_500]);
    assert_eq!(stats.total_distance_mm, 3_500);
    // +1000 discarded, +5000 counted
    assert_eq!(stats.total_ascent_mm, 5_000);
    assert_eq!(stats.total_descent_mm, 0);
}

#[test]
fn explicit_threshold_reported_and_applied() {
    let gpx = one_track(
        Some("hilly"),
        vec![vec![
            wp(10, 20, Some(100_000)),
            wp(30, 40, Some(102_500)),
            wp(50, 60, Some(100_000)),
        ]],
    );
    let pts = flatten_track_points(&gpx);
    let pairs = contributing_pairs(&pts);
    let dists = vec![0u64; pairs.len()];

    let strict = calculate_stats_with_threshold(&gpx, &dists, 2000);
    assert_eq!(strict.ele_threshold_mm, 2000);
    assert_eq!(strict.total_ascent_mm, 2_500);
    assert_eq!(strict.total_descent_mm, 2_500);

    let lax = calculate_stats_with_threshold(&gpx, &dists, 3000);
    assert_eq!(lax.ele_threshold_mm, 3000);
    assert_eq!(lax.total_ascent_mm, 0);
    assert_eq!(lax.total_descent_mm, 0);

    let default = calculate_stats(&gpx, &dists);
    assert_eq!(default.ele_threshold_mm, DEFAULT_ELE_THRESHOLD_MM);
    assert_eq!(default.total_ascent_mm, strict.total_ascent_mm);
}

#[test]
fn default_stats_all_zero() {
    let stats = GpxStats::default();
    assert_eq!(stats.track_name, "");
    assert_eq!(stats.total_distance_mm, 0);
    assert_eq!(stats.total_ascent_mm, 0);
    assert_eq!(stats.total_descent_mm, 0);
    assert_eq!(stats.ele_threshold_mm, DEFAULT_ELE_THRESHOLD_MM);
}
