//! The in-memory shape of a parsed track document: waypoints with fixed-point
//! coordinates and optional elevations, grouped into segments, grouped into
//! named tracks.

use vstd::prelude::*;

verus! {

/// Largest representable latitude: 90 degrees, in ten-millionths of a degree.
pub const MAX_LAT_E7: i64 = 900_000_000;

/// Largest representable longitude: 180 degrees, in ten-millionths of a degree.
pub const MAX_LON_E7: i64 = 1_800_000_000;

/// Bound on the magnitude of an elevation reading, in millimeters
/// (one million kilometers — far beyond any terrestrial value; it keeps
/// differences and running totals inside machine integers).
pub const MAX_ABS_ELE_MM: i64 = 1_000_000_000_000;

/// One recorded point of a track: position in ten-millionths of a degree,
/// optional elevation in millimeters.
#[derive(Clone, Copy, Debug)]
pub struct Waypoint {
    pub lat_e7: i64,
    pub lon_e7: i64,
    pub ele_mm: Option<i64>,
}

impl Waypoint {
    /// The coordinates lie in their geographic ranges and the elevation,
    /// if present, within the representable bound.
    pub open spec fn wf(self) -> bool {
        &&& -MAX_LAT_E7 <= self.lat_e7 <= MAX_LAT_E7
        &&& -MAX_LON_E7 <= self.lon_e7 <= MAX_LON_E7
        &&& match self.ele_mm {
            Some(e) => -MAX_ABS_ELE_MM <= e <= MAX_ABS_ELE_MM,
            None => true,
        }
    }
}

/// A contiguous ordered run of waypoints within a track.
pub struct Segment {
    pub points: Vec<Waypoint>,
}

/// A track: an optional human-readable name and an ordered sequence of
/// segments.
pub struct Track {
    pub name: Option<String>,
    pub segments: Vec<Segment>,
}

/// A parsed track document: zero or more tracks. Only the first track is
/// ever summarized; later tracks are ignored by design.
pub struct Gpx {
    pub tracks: Vec<Track>,
}

/// The waypoints of a sequence of segments, flattened in order.
pub open spec fn flat_points(segs: Seq<Segment>) -> Seq<Waypoint>
    decreases segs.len(),
{
    if segs.len() == 0 {
        Seq::empty()
    } else {
        segs[0].points@ + flat_points(segs.drop_first())
    }
}

impl Gpx {
    /// The waypoints of the first track, flattened across its segments in
    /// recording order; empty when the document has no track.
    pub open spec fn track_points(self) -> Seq<Waypoint> {
        if self.tracks@.len() == 0 {
            Seq::empty()
        } else {
            flat_points(self.tracks@[0].segments@)
        }
    }

    /// The name of the first track; empty when the document has no track or
    /// the track carries no name.
    pub open spec fn spec_track_name(self) -> Seq<char> {
        if self.tracks@.len() > 0 && self.tracks@[0].name is Some {
            self.tracks@[0].name->0@
        } else {
            Seq::empty()
        }
    }

    /// Every waypoint of the first track is well formed.
    pub open spec fn wf(self) -> bool {
        forall|i: int|
            0 <= i < self.track_points().len() ==> (#[trigger] self.track_points()[i]).wf()
    }
}

/// Flattening distributes over concatenation of segment sequences.
proof fn lemma_flat_points_add(a: Seq<Segment>, b: Seq<Segment>)
    ensures
        flat_points(a + b) =~= flat_points(a) + flat_points(b),
    decreases a.len(),
{
    if a.len() == 0 {
        assert(a + b =~= b);
        assert(flat_points(a) =~= Seq::empty());
    } else {
        assert((a + b).drop_first() =~= a.drop_first() + b);
        lemma_flat_points_add(a.drop_first(), b);
    }
}

/// The waypoints of the first track, flattened into one vector in recording
/// order.
pub fn flatten_track_points(gpx: &Gpx) -> (pts: Vec<Waypoint>)
    ensures
        pts@ == gpx.track_points(),
{
    let mut pts: Vec<Waypoint> = Vec::new();
    if gpx.tracks.len() > 0 {
        let track = &gpx.tracks[0];
        let mut i: usize = 0;
        while i < track.segments.len()
            invariant
                0 <= i <= track.segments@.len(),
                track == &gpx.tracks@[0],
                gpx.tracks@.len() > 0,
                pts@ =~= flat_points(track.segments@.take(i as int)),
            decreases track.segments@.len() - i,
        {
            let seg = &track.segments[i];
            let mut j: usize = 0;
            while j < seg.points.len()
                invariant
                    0 <= j <= seg.points@.len(),
                    seg == &track.segments@[i as int],
                    0 <= i < track.segments@.len(),
                    pts@ =~= flat_points(track.segments@.take(i as int))
                        + seg.points@.take(j as int),
                decreases seg.points@.len() - j,
            {
                pts.push(seg.points[j]);
                assert(seg.points@.take(j as int + 1)
                    =~= seg.points@.take(j as int).push(seg.points@[j as int]));
                j = j + 1;
            }
            proof {
                let segs = track.segments@;
                let single = seq![segs[i as int]];
                assert(segs.take(i as int + 1) =~= segs.take(i as int) + single);
                lemma_flat_points_add(segs.take(i as int), single);
                assert(single.drop_first() =~= Seq::<Segment>::empty());
                assert(single.len() == 1 && single[0] == segs[i as int]);
                assert(flat_points(Seq::<Segment>::empty()) =~= Seq::<Waypoint>::empty());
                assert(flat_points(single) =~= single[0].points@ + flat_points(single.drop_first()));
                assert(flat_points(single) =~= segs[i as int].points@);
                assert(seg.points@.take(j as int) =~= seg.points@);
            }
            i = i + 1;
        }
        proof {
            assert(track.segments@.take(track.segments@.len() as int) =~= track.segments@);
        }
    }
    pts
}

} // verus!
