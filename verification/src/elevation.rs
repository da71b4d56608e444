//! Noise-filtered elevation accumulation: total ascent and total descent of
//! a sequence of optional elevation readings, where a change whose magnitude
//! does not exceed the threshold is discarded as sensor noise.
//!
//! The accumulator keeps the behaviour of the recording it summarizes: the
//! previous-reading state starts at the sentinel 0, and a reading is only
//! compared against a previous reading that was strictly positive. The
//! comparison is always against the immediately preceding raw reading, so
//! small discarded steps do not accumulate into a missed large change.

use vstd::prelude::*;
use vstd::math::abs;
use crate::model::{Waypoint, MAX_ABS_ELE_MM};

verus! {

/// Every elevation reading present lies within the representable bound.
pub open spec fn wf_elevations(eles: Seq<Option<i64>>) -> bool {
    forall|i: int|
        0 <= i < eles.len() ==> match #[trigger] eles[i] {
            Some(e) => -MAX_ABS_ELE_MM <= e <= MAX_ABS_ELE_MM,
            None => true,
        }
}

/// The elevation readings of a waypoint sequence, in order, gaps kept.
pub open spec fn elevations_of(pts: Seq<Waypoint>) -> Seq<Option<i64>> {
    pts.map_values(|w: Waypoint| w.ele_mm)
}

/// The (ascent, descent) contribution of one reading `e` against the
/// previous reading `prev` (0 is the no-previous-reading sentinel).
pub open spec fn ele_step(prev: int, e: int, threshold: int) -> (int, int) {
    if prev > 0 {
        let diff = e - prev;
        if abs(diff) > threshold {
            if diff >= 0 {
                (diff, 0)
            } else {
                (0, -diff)
            }
        } else {
            (0, 0)
        }
    } else {
        (0, 0)
    }
}

/// Total (ascent, descent) of the readings, starting from previous-reading
/// state `prev`; a waypoint without a reading leaves the state untouched,
/// a waypoint with one always becomes the new state.
pub open spec fn ele_totals_from(eles: Seq<Option<i64>>, threshold: int, prev: int) -> (int, int)
    decreases eles.len(),
{
    if eles.len() == 0 {
        (0, 0)
    } else {
        match eles[0] {
            None => ele_totals_from(eles.drop_first(), threshold, prev),
            Some(e) => {
                let step = ele_step(prev, e as int, threshold);
                let rest = ele_totals_from(eles.drop_first(), threshold, e as int);
                (step.0 + rest.0, step.1 + rest.1)
            },
        }
    }
}

/// Total (ascent, descent) of a whole sequence of optional readings.
pub open spec fn ele_totals(eles: Seq<Option<i64>>, threshold: int) -> (int, int) {
    ele_totals_from(eles, threshold, 0)
}

/// A suffix of a well-formed reading sequence is well formed.
proof fn lemma_wf_elevations_skip(eles: Seq<Option<i64>>, i: int)
    requires
        wf_elevations(eles),
        0 <= i <= eles.len(),
    ensures
        wf_elevations(eles.skip(i)),
{
    assert forall|k: int| 0 <= k < eles.skip(i).len() implies match #[trigger] eles.skip(
        i,
    )[k] {
        Some(e) => -MAX_ABS_ELE_MM <= e <= MAX_ABS_ELE_MM,
        None => true,
    } by {
        assert(eles.skip(i)[k] == eles[i + k]);
    }
}

/// Ascent and descent are non-negative and bounded by twice the elevation
/// bound per reading.
pub proof fn lemma_ele_totals_bounds(eles: Seq<Option<i64>>, threshold: int, prev: int)
    requires
        wf_elevations(eles),
        -MAX_ABS_ELE_MM <= prev <= MAX_ABS_ELE_MM,
    ensures
        0 <= ele_totals_from(eles, threshold, prev).0 <= eles.len() * (2 * MAX_ABS_ELE_MM),
        0 <= ele_totals_from(eles, threshold, prev).1 <= eles.len() * (2 * MAX_ABS_ELE_MM),
    decreases eles.len(),
{
    if eles.len() > 0 {
        lemma_wf_elevations_skip(eles, 1);
        assert(eles.skip(1) =~= eles.drop_first());
        match eles[0] {
            None => {
                lemma_ele_totals_bounds(eles.drop_first(), threshold, prev);
            },
            Some(e) => {
                lemma_ele_totals_bounds(eles.drop_first(), threshold, e as int);
            },
        }
    }
}

/// Total ascent and descent of a sequence of optional elevation readings,
/// in millimeters, changes of magnitude at most `threshold_mm` discarded.
pub fn elevation_totals(eles: &Vec<Option<i64>>, threshold_mm: i64) -> (totals: (u128, u128))
    requires
        wf_elevations(eles@),
    ensures
        totals.0 == ele_totals(eles@, threshold_mm as int).0,
        totals.1 == ele_totals(eles@, threshold_mm as int).1,
{
    let ghost whole = ele_totals(eles@, threshold_mm as int);
    let n = eles.len();
    let mut ascent: u128 = 0;
    let mut descent: u128 = 0;
    let mut prev_ele: i64 = 0;
    let mut i: usize = 0;
    proof {
        assert(eles@.skip(0) =~= eles@);
    }
    while i < n
        invariant
            0 <= i <= n,
            n == eles@.len(),
            wf_elevations(eles@),
            -MAX_ABS_ELE_MM <= prev_ele <= MAX_ABS_ELE_MM,
            whole == ele_totals(eles@, threshold_mm as int),
            ascent + ele_totals_from(eles@.skip(i as int), threshold_mm as int, prev_ele as int).0
                == whole.0,
            descent + ele_totals_from(eles@.skip(i as int), threshold_mm as int, prev_ele as int).1
                == whole.1,
        decreases n - i,
    {
        proof {
            assert(eles@.skip(i as int).drop_first() =~= eles@.skip(i as int + 1));
            assert(eles@.skip(i as int)[0] == eles@[i as int]);
            lemma_ele_totals_bounds(eles@, threshold_mm as int, 0);
            lemma_wf_elevations_skip(eles@, i as int);
        }
        match eles[i] {
            Some(e) => {
                proof {
                    lemma_wf_elevations_skip(eles@, i as int + 1);
                    lemma_ele_totals_bounds(
                        eles@.skip(i as int + 1),
                        threshold_mm as int,
                        e as int,
                    );
                }
                if prev_ele > 0 {
                    let diff: i64 = e - prev_ele;
                    let mag: i64 = if diff < 0 {
                        -diff
                    } else {
                        diff
                    };
                    if mag > threshold_mm {
                        proof {
                            let th = threshold_mm as int;
                            let step = ele_step(prev_ele as int, e as int, th);
                            let rest = ele_totals_from(eles@.skip(i as int + 1), th, e as int);
                            assert(ele_totals_from(eles@.skip(i as int), th, prev_ele as int).0
                                == step.0 + rest.0);
                            assert(ele_totals_from(eles@.skip(i as int), th, prev_ele as int).1
                                == step.1 + rest.1);
                            assert(ascent + step.0 <= whole.0);
                            assert(descent + step.1 <= whole.1);
                            assert(eles@.len() <= u64::MAX);
                            assert(eles@.len() * (2 * MAX_ABS_ELE_MM) <= u64::MAX * (2
                                * MAX_ABS_ELE_MM)) by (nonlinear_arith)
                                requires eles@.len() <= u64::MAX;
                        }
                        if diff >= 0 {
                            ascent = ascent + (diff as u128);
                        } else {
                            descent = descent + (mag as u128);
                        }
                    }
                }
                prev_ele = e;
            },
            None => {},
        }
        i = i + 1;
    }
    proof {
        assert(eles@.skip(n as int) =~= Seq::<Option<i64>>::empty());
    }
    (ascent, descent)
}

/// Number of waypoints that carry an elevation reading.
pub open spec fn reading_count(eles: Seq<Option<i64>>) -> nat
    decreases eles.len(),
{
    if eles.len() == 0 {
        0
    } else {
        (if eles[0] is Some {
            1nat
        } else {
            0nat
        }) + reading_count(eles.drop_first())
    }
}

/// With no reading at all there is nothing to accumulate, whatever the
/// previous-reading state.
proof fn lemma_no_readings_no_change(eles: Seq<Option<i64>>, threshold: int, prev: int)
    requires
        reading_count(eles) == 0,
    ensures
        ele_totals_from(eles, threshold, prev).0 == 0,
        ele_totals_from(eles, threshold, prev).1 == 0,
    decreases eles.len(),
{
    if eles.len() > 0 {
        lemma_no_readings_no_change(eles.drop_first(), threshold, prev);
    }
}

/// With zero or one elevation readings there is no pair of readings to
/// compare, so ascent and descent are both zero.
pub proof fn lemma_few_readings_no_elevation_change(eles: Seq<Option<i64>>, threshold: int)
    requires
        reading_count(eles) <= 1,
    ensures
        ele_totals(eles, threshold).0 == 0,
        ele_totals(eles, threshold).1 == 0,
    decreases eles.len(),
{
    if eles.len() > 0 {
        match eles[0] {
            None => {
                lemma_few_readings_no_elevation_change(eles.drop_first(), threshold);
            },
            Some(e) => {
                lemma_no_readings_no_change(eles.drop_first(), threshold, e as int);
            },
        }
    }
}

/// Every reading differs from the reading before it by at most `threshold`
/// in magnitude; `prev` is the reading before the sequence, if any. Gaps are
/// skipped, exactly as the accumulator skips them.
pub open spec fn diffs_within(eles: Seq<Option<i64>>, threshold: int, prev: Option<int>) -> bool
    decreases eles.len(),
{
    if eles.len() == 0 {
        true
    } else {
        match eles[0] {
            None => diffs_within(eles.drop_first(), threshold, prev),
            Some(e) => (match prev {
                Some(p) => abs(e - p) <= threshold,
                None => true,
            }) && diffs_within(eles.drop_first(), threshold, Some(e as int)),
        }
    }
}

/// From a known previous reading, all-small steps accumulate nothing: each
/// counted difference is at most the threshold, or the guard skips it.
proof fn lemma_small_diffs_from(eles: Seq<Option<i64>>, threshold: int, prev: int)
    requires
        diffs_within(eles, threshold, Some(prev)),
    ensures
        ele_totals_from(eles, threshold, prev).0 == 0,
        ele_totals_from(eles, threshold, prev).1 == 0,
    decreases eles.len(),
{
    if eles.len() > 0 {
        match eles[0] {
            None => {
                lemma_small_diffs_from(eles.drop_first(), threshold, prev);
            },
            Some(e) => {
                lemma_small_diffs_from(eles.drop_first(), threshold, e as int);
            },
        }
    }
}

/// When every reading differs from its predecessor by at most the threshold
/// in magnitude, every change is discarded as noise: ascent and descent are
/// both zero.
pub proof fn lemma_small_diffs_no_elevation_change(eles: Seq<Option<i64>>, threshold: int)
    requires
        diffs_within(eles, threshold, None),
    ensures
        ele_totals(eles, threshold).0 == 0,
        ele_totals(eles, threshold).1 == 0,
    decreases eles.len(),
{
    if eles.len() > 0 {
        match eles[0] {
            None => {
                lemma_small_diffs_no_elevation_change(eles.drop_first(), threshold);
            },
            Some(e) => {
                lemma_small_diffs_from(eles.drop_first(), threshold, e as int);
            },
        }
    }
}

/// Every reading present equals `c`.
pub open spec fn constant_elevation(eles: Seq<Option<i64>>, c: int) -> bool {
    forall|i: int|
        0 <= i < eles.len() ==> match #[trigger] eles[i] {
            Some(e) => e == c,
            None => true,
        }
}

/// From a previous-reading state that is the sentinel or the constant
/// itself, a constant profile accumulates nothing: every difference is zero.
proof fn lemma_constant_from(eles: Seq<Option<i64>>, threshold: int, c: int, prev: int)
    requires
        constant_elevation(eles, c),
        prev == 0 || prev == c,
    ensures
        ele_totals_from(eles, threshold, prev).0 == 0,
        ele_totals_from(eles, threshold, prev).1 == 0,
    decreases eles.len(),
{
    if eles.len() > 0 {
        assert(forall|k: int|
            0 <= k < eles.drop_first().len() ==> eles.drop_first()[k] == eles[k + 1]);
        match eles[0] {
            None => {
                lemma_constant_from(eles.drop_first(), threshold, c, prev);
            },
            Some(e) => {
                lemma_constant_from(eles.drop_first(), threshold, c, e as int);
            },
        }
    }
}

/// A constant-elevation track gains and loses nothing, whatever its length
/// and whatever the threshold.
pub proof fn lemma_constant_elevation_no_change(eles: Seq<Option<i64>>, threshold: int, c: int)
    requires
        constant_elevation(eles, c),
    ensures
        ele_totals(eles, threshold).0 == 0,
        ele_totals(eles, threshold).1 == 0,
{
    lemma_constant_from(eles, threshold, c, 0);
}

/// Raising the threshold can only shrink each step's contribution.
proof fn lemma_mono_from(eles: Seq<Option<i64>>, th_low: int, th_high: int, prev: int)
    requires
        th_low <= th_high,
    ensures
        ele_totals_from(eles, th_high, prev).0 <= ele_totals_from(eles, th_low, prev).0,
        ele_totals_from(eles, th_high, prev).1 <= ele_totals_from(eles, th_low, prev).1,
    decreases eles.len(),
{
    if eles.len() > 0 {
        match eles[0] {
            None => {
                lemma_mono_from(eles.drop_first(), th_low, th_high, prev);
            },
            Some(e) => {
                lemma_mono_from(eles.drop_first(), th_low, th_high, e as int);
                assert(ele_step(prev, e as int, th_high).0 <= ele_step(prev, e as int, th_low).0);
                assert(ele_step(prev, e as int, th_high).1 <= ele_step(prev, e as int, th_low).1);
            },
        }
    }
}

/// Noise filtering is monotonic in the threshold: raising the threshold can
/// only decrease, or hold equal, both the reported ascent and the reported
/// descent, for the same reading sequence.
pub proof fn lemma_threshold_monotonic(eles: Seq<Option<i64>>, th_low: int, th_high: int)
    requires
        th_low <= th_high,
    ensures
        ele_totals(eles, th_high).0 <= ele_totals(eles, th_low).0,
        ele_totals(eles, th_high).1 <= ele_totals(eles, th_low).1,
{
    lemma_mono_from(eles, th_low, th_high, 0);
}

/// The elevation readings of the waypoints, in order, gaps kept.
pub fn elevations_of_points(pts: &Vec<Waypoint>) -> (eles: Vec<Option<i64>>)
    ensures
        eles@ == elevations_of(pts@),
{
    let mut eles: Vec<Option<i64>> = Vec::new();
    let mut i: usize = 0;
    while i < pts.len()
        invariant
            0 <= i <= pts@.len(),
            eles@.len() == i,
            forall|k: int| 0 <= k < i ==> eles@[k] == pts@[k].ele_mm,
        decreases pts@.len() - i,
    {
        eles.push(pts[i].ele_mm);
        i = i + 1;
    }
    proof {
        assert(eles@ =~= elevations_of(pts@));
    }
    eles
}

} // verus!
