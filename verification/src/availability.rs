//! The facility availability calculator: the complement, at integer-hour
//! granularity, of a facility's occupied intervals within each day.
//!
//! An occupied interval blocks every hour it touches, so the free ranges
//! are reported over whole hours: fractional minutes widen the occupied
//! interval to its enclosing hours.

use vstd::prelude::*;

use crate::model::Facility;
use crate::model::FacilityAvailable;
use crate::model::Interval;
use crate::model::Weekday;

verus! {

/// Hour `h` of day `d` is blocked: some occupied interval on `d` touches
/// the hour, that is, overlaps the open time span between `h:00` and
/// `h+1:00`.
pub open spec fn spec_hour_busy(occ: Seq<Interval>, d: Weekday, h: int) -> bool {
    exists|i: int|
        0 <= i < occ.len() && (#[trigger] occ[i]).day == d && occ[i].start.spec_minutes() < (h + 1)
            * 60 && occ[i].end.spec_minutes() > h * 60
}

/// The first blocked hour at or after `h`, or 24 when the rest of the day
/// is free.
pub open spec fn spec_next_busy(occ: Seq<Interval>, d: Weekday, h: int) -> int
    decreases 24 - h,
        when h <= 24
{
    if h >= 24 {
        24
    } else if spec_hour_busy(occ, d, h) {
        h
    } else {
        spec_next_busy(occ, d, h + 1)
    }
}

/// `spec_next_busy` lands between `h` and 24, on a blocked hour unless the
/// rest of the day is free, and skips no blocked hour.
proof fn lemma_next_busy_props(occ: Seq<Interval>, d: Weekday, h: int)
    requires
        0 <= h <= 24,
    ensures
        h <= spec_next_busy(occ, d, h) <= 24,
        spec_next_busy(occ, d, h) < 24 ==> spec_hour_busy(occ, d, spec_next_busy(occ, d, h)),
        forall|g: int| h <= g < spec_next_busy(occ, d, h) ==> !spec_hour_busy(occ, d, g),
    decreases 24 - h,
{
    if h < 24 && !spec_hour_busy(occ, d, h) {
        lemma_next_busy_props(occ, d, h + 1);
    }
}

/// When every hour from `lo` up to `hi` is free and `hi` is blocked or the
/// end of the day, the next blocked hour from `lo` is exactly `hi`.
proof fn lemma_next_busy_exact(occ: Seq<Interval>, d: Weekday, lo: int, hi: int)
    requires
        0 <= lo <= hi <= 24,
        forall|g: int| lo <= g < hi ==> !spec_hour_busy(occ, d, g),
        hi < 24 ==> spec_hour_busy(occ, d, hi),
    ensures
        spec_next_busy(occ, d, lo) == hi,
    decreases hi - lo,
{
    if lo < hi {
        lemma_next_busy_exact(occ, d, lo + 1, hi);
    }
}

#[via_fn]
proof fn spec_free_runs_from_decreases(occ: Seq<Interval>, d: Weekday, h: int) {
    if 0 <= h < 24 && !spec_hour_busy(occ, d, h) {
        lemma_next_busy_props(occ, d, h + 1);
    }
}

/// The maximal runs of free hours from hour `h` to the end of the day,
/// each as a `(first free hour, first hour no longer in the run)` pair.
pub open spec fn spec_free_runs_from(occ: Seq<Interval>, d: Weekday, h: int) -> Seq<(u32, u32)>
    decreases 24 - h,
        when 0 <= h <= 24
        via spec_free_runs_from_decreases
{
    if h >= 24 {
        Seq::empty()
    } else if spec_hour_busy(occ, d, h) {
        spec_free_runs_from(occ, d, h + 1)
    } else {
        let e = spec_next_busy(occ, d, h + 1);
        seq![(h as u32, e as u32)] + spec_free_runs_from(occ, d, e)
    }
}

/// The free hour ranges of day `d`: the complement of the occupied
/// intervals' hours over the whole day.
pub open spec fn spec_free_ranges(occ: Seq<Interval>, d: Weekday) -> Seq<(u32, u32)> {
    spec_free_runs_from(occ, d, 0)
}

/// A list of hour ranges covers hour `h`.
pub open spec fn spec_ranges_cover(rs: Seq<(u32, u32)>, h: int) -> bool {
    exists|k: int| 0 <= k < rs.len() && (#[trigger] rs[k]).0 <= h < rs[k].1
}

/// The free runs from `h` are well-formed, sorted and strictly separated,
/// start at free hours, and cover exactly the free hours from `h` on.
proof fn lemma_free_runs_from_partition(occ: Seq<Interval>, d: Weekday, h: int)
    requires
        0 <= h <= 24,
    ensures
        forall|k: int|
            0 <= k < spec_free_runs_from(occ, d, h).len() ==> h <= (#[trigger] spec_free_runs_from(
                occ,
                d,
                h,
            )[k]).0 < spec_free_runs_from(occ, d, h)[k].1 <= 24,
        forall|k1: int, k2: int|
            0 <= k1 < k2 < spec_free_runs_from(occ, d, h).len() ==> (#[trigger] spec_free_runs_from(
                occ,
                d,
                h,
            )[k1]).1 < (#[trigger] spec_free_runs_from(occ, d, h)[k2]).0,
        forall|g: int|
            h <= g < 24 ==> (spec_ranges_cover(spec_free_runs_from(occ, d, h), g) <==> !spec_hour_busy(
                occ,
                d,
                g,
            )),
    decreases 24 - h,
{
    let rs = spec_free_runs_from(occ, d, h);
    if h >= 24 {
    } else if spec_hour_busy(occ, d, h) {
        lemma_free_runs_from_partition(occ, d, h + 1);
        let tail = spec_free_runs_from(occ, d, h + 1);
        assert forall|g: int|
            h <= g < 24 implies (spec_ranges_cover(rs, g) <==> !spec_hour_busy(occ, d, g)) by {
            if g == h {
                if spec_ranges_cover(rs, g) {
                    let k = choose|k: int| 0 <= k < rs.len() && (#[trigger] rs[k]).0 <= g < rs[k].1;
                    assert(h + 1 <= rs[k].0);
                }
            }
        }
    } else {
        lemma_next_busy_props(occ, d, h + 1);
        let e = spec_next_busy(occ, d, h + 1);
        let tail = spec_free_runs_from(occ, d, e);
        lemma_free_runs_from_partition(occ, d, e);
        assert(rs == seq![(h as u32, e as u32)] + tail);
        assert(rs[0] == (h as u32, e as u32));
        assert(forall|k: int| 0 <= k < tail.len() ==> rs[k + 1] == #[trigger] tail[k]);
        // The tail's runs start strictly after `e`: they start at free
        // hours, and `e` is blocked unless the day is over.
        assert forall|k: int| 0 <= k < tail.len() implies e < (#[trigger] tail[k]).0 by {
            assert(e <= tail[k].0 < tail[k].1 <= 24);
            assert(spec_ranges_cover(tail, tail[k].0 as int));
            assert(!spec_hour_busy(occ, d, tail[k].0 as int));
            if tail[k].0 == e {
                assert(e < 24);
                assert(spec_hour_busy(occ, d, e));
            }
        }
        assert forall|g: int|
            h <= g < 24 implies (spec_ranges_cover(rs, g) <==> !spec_hour_busy(occ, d, g)) by {
            if g < e {
                // Covered by the first run, and free by the choice of `e`.
                assert(rs[0].0 <= g < rs[0].1);
                assert(spec_ranges_cover(rs, g));
                assert(!spec_hour_busy(occ, d, g));
            } else {
                assert(spec_ranges_cover(tail, g) <==> !spec_hour_busy(occ, d, g));
                if spec_ranges_cover(tail, g) {
                    let k = choose|k: int|
                        0 <= k < tail.len() && (#[trigger] tail[k]).0 <= g < tail[k].1;
                    assert(rs[k + 1].0 <= g < rs[k + 1].1);
                    assert(spec_ranges_cover(rs, g));
                }
                if spec_ranges_cover(rs, g) {
                    let k = choose|k: int| 0 <= k < rs.len() && (#[trigger] rs[k]).0 <= g < rs[k].1;
                    assert(k > 0);
                    assert(tail[k - 1].0 <= g < tail[k - 1].1);
                    assert(spec_ranges_cover(tail, g));
                }
            }
        }
    }
}

/// The free ranges of a day are well-formed and sorted, consecutive
/// ranges do not touch or overlap, and together the free ranges and the
/// hours blocked by occupied intervals partition the whole day, hours 0
/// through 24.
pub proof fn lemma_free_ranges_partition(occ: Seq<Interval>, d: Weekday)
    ensures
        forall|k: int|
            0 <= k < spec_free_ranges(occ, d).len() ==> 0 <= (#[trigger] spec_free_ranges(
                occ,
                d,
            )[k]).0 < spec_free_ranges(occ, d)[k].1 <= 24,
        forall|k1: int, k2: int|
            0 <= k1 < k2 < spec_free_ranges(occ, d).len() ==> (#[trigger] spec_free_ranges(
                occ,
                d,
            )[k1]).1 < (#[trigger] spec_free_ranges(occ, d)[k2]).0,
        forall|h: int|
            0 <= h < 24 ==> (spec_ranges_cover(spec_free_ranges(occ, d), h) <==> !spec_hour_busy(
                occ,
                d,
                h,
            )),
{
    lemma_free_runs_from_partition(occ, d, 0);
}

/// For an interval that starts and ends on the hour, the blocked hours
/// are exactly the hours inside it: on such snapshots the free ranges and
/// the occupied intervals themselves reconstruct the full day.
pub proof fn lemma_hour_busy_on_hour_boundaries(iv: Interval, d: Weekday, h: int)
    requires
        iv.wf(),
        iv.start.minute == 0,
        iv.end.minute == 0,
    ensures
        (iv.day == d && iv.start.spec_minutes() < (h + 1) * 60 && iv.end.spec_minutes() > h * 60)
            <==> (iv.day == d && iv.start.hour <= h < iv.end.hour),
{
}

/// Decide whether hour `h` of day `d` is blocked by an occupied interval.
fn hour_is_busy(occupied: &Vec<Interval>, d: Weekday, h: u32) -> (r: bool)
    requires
        h < 24,
    ensures
        r == spec_hour_busy(occupied@, d, h as int),
{
    let mut k: usize = 0;
    while k < occupied.len()
        invariant
            k <= occupied.len(),
            h < 24,
            forall|i: int|
                0 <= i < k ==> !((#[trigger] occupied@[i]).day == d
                    && occupied@[i].start.spec_minutes() < (h + 1) * 60
                    && occupied@[i].end.spec_minutes() > h * 60),
        decreases occupied.len() - k,
    {
        let iv = &occupied[k];
        if iv.day == d && (iv.start.minutes() as u32) < (h + 1) * 60 && (iv.end.minutes() as u32)
            > h * 60 {
            return true;
        }
        k += 1;
    }
    false
}

/// Compute the free hour ranges of day `d`: sweep the hours of the day in
/// order, opening a run at each free hour after a blocked one and closing
/// it at the next blocked hour or at the end of the day.
pub fn day_free_ranges(occupied: &Vec<Interval>, d: Weekday) -> (r: Vec<(u32, u32)>)
    ensures
        r@ == spec_free_ranges(occupied@, d),
{
    let mut out: Vec<(u32, u32)> = Vec::new();
    let mut run_start: Option<u32> = None;
    let mut h: u32 = 0;
    proof {
        assert(out@ + spec_free_runs_from(occupied@, d, 0) =~= spec_free_runs_from(
            occupied@,
            d,
            0,
        ));
    }
    while h < 24
        invariant
            h <= 24,
            match run_start {
                None => out@ + spec_free_runs_from(occupied@, d, h as int) == spec_free_ranges(
                    occupied@,
                    d,
                ),
                Some(a) => {
                    &&& a < h
                    &&& !spec_hour_busy(occupied@, d, a as int)
                    &&& (forall|g: int|
                        a < g < h ==> !spec_hour_busy(occupied@, d, g))
                    &&& out@ + spec_free_runs_from(occupied@, d, a as int) == spec_free_ranges(
                        occupied@,
                        d,
                    )
                },
            },
        decreases 24 - h,
    {
        let busy = hour_is_busy(occupied, d, h);
        match run_start {
            None => {
                if !busy {
                    run_start = Some(h);
                }
            },
            Some(a) => {
                if busy {
                    proof {
                        lemma_next_busy_exact(occupied@, d, a as int + 1, h as int);
                        let tail = spec_free_runs_from(occupied@, d, h as int);
                        assert(spec_free_runs_from(occupied@, d, a as int) == seq![(a, h)] + tail);
                        assert(out@.push((a, h)) + tail =~= out@ + (seq![(a, h)] + tail));
                    }
                    out.push((a, h));
                    run_start = None;
                }
            },
        }
        h += 1;
    }
    match run_start {
        None => {
            proof {
                assert(out@ + spec_free_runs_from(occupied@, d, 24) =~= out@);
            }
        },
        Some(a) => {
            proof {
                lemma_next_busy_exact(occupied@, d, a as int + 1, 24);
                let tail = spec_free_runs_from(occupied@, d, 24);
                assert(spec_free_runs_from(occupied@, d, a as int) == seq![(a, 24u32)] + tail);
                assert(out@.push((a, 24u32)) + tail =~= out@ + (seq![(a, 24u32)] + tail));
                assert(out@.push((a, 24u32)) + tail =~= out@.push((a, 24u32)));
            }
            out.push((a, 24));
        },
    }
    out
}

/// The availability records a facility's occupied snapshot determines:
/// one per weekday, Monday first, each carrying the facility's data and
/// the day's free hour ranges.
pub open spec fn availability_matches(
    fac: Facility,
    occ: Seq<Interval>,
    r: Seq<FacilityAvailable>,
) -> bool {
    &&& r.len() == 7
    &&& forall|k: int|
        0 <= k < 7 ==> {
            let e = #[trigger] r[k];
            &&& e.day == Weekday::spec_from_ordinal(k)
            &&& e.hours_range@ == spec_free_ranges(occ, Weekday::spec_from_ordinal(k))
            &&& e.id@ == fac.id@
            &&& e.name@ == fac.name@
            &&& e.capacity == fac.capacity
            &&& e.facility_type@ == fac.facility_type@
        }
}

/// The availability computation is a pure function of its input snapshot:
/// any two outputs the contract admits for the same facility and occupied
/// set agree, record by record.
pub proof fn lemma_availability_deterministic(
    fac: Facility,
    occ: Seq<Interval>,
    r1: Seq<FacilityAvailable>,
    r2: Seq<FacilityAvailable>,
)
    requires
        availability_matches(fac, occ, r1),
        availability_matches(fac, occ, r2),
    ensures
        r1.len() == r2.len(),
        forall|k: int|
            0 <= k < r1.len() ==> (#[trigger] r1[k]).day == (#[trigger] r2[k]).day && r1[k].hours_range@
                == r2[k].hours_range@ && r1[k].id@ == r2[k].id@ && r1[k].name@ == r2[k].name@
                && r1[k].capacity == r2[k].capacity && r1[k].facility_type@
                == r2[k].facility_type@,
{
}

/// One availability record per weekday, Monday first, for a facility with
/// the given occupied intervals: each day carries its free hour ranges; a
/// day without occupied intervals comes out fully free.
pub fn availability(facility: &Facility, occupied: &Vec<Interval>) -> (r: Vec<FacilityAvailable>)
    ensures
        availability_matches(*facility, occupied@, r@),
{
    let mut r: Vec<FacilityAvailable> = Vec::new();
    let mut k: u8 = 0;
    while k < 7
        invariant
            k <= 7,
            r@.len() == k as int,
            forall|j: int|
                0 <= j < k as int ==> {
                    let e = #[trigger] r@[j];
                    &&& e.day == Weekday::spec_from_ordinal(j)
                    &&& e.hours_range@ == spec_free_ranges(occupied@, Weekday::spec_from_ordinal(j))
                    &&& e.id@ == facility.id@
                    &&& e.name@ == facility.name@
                    &&& e.capacity == facility.capacity
                    &&& e.facility_type@ == facility.facility_type@
                },
        decreases 7 - k,
    {
        let day = Weekday::from_ordinal(k);
        let ranges = day_free_ranges(occupied, day);
        r.push(
            FacilityAvailable {
                id: facility.id.clone(),
                name: facility.name.clone(),
                capacity: facility.capacity,
                facility_type: facility.facility_type.clone(),
                day,
                hours_range: ranges,
            },
        );
        k += 1;
    }
    r
}

} // verus!
