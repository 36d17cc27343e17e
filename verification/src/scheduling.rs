//! The slot suggester: a greedy, single-pass-per-course search that
//! proposes one non-conflicting weekly slot per course inside a daily work
//! window, probing candidate start times at a fixed granularity.

use vstd::prelude::*;

use vstd::multiset::Multiset;

use crate::conflict::conflicts_with_any;
use crate::conflict::spec_conflicts;
use crate::conflict::spec_conflicts_with_any;
use crate::errors::SchedulingError;
use crate::model::Course;
use crate::model::Interval;
use crate::model::ScheduleSlot;
use crate::model::SessionType;
use crate::model::TimeOfDay;
use crate::model::Weekday;

verus! {

/// The candidate interval for a slot of `dur` minutes starting `t` minutes
/// after midnight on `day`.
pub open spec fn spec_candidate(day: Weekday, t: int, dur: int) -> Interval {
    Interval {
        day,
        start: TimeOfDay::spec_from_minutes(t),
        end: TimeOfDay::spec_from_minutes(t + dur),
    }
}

/// Minutes left between `t` and the end of the window; the termination
/// measure of the candidate scan.
pub open spec fn spec_minutes_left(t: int, we: int) -> nat {
    if t <= we {
        (we - t) as nat
    } else {
        0
    }
}

/// First start minute at or after `t`, probed in steps of `gran`, whose
/// candidate of `dur` minutes fits before `we` and conflicts with nothing
/// in `busy`; `None` when the scan runs off the end of the window.
pub open spec fn spec_fit_from(
    t: int,
    dur: int,
    we: int,
    gran: int,
    day: Weekday,
    busy: Seq<Interval>,
) -> Option<int>
    decreases spec_minutes_left(t, we),
        when gran >= 1 && dur >= 1
{
    if t + dur > we {
        None
    } else if !spec_conflicts_with_any(spec_candidate(day, t, dur), busy) {
        Some(t)
    } else {
        spec_fit_from(t + gran, dur, we, gran, day, busy)
    }
}

/// First feasible candidate on `day`, scanning from the window start.
pub open spec fn spec_first_fit_day(
    day: Weekday,
    dur: int,
    busy: Seq<Interval>,
    ws: int,
    we: int,
    gran: int,
) -> Option<Interval> {
    match spec_fit_from(ws, dur, we, gran, day, busy) {
        Some(t) => Some(spec_candidate(day, t, dur)),
        None => None,
    }
}

/// First feasible candidate over the days of `order`, tried in order.
pub open spec fn spec_first_fit(
    order: Seq<Weekday>,
    dur: int,
    busy: Seq<Interval>,
    ws: int,
    we: int,
    gran: int,
) -> Option<Interval>
    decreases order.len(),
{
    if order.len() == 0 {
        None
    } else {
        match spec_first_fit_day(order[0], dur, busy, ws, we, gran) {
            Some(iv) => Some(iv),
            None => spec_first_fit(order.drop_first(), dur, busy, ws, we, gran),
        }
    }
}

/// Build the candidate interval for start minute `t` and length `dur`.
fn make_candidate(day: Weekday, t: u16, dur: u16) -> (r: Interval)
    requires
        t + dur < 1440,
        dur >= 1,
    ensures
        r == spec_candidate(day, t as int, dur as int),
        r.wf(),
{
    Interval {
        day,
        start: TimeOfDay::from_minutes(t),
        end: TimeOfDay::from_minutes(t + dur),
    }
}

/// Scan one day for the first feasible start minute.
fn first_fit_in_day(day: Weekday, dur: u16, busy: &Vec<Interval>, ws: u16, we: u16, gran: u32) -> (r:
    Option<u16>)
    requires
        ws <= we < 1440,
        1 <= dur <= we - ws,
        gran >= 1,
    ensures
        match r {
            Some(t) => spec_fit_from(ws as int, dur as int, we as int, gran as int, day, busy@)
                == Some(t as int) && ws <= t && t + dur <= we && !spec_conflicts_with_any(
                spec_candidate(day, t as int, dur as int),
                busy@,
            ),
            None => spec_fit_from(ws as int, dur as int, we as int, gran as int, day, busy@)
                is None,
        },
{
    let mut t: u16 = ws;
    loop
        invariant
            ws <= t <= we,
            we < 1440,
            1 <= dur <= we - ws,
            gran >= 1,
            spec_fit_from(ws as int, dur as int, we as int, gran as int, day, busy@)
                == spec_fit_from(t as int, dur as int, we as int, gran as int, day, busy@),
        decreases we - t,
    {
        if t + dur > we {
            return None;
        }
        let cand = make_candidate(day, t, dur);
        if !conflicts_with_any(&cand, busy) {
            return Some(t);
        }
        if ((we - t) as u32) < gran {
            proof {
                assert(t + gran > we);
                assert(spec_fit_from(t as int, dur as int, we as int, gran as int, day, busy@)
                    == spec_fit_from(t + gran, dur as int, we as int, gran as int, day, busy@));
            }
            return None;
        }
        t = t + (gran as u16);
    }
}

/// Scan the days of `order` for the first feasible candidate interval.
fn first_fit(
    order: &Vec<Weekday>,
    dur: u16,
    busy: &Vec<Interval>,
    ws: u16,
    we: u16,
    gran: u32,
) -> (r: Option<Interval>)
    requires
        ws <= we < 1440,
        1 <= dur <= we - ws,
        gran >= 1,
    ensures
        r == spec_first_fit(order@, dur as int, busy@, ws as int, we as int, gran as int),
        r matches Some(iv) ==> iv.wf() && !spec_conflicts_with_any(iv, busy@),
{
    let mut d: usize = 0;
    proof {
        assert(order@.skip(0) =~= order@);
    }
    while d < order.len()
        invariant
            d <= order.len(),
            ws <= we < 1440,
            1 <= dur <= we - ws,
            gran >= 1,
            spec_first_fit(order@, dur as int, busy@, ws as int, we as int, gran as int)
                == spec_first_fit(
                order@.skip(d as int),
                dur as int,
                busy@,
                ws as int,
                we as int,
                gran as int,
            ),
        decreases order.len() - d,
    {
        let day = order[d];
        match first_fit_in_day(day, dur, busy, ws, we, gran) {
            Some(t) => {
                let iv = make_candidate(day, t, dur);
                return Some(iv);
            },
            None => {
                proof {
                    assert(order@.skip(d as int).drop_first() =~= order@.skip(d as int + 1));
                }
                d += 1;
            },
        }
    }
    proof {
        assert(order@.skip(order@.len() as int).len() == 0);
    }
    None
}

/// Requested slot length of a course, in minutes.
pub open spec fn spec_duration(c: Course) -> int {
    c.hours_per_week * 60
}

/// A course's requested duration is positive and fits the work window.
pub open spec fn spec_valid_duration(c: Course, ws: int, we: int) -> bool {
    1 <= c.hours_per_week && spec_duration(c) <= we - ws
}

/// Index of the first course whose requested duration is invalid for the
/// window, if any.
pub open spec fn spec_first_invalid(courses: Seq<Course>, ws: int, we: int) -> Option<int>
    decreases courses.len(),
{
    if courses.len() == 0 {
        None
    } else if !spec_valid_duration(courses[0], ws, we) {
        Some(0int)
    } else {
        match spec_first_invalid(courses.drop_first(), ws, we) {
            Some(i) => Some(i + 1),
            None => None,
        }
    }
}

/// `spec_first_invalid` finds exactly the first invalid index.
proof fn lemma_first_invalid_at(courses: Seq<Course>, ws: int, we: int, k: int)
    requires
        0 <= k <= courses.len(),
        forall|j: int| 0 <= j < k ==> spec_valid_duration(#[trigger] courses[j], ws, we),
        k < courses.len() ==> !spec_valid_duration(courses[k], ws, we),
    ensures
        if k < courses.len() {
            spec_first_invalid(courses, ws, we) == Some(k)
        } else {
            spec_first_invalid(courses, ws, we) is None
        },
    decreases courses.len(),
{
    if courses.len() == 0 {
    } else if k == 0 {
    } else {
        assert(spec_valid_duration(courses[0], ws, we));
        assert(forall|j: int|
            0 <= j < k - 1 ==> #[trigger] courses.drop_first()[j] == courses[j + 1]);
        lemma_first_invalid_at(courses.drop_first(), ws, we, k - 1);
    }
}

/// The per-course assignments that the greedy pass makes for the course
/// suffix starting at `i`, given the working busy set `busy`: each accepted
/// interval joins the busy set seen by the courses after it.
pub open spec fn spec_assign_from(
    courses: Seq<Course>,
    i: int,
    busy: Seq<Interval>,
    ws: int,
    we: int,
    gran: int,
    order: Seq<Weekday>,
) -> Seq<Option<Interval>>
    decreases courses.len() - i,
        when 0 <= i <= courses.len()
{
    if i >= courses.len() {
        Seq::empty()
    } else {
        match spec_first_fit(order, spec_duration(courses[i]), busy, ws, we, gran) {
            Some(iv) => seq![Some(iv)] + spec_assign_from(
                courses,
                i + 1,
                busy.push(iv),
                ws,
                we,
                gran,
                order,
            ),
            None => seq![Option::<Interval>::None] + spec_assign_from(
                courses,
                i + 1,
                busy,
                ws,
                we,
                gran,
                order,
            ),
        }
    }
}

/// Every course received a slot.
pub open spec fn spec_all_assigned(asn: Seq<Option<Interval>>) -> bool {
    forall|j: int| 0 <= j < asn.len() ==> #[trigger] asn[j] is Some
}

/// Ids of the courses among the first `i` that received no slot, in input
/// order.
pub open spec fn spec_unresolved_upto(
    courses: Seq<Course>,
    asn: Seq<Option<Interval>>,
    i: int,
) -> Seq<Seq<char>>
    decreases i,
{
    if i <= 0 {
        Seq::empty()
    } else if asn[i - 1] is None {
        spec_unresolved_upto(courses, asn, i - 1).push(courses[i - 1].id@)
    } else {
        spec_unresolved_upto(courses, asn, i - 1)
    }
}

/// The slot proposed for a course: the assigned interval, the course's id,
/// a theory session, and identifiers left for the repository layer to fill.
pub open spec fn spec_slot_matches(slot: ScheduleSlot, course: Course, a: Option<Interval>) -> bool {
    &&& a is Some
    &&& slot.interval == a.unwrap()
    &&& slot.course_id@ == course.id@
    &&& slot.id@ == Seq::<char>::empty()
    &&& slot.facility_id@ == Seq::<char>::empty()
    &&& slot.session_type == SessionType::Theory
}

/// `spec_assign_from` yields one assignment per remaining course.
proof fn lemma_assign_from_len(
    courses: Seq<Course>,
    i: int,
    busy: Seq<Interval>,
    ws: int,
    we: int,
    gran: int,
    order: Seq<Weekday>,
)
    requires
        0 <= i <= courses.len(),
    ensures
        spec_assign_from(courses, i, busy, ws, we, gran, order).len() == courses.len() - i,
    decreases courses.len() - i,
{
    if i < courses.len() {
        match spec_first_fit(order, spec_duration(courses[i]), busy, ws, we, gran) {
            Some(iv) => {
                lemma_assign_from_len(courses, i + 1, busy.push(iv), ws, we, gran, order);
            },
            None => {
                lemma_assign_from_len(courses, i + 1, busy, ws, we, gran, order);
            },
        }
    }
}

/// Full characterisation of a suggestion run for a given day order: which
/// error comes on which inputs, and the exact slots on success.
pub open spec fn suggestion_matches(
    courses: Seq<Course>,
    busy: Seq<Interval>,
    ws: int,
    we: int,
    gran: int,
    order: Seq<Weekday>,
    r: Result<Vec<ScheduleSlot>, SchedulingError>,
) -> bool {
    let asn = spec_assign_from(courses, 0, busy, ws, we, gran, order);
    if courses.len() == 0 {
        r matches Err(SchedulingError::NoCoursesFound)
    } else if spec_first_invalid(courses, ws, we) is Some {
        r matches Err(SchedulingError::InvalidDuration(id)) && id@ == courses[spec_first_invalid(
            courses,
            ws,
            we,
        ).unwrap()].id@
    } else if spec_all_assigned(asn) {
        r matches Ok(slots) && slots@.len() == courses.len() && (forall|j: int|
            0 <= j < courses.len() ==> spec_slot_matches(#[trigger] slots@[j], courses[j], asn[j]))
    } else {
        r matches Err(SchedulingError::InsufficientSlots(ids)) && ids@.map_values(|s: String| s@)
            == spec_unresolved_upto(courses, asn, courses.len() as int)
    }
}

/// The suggester is deterministic for a fixed day order: any two results
/// that its contract admits for the same courses, busy set, window,
/// granularity and day order agree slot by slot, and on failure carry the
/// same error with the same course ids. Together with the fact that a
/// seed fixes the day order, the same inputs and seed always yield the
/// same output sequence.
pub proof fn lemma_suggestion_deterministic(
    courses: Seq<Course>,
    busy: Seq<Interval>,
    ws: int,
    we: int,
    gran: int,
    order: Seq<Weekday>,
    r1: Result<Vec<ScheduleSlot>, SchedulingError>,
    r2: Result<Vec<ScheduleSlot>, SchedulingError>,
)
    requires
        suggestion_matches(courses, busy, ws, we, gran, order, r1),
        suggestion_matches(courses, busy, ws, we, gran, order, r2),
    ensures
        match (r1, r2) {
            (Ok(s1), Ok(s2)) => s1@.len() == s2@.len() && (forall|j: int|
                0 <= j < s1@.len() ==> (#[trigger] s1@[j]).interval == (#[trigger] s2@[j]).interval
                    && s1@[j].course_id@ == s2@[j].course_id@ && s1@[j].id@ == s2@[j].id@
                    && s1@[j].facility_id@ == s2@[j].facility_id@ && s1@[j].session_type
                    == s2@[j].session_type),
            (Err(e1), Err(e2)) => match (e1, e2) {
                (SchedulingError::NoCoursesFound, SchedulingError::NoCoursesFound) => true,
                (SchedulingError::InvalidDuration(a), SchedulingError::InvalidDuration(b)) => a@
                    == b@,
                (
                    SchedulingError::InsufficientSlots(a),
                    SchedulingError::InsufficientSlots(b),
                ) => a@.map_values(|s: String| s@) == b@.map_values(|s: String| s@),
                _ => false,
            },
            _ => false,
        },
{
}

/// Multiplier of the linear congruential generator behind seeded day
/// orders.
pub const DAY_ORDER_LCG_MUL: u64 = 6364136223846793005;

/// Increment of the linear congruential generator behind seeded day
/// orders.
pub const DAY_ORDER_LCG_INC: u64 = 1442695040888963407;

/// One step of the linear congruential generator, on wrapping 64-bit
/// arithmetic.
#[verifier::opaque]
pub open spec fn spec_lcg_next(s: u64) -> u64 {
    vstd::wrapping::u64_specs::wrapping_add(
        vstd::wrapping::u64_specs::wrapping_mul(s, DAY_ORDER_LCG_MUL),
        DAY_ORDER_LCG_INC,
    )
}

/// The working days a slot may fall on, Monday through Saturday; Sunday is
/// excluded as non-working by convention.
pub open spec fn spec_working_days() -> Seq<Weekday> {
    seq![
        Weekday::Monday,
        Weekday::Tuesday,
        Weekday::Wednesday,
        Weekday::Thursday,
        Weekday::Friday,
        Weekday::Saturday,
    ]
}

/// The permutation of `pool` drawn by repeatedly picking the element the
/// generator selects from what is left.
pub open spec fn spec_pick_order(pool: Seq<Weekday>, s: u64) -> Seq<Weekday>
    decreases pool.len(),
{
    if pool.len() == 0 {
        Seq::empty()
    } else {
        let s2 = spec_lcg_next(s);
        let j = (s2 as int) % (pool.len() as int);
        seq![pool[j]] + spec_pick_order(pool.remove(j), s2)
    }
}

/// The deterministic day order a seed selects: a permutation of the
/// working days.
pub open spec fn spec_seeded_day_order(seed: u64) -> Seq<Weekday> {
    spec_pick_order(spec_working_days(), seed)
}

/// The working days as a vector, Monday first.
pub fn working_days() -> (r: Vec<Weekday>)
    ensures
        r@ == spec_working_days(),
{
    let mut r: Vec<Weekday> = Vec::new();
    r.push(Weekday::Monday);
    r.push(Weekday::Tuesday);
    r.push(Weekday::Wednesday);
    r.push(Weekday::Thursday);
    r.push(Weekday::Friday);
    r.push(Weekday::Saturday);
    proof {
        assert(r@ =~= spec_working_days());
    }
    r
}

/// Picking never loses or invents a day: the drawn order is a permutation
/// of the pool.
proof fn lemma_pick_order_multiset(pool: Seq<Weekday>, s: u64)
    ensures
        spec_pick_order(pool, s).to_multiset() == pool.to_multiset(),
    decreases pool.len(),
{
    broadcast use vstd::seq_lib::group_to_multiset_ensures;
    broadcast use vstd::multiset::group_multiset_axioms;

    if pool.len() > 0 {
        let s2 = spec_lcg_next(s);
        let j = (s2 as int) % (pool.len() as int);
        let d = pool[j];
        let rest = spec_pick_order(pool.remove(j), s2);
        lemma_pick_order_multiset(pool.remove(j), s2);
        vstd::seq_lib::lemma_multiset_commutative(seq![d], rest);
        assert(seq![d].to_multiset() =~= Multiset::<Weekday>::empty().insert(d)) by {
            assert(seq![d] =~= Seq::<Weekday>::empty().push(d));
        }
        assert(pool.contains(d));
        assert(pool.to_multiset().count(d) > 0);
        assert(Multiset::<Weekday>::empty().insert(d).add(pool.to_multiset().remove(d))
            =~= pool.to_multiset());
    }
}

/// Draw the day order a seed selects; it permutes the working days.
pub fn seeded_day_order(seed: u64) -> (r: Vec<Weekday>)
    ensures
        r@ == spec_seeded_day_order(seed),
        r@.to_multiset() == spec_working_days().to_multiset(),
{
    let mut pool = working_days();
    let mut out: Vec<Weekday> = Vec::new();
    let mut s: u64 = seed;
    while pool.len() > 0
        invariant
            out@ + spec_pick_order(pool@, s) == spec_seeded_day_order(seed),
        decreases pool.len(),
    {
        let ghost old_pool = pool@;
        let ghost old_out = out@;
        let ghost old_s = s;
        s = s.wrapping_mul(DAY_ORDER_LCG_MUL).wrapping_add(DAY_ORDER_LCG_INC);
        proof {
            assert(s == spec_lcg_next(old_s)) by {
                reveal(spec_lcg_next);
            }
        }
        let j: usize = (s % (pool.len() as u64)) as usize;
        let d = pool.remove(j);
        out.push(d);
        proof {
            let rest = spec_pick_order(old_pool.remove(j as int), s);
            assert(spec_pick_order(old_pool, old_s) == seq![old_pool[j as int]] + rest);
            assert(old_out.push(d) + rest =~= old_out + (seq![d] + rest));
        }
    }
    proof {
        assert(out@ + spec_pick_order(pool@, s) =~= out@);
        lemma_pick_order_multiset(spec_working_days(), seed);
    }
    out
}

/// Relies on rand's `SliceRandom::shuffle` driven by `rand::thread_rng`:
/// an in-place Fisher-Yates shuffle that only swaps elements of the slice,
/// so the vector afterwards holds exactly the same days, reordered by the
/// thread-local generator.
#[verifier::external_body]
fn shuffle_days(days: &mut Vec<Weekday>)
    ensures
        final(days)@.to_multiset() == old(days)@.to_multiset(),
{
    let mut rng = rand::thread_rng();
    rand::seq::SliceRandom::shuffle(days.as_mut_slice(), &mut rng);
}

/// Copy a vector of intervals.
fn copy_intervals(src: &Vec<Interval>) -> (r: Vec<Interval>)
    ensures
        r@ == src@,
{
    let mut r: Vec<Interval> = Vec::new();
    let mut k: usize = 0;
    while k < src.len()
        invariant
            k <= src.len(),
            r@ == src@.take(k as int),
        decreases src.len() - k,
    {
        r.push(src[k]);
        proof {
            assert(src@.take(k as int).push(src@[k as int]) =~= src@.take(k as int + 1));
        }
        k += 1;
    }
    proof {
        assert(src@.take(src@.len() as int) =~= src@);
    }
    r
}

/// The scheduling service: the suggester and the schedule validator, over
/// caller-supplied snapshots of courses and busy intervals.
pub struct DefaultSchedulingService {}

impl DefaultSchedulingService {
    /// Create the service. Repository collaborators stay outside the core:
    /// callers fetch snapshots and pass them to the methods.
    pub fn new() -> (r: DefaultSchedulingService) {
        DefaultSchedulingService {  }
    }

    /// Propose one weekly slot per course, trying the days of `day_order`
    /// in order and, within each day, start times from the window start
    /// upward in steps of `granularity_minutes`. The first non-conflicting
    /// candidate wins; accepted slots immediately count as busy for the
    /// courses after them. Fails without partial results when a course has
    /// an invalid duration or no candidate is free.
    #[allow(unused_variables)]
    pub fn suggest_with_day_order(
        &self,
        teacher_id: &str,
        courses: &Vec<Course>,
        busy: &Vec<Interval>,
        window_start: TimeOfDay,
        window_end: TimeOfDay,
        granularity_minutes: u32,
        day_order: &Vec<Weekday>,
    ) -> (r: Result<Vec<ScheduleSlot>, SchedulingError>)
        requires
            window_start.wf(),
            window_end.wf(),
            window_start.spec_minutes() <= window_end.spec_minutes(),
            granularity_minutes >= 1,
        ensures
            suggestion_matches(
                courses@,
                busy@,
                window_start.spec_minutes(),
                window_end.spec_minutes(),
                granularity_minutes as int,
                day_order@,
                r,
            ),
            r matches Ok(slots) ==> (forall|j: int, k: int|
                0 <= j < k < slots@.len() ==> !spec_conflicts(
                    #[trigger] slots@[j].interval,
                    #[trigger] slots@[k].interval,
                )) && (forall|j: int, b: int|
                0 <= j < slots@.len() && 0 <= b < busy@.len() ==> !spec_conflicts(
                    #[trigger] slots@[j].interval,
                    #[trigger] busy@[b],
                )) && (forall|j: int| 0 <= j < slots@.len() ==> (#[trigger] slots@[j]).interval.wf()),
    {
        let ws: u16 = window_start.minutes();
        let we: u16 = window_end.minutes();
        let ghost wsi = ws as int;
        let ghost wei = we as int;
        let ghost g = granularity_minutes as int;
        let ghost order = day_order@;
        if courses.len() == 0 {
            return Err(SchedulingError::NoCoursesFound);
        }
        let win_len: u16 = we - ws;
        // Up-front duration validation: the scan is skipped entirely when a
        // course cannot fit the window.
        let mut ci: usize = 0;
        while ci < courses.len()
            invariant
                ci <= courses.len(),
                wsi == ws as int,
                wei == we as int,
                wsi == window_start.spec_minutes(),
                wei == window_end.spec_minutes(),
                g == granularity_minutes as int,
                order == day_order@,
                ws <= we,
                win_len == we - ws,
                forall|j: int|
                    0 <= j < ci ==> spec_valid_duration(#[trigger] courses@[j], wsi, wei),
            decreases courses.len() - ci,
        {
            let h = courses[ci].hours_per_week;
            if h < 1 || h > (win_len / 60) as u32 {
                proof {
                    assert(!spec_valid_duration(courses@[ci as int], wsi, wei));
                    lemma_first_invalid_at(courses@, wsi, wei, ci as int);
                }
                return Err(SchedulingError::InvalidDuration(courses[ci].id.clone()));
            }
            ci += 1;
        }
        proof {
            lemma_first_invalid_at(courses@, wsi, wei, courses@.len() as int);
        }
        // Greedy pass: one course at a time, in input order, against the
        // working busy set.
        let mut working: Vec<Interval> = copy_intervals(busy);
        let mut slots: Vec<ScheduleSlot> = Vec::new();
        let mut unresolved: Vec<String> = Vec::new();
        let ghost asn = spec_assign_from(courses@, 0, busy@, wsi, wei, g, order);
        proof {
            lemma_assign_from_len(courses@, 0, busy@, wsi, wei, g, order);
            assert(asn.skip(0) =~= asn);
        }
        let mut i: usize = 0;
        while i < courses.len()
            invariant
                i <= courses.len(),
                wsi == ws as int,
                wei == we as int,
                ws <= we < 1440,
                g == granularity_minutes as int,
                granularity_minutes >= 1,
                order == day_order@,
                asn == spec_assign_from(courses@, 0, busy@, wsi, wei, g, order),
                asn.len() == courses@.len(),
                forall|j: int| 0 <= j < courses@.len() ==> spec_valid_duration(
                    #[trigger] courses@[j],
                    wsi,
                    wei,
                ),
                spec_assign_from(courses@, i as int, working@, wsi, wei, g, order) == asn.skip(
                    i as int,
                ),
                slots@.len() + unresolved@.len() == i as int,
                (forall|j: int| 0 <= j < i ==> #[trigger] asn[j] is Some) <==> unresolved@.len()
                    == 0,
                unresolved@.map_values(|s: String| s@) == spec_unresolved_upto(
                    courses@,
                    asn,
                    i as int,
                ),
                unresolved@.len() == 0 ==> slots@.len() == i as int && (forall|j: int|
                    0 <= j < i ==> spec_slot_matches(#[trigger] slots@[j], courses@[j], asn[j])),
                working@ == busy@ + slots@.map_values(|s: ScheduleSlot| s.interval),
                forall|j: int, k: int|
                    0 <= j < k < slots@.len() ==> !spec_conflicts(
                        #[trigger] slots@[j].interval,
                        #[trigger] slots@[k].interval,
                    ),
                forall|j: int, b: int|
                    0 <= j < slots@.len() && 0 <= b < busy@.len() ==> !spec_conflicts(
                        #[trigger] slots@[j].interval,
                        #[trigger] busy@[b],
                    ),
                forall|j: int| 0 <= j < slots@.len() ==> (#[trigger] slots@[j]).interval.wf(),
            decreases courses.len() - i,
        {
            let h = courses[i].hours_per_week;
            proof {
                assert(spec_valid_duration(courses@[i as int], wsi, wei));
                assert(h * 60 <= wei - wsi);
            }
            let dur: u16 = (h * 60) as u16;
            let fit = first_fit(day_order, dur, &working, ws, we, granularity_minutes);
            proof {
                assert(dur as int == spec_duration(courses@[i as int]));
                assert(asn.skip(i as int)[0] == asn[i as int]);
            }
            match fit {
                Some(iv) => {
                    let slot = ScheduleSlot {
                        id: String::new(),
                        course_id: courses[i].id.clone(),
                        facility_id: String::new(),
                        session_type: SessionType::Theory,
                        interval: iv,
                    };
                    proof {
                        let tail = spec_assign_from(
                            courses@,
                            i as int + 1,
                            working@.push(iv),
                            wsi,
                            wei,
                            g,
                            order,
                        );
                        assert(asn.skip(i as int) == seq![Some(iv)] + tail);
                        assert(asn[i as int] == Some(iv));
                        assert((seq![Some(iv)] + tail).drop_first() =~= tail);
                        assert(asn.skip(i as int).drop_first() =~= asn.skip(i as int + 1));
                        assert((slots@.push(slot)).map_values(|s: ScheduleSlot| s.interval)
                            =~= slots@.map_values(|s: ScheduleSlot| s.interval).push(iv));
                        assert(busy@ + slots@.map_values(|s: ScheduleSlot| s.interval).push(iv)
                            =~= (busy@ + slots@.map_values(|s: ScheduleSlot| s.interval)).push(
                            iv,
                        ));
                        assert forall|b: int| 0 <= b < busy@.len() implies !spec_conflicts(
                            iv,
                            #[trigger] busy@[b],
                        ) by {
                            assert(working@[b] == busy@[b]);
                            if spec_conflicts(iv, busy@[b]) {
                                assert(spec_conflicts(iv, working@[b]));
                                assert(spec_conflicts_with_any(iv, working@));
                            }
                        }
                        assert forall|j: int| 0 <= j < slots@.len() implies !spec_conflicts(
                            iv,
                            (#[trigger] slots@[j]).interval,
                        ) by {
                            let idx = busy@.len() + j;
                            assert(working@[idx] == slots@.map_values(
                                |s: ScheduleSlot| s.interval,
                            )[j]);
                            assert(slots@.map_values(|s: ScheduleSlot| s.interval)[j]
                                == slots@[j].interval);
                            if spec_conflicts(iv, slots@[j].interval) {
                                assert(spec_conflicts(iv, working@[idx]));
                                assert(spec_conflicts_with_any(iv, working@));
                            }
                        }
                    }
                    slots.push(slot);
                    working.push(iv);
                },
                None => {
                    proof {
                        let tail = spec_assign_from(
                            courses@,
                            i as int + 1,
                            working@,
                            wsi,
                            wei,
                            g,
                            order,
                        );
                        assert(asn.skip(i as int) == seq![Option::<Interval>::None] + tail);
                        assert(asn[i as int] is None);
                        assert((seq![Option::<Interval>::None] + tail).drop_first() =~= tail);
                        assert(asn.skip(i as int).drop_first() =~= asn.skip(i as int + 1));
                        assert((unresolved@.push(courses@[i as int].id)).map_values(
                            |s: String| s@,
                        ) =~= unresolved@.map_values(|s: String| s@).push(
                            courses@[i as int].id@,
                        ));
                    }
                    unresolved.push(courses[i].id.clone());
                },
            }
            i += 1;
        }
        if unresolved.len() == 0 {
            proof {
                assert(spec_all_assigned(asn));
            }
            Ok(slots)
        } else {
            proof {
                assert(!spec_all_assigned(asn));
            }
            Err(SchedulingError::InsufficientSlots(unresolved))
        }
    }

    /// Propose one weekly slot per course. The days Monday through
    /// Saturday are tried in a permuted order: with `Some(seed)` the
    /// permutation is drawn deterministically from the seed, with `None`
    /// from the thread's entropy source. The permutation only decides
    /// which free day is tried first; on any order the result carries one
    /// slot per course, pairwise non-conflicting and non-conflicting with
    /// the given busy set.
    #[allow(unused_variables)]
    pub fn suggest_available_time(
        &self,
        teacher_id: &str,
        courses: &Vec<Course>,
        busy: &Vec<Interval>,
        window_start: TimeOfDay,
        window_end: TimeOfDay,
        granularity_minutes: u32,
        day_order_seed: Option<u64>,
    ) -> (r: Result<Vec<ScheduleSlot>, SchedulingError>)
        requires
            window_start.wf(),
            window_end.wf(),
            window_start.spec_minutes() <= window_end.spec_minutes(),
            granularity_minutes >= 1,
        ensures
            day_order_seed matches Some(seed) ==> suggestion_matches(
                courses@,
                busy@,
                window_start.spec_minutes(),
                window_end.spec_minutes(),
                granularity_minutes as int,
                spec_seeded_day_order(seed),
                r,
            ),
            exists|order: Seq<Weekday>|
                order.to_multiset() == spec_working_days().to_multiset() && suggestion_matches(
                    courses@,
                    busy@,
                    window_start.spec_minutes(),
                    window_end.spec_minutes(),
                    granularity_minutes as int,
                    order,
                    r,
                ),
            r matches Ok(slots) ==> (forall|j: int, k: int|
                0 <= j < k < slots@.len() ==> !spec_conflicts(
                    #[trigger] slots@[j].interval,
                    #[trigger] slots@[k].interval,
                )) && (forall|j: int, b: int|
                0 <= j < slots@.len() && 0 <= b < busy@.len() ==> !spec_conflicts(
                    #[trigger] slots@[j].interval,
                    #[trigger] busy@[b],
                )) && (forall|j: int| 0 <= j < slots@.len() ==> (#[trigger] slots@[j]).interval.wf()),
    {
        let order: Vec<Weekday> = match day_order_seed {
            Some(seed) => seeded_day_order(seed),
            None => {
                let mut days = working_days();
                shuffle_days(&mut days);
                days
            },
        };
        self.suggest_with_day_order(
            teacher_id,
            courses,
            busy,
            window_start,
            window_end,
            granularity_minutes,
            &order,
        )
    }

    /// A schedule is valid against a busy set exactly when it conflicts
    /// with none of its slots.
    pub fn validate_schedule(&self, busy: &Vec<ScheduleSlot>, schedule: &ScheduleSlot) -> (r: bool)
        ensures
            r == (forall|j: int|
                0 <= j < busy@.len() ==> !spec_conflicts(
                    (#[trigger] busy@[j]).interval,
                    schedule.interval,
                )),
    {
        let mut k: usize = 0;
        while k < busy.len()
            invariant
                k <= busy.len(),
                forall|j: int|
                    0 <= j < k ==> !spec_conflicts(
                        (#[trigger] busy@[j]).interval,
                        schedule.interval,
                    ),
            decreases busy.len() - k,
        {
            if busy[k].interval.conflicts_with(&schedule.interval) {
                return false;
            }
            k += 1;
        }
        true
    }
}

} // verus!
