//! Conflict detection between day-scoped time intervals: the sole primitive
//! that both the slot suggester and the availability calculator build on.

use vstd::prelude::*;

use crate::model::Interval;

verus! {

/// Two intervals conflict exactly when they fall on the same day and their
/// half-open time ranges overlap. Ranges that merely touch (`a.end ==
/// b.start`) do not overlap.
pub open spec fn spec_conflicts(a: Interval, b: Interval) -> bool {
    a.day == b.day && !(a.end.spec_minutes() <= b.start.spec_minutes()
        || b.end.spec_minutes() <= a.start.spec_minutes())
}

/// Some interval of `busy` conflicts with `iv`.
pub open spec fn spec_conflicts_with_any(iv: Interval, busy: Seq<Interval>) -> bool {
    exists|i: int| 0 <= i < busy.len() && spec_conflicts(iv, busy[i])
}

impl Interval {
    /// Decide whether this interval conflicts with another.
    pub fn conflicts_with(&self, other: &Interval) -> (r: bool)
        ensures
            r == spec_conflicts(*self, *other),
    {
        self.day == other.day && !(self.end.minutes() <= other.start.minutes()
            || other.end.minutes() <= self.start.minutes())
    }
}

/// Decide whether `iv` conflicts with any interval of `busy`.
pub fn conflicts_with_any(iv: &Interval, busy: &Vec<Interval>) -> (r: bool)
    ensures
        r == spec_conflicts_with_any(*iv, busy@),
{
    let mut k: usize = 0;
    while k < busy.len()
        invariant
            k <= busy.len(),
            forall|i: int| 0 <= i < k ==> !spec_conflicts(*iv, busy@[i]),
        decreases busy.len() - k,
    {
        if iv.conflicts_with(&busy[k]) {
            return true;
        }
        k += 1;
    }
    false
}

/// Conflict is symmetric: the order of the two intervals never matters.
pub proof fn lemma_conflicts_symmetric(a: Interval, b: Interval)
    ensures
        spec_conflicts(a, b) == spec_conflicts(b, a),
{
}

/// Intervals on different days never conflict.
pub proof fn lemma_conflicts_different_day(a: Interval, b: Interval)
    requires
        a.day != b.day,
    ensures
        !spec_conflicts(a, b),
{
}

/// Half-open boundary: intervals that merely touch do not conflict.
pub proof fn lemma_conflicts_touching(a: Interval, b: Interval)
    requires
        a.end.spec_minutes() == b.start.spec_minutes() || b.end.spec_minutes()
            == a.start.spec_minutes(),
    ensures
        !spec_conflicts(a, b),
{
}

/// Every well-formed interval conflicts with itself.
pub proof fn lemma_conflicts_reflexive(a: Interval)
    requires
        a.wf(),
    ensures
        spec_conflicts(a, a),
{
}

} // verus!
