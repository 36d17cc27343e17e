//! Data model of the scheduling core: weekdays, times of day, day-scoped
//! half-open intervals, and the record types that travel through the
//! suggester and the availability calculator.

use vstd::prelude::*;

verus! {

/// A day of the week; the cyclic ordinal set used for day comparison and
/// for the iteration order of the availability calculator.
#[derive(Clone, Copy, Debug, PartialEq, Eq, Structural, Hash)]
pub enum Weekday {
    Monday,
    Tuesday,
    Wednesday,
    Thursday,
    Friday,
    Saturday,
    Sunday,
}

impl Weekday {
    /// Ordinal position of the day, Monday first.
    pub open spec fn ordinal(self) -> int {
        match self {
            Weekday::Monday => 0,
            Weekday::Tuesday => 1,
            Weekday::Wednesday => 2,
            Weekday::Thursday => 3,
            Weekday::Friday => 4,
            Weekday::Saturday => 5,
            Weekday::Sunday => 6,
        }
    }

    /// Runtime counterpart of `ordinal`.
    pub fn index(&self) -> (r: u8)
        ensures
            r as int == self.ordinal(),
    {
        match self {
            Weekday::Monday => 0,
            Weekday::Tuesday => 1,
            Weekday::Wednesday => 2,
            Weekday::Thursday => 3,
            Weekday::Friday => 4,
            Weekday::Saturday => 5,
            Weekday::Sunday => 6,
        }
    }

    /// The day at a given ordinal position, Monday first.
    pub open spec fn spec_from_ordinal(i: int) -> Weekday {
        if i == 0 {
            Weekday::Monday
        } else if i == 1 {
            Weekday::Tuesday
        } else if i == 2 {
            Weekday::Wednesday
        } else if i == 3 {
            Weekday::Thursday
        } else if i == 4 {
            Weekday::Friday
        } else if i == 5 {
            Weekday::Saturday
        } else {
            Weekday::Sunday
        }
    }

    /// Runtime counterpart of `spec_from_ordinal`.
    pub fn from_ordinal(i: u8) -> (r: Weekday)
        ensures
            r == Weekday::spec_from_ordinal(i as int),
    {
        if i == 0 {
            Weekday::Monday
        } else if i == 1 {
            Weekday::Tuesday
        } else if i == 2 {
            Weekday::Wednesday
        } else if i == 3 {
            Weekday::Thursday
        } else if i == 4 {
            Weekday::Friday
        } else if i == 5 {
            Weekday::Saturday
        } else {
            Weekday::Sunday
        }
    }
}

/// A wall-clock time of day with minute precision, totally ordered by its
/// distance in minutes from midnight.
#[derive(Clone, Copy, Debug, PartialEq, Eq, Structural, Hash)]
pub struct TimeOfDay {
    pub hour: u8,
    pub minute: u8,
}

impl TimeOfDay {
    /// A well-formed time has an hour below 24 and a minute below 60.
    pub open spec fn wf(self) -> bool {
        self.hour < 24 && self.minute < 60
    }

    /// Minutes since midnight; the ordering key of a time of day.
    pub open spec fn spec_minutes(self) -> int {
        self.hour * 60 + self.minute
    }

    /// Construct a time of day; `None` when the pair is out of range.
    pub fn new(hour: u8, minute: u8) -> (r: Option<TimeOfDay>)
        ensures
            match r {
                Some(t) => t.wf() && t.hour == hour && t.minute == minute,
                None => !(hour < 24 && minute < 60),
            },
    {
        if hour < 24 && minute < 60 {
            Some(TimeOfDay { hour, minute })
        } else {
            None
        }
    }

    /// Runtime counterpart of `spec_minutes`.
    pub fn minutes(&self) -> (r: u16)
        ensures
            r as int == self.spec_minutes(),
    {
        self.hour as u16 * 60 + self.minute as u16
    }

    /// The time of day that lies `m` minutes after midnight.
    pub open spec fn spec_from_minutes(m: int) -> TimeOfDay {
        TimeOfDay { hour: (m / 60) as u8, minute: (m % 60) as u8 }
    }

    /// Runtime counterpart of `spec_from_minutes`.
    pub fn from_minutes(m: u16) -> (r: TimeOfDay)
        requires
            m < 1440,
        ensures
            r == TimeOfDay::spec_from_minutes(m as int),
            r.wf(),
            r.spec_minutes() == m as int,
    {
        TimeOfDay { hour: (m / 60) as u8, minute: (m % 60) as u8 }
    }
}

/// The one way constructing an interval can fail: an empty or backwards
/// time range, or a time outside the clock.
#[derive(Clone, Copy, Debug, PartialEq, Eq, Structural)]
pub enum IntervalError {
    InvalidInterval,
}

/// A day-scoped half-open time range `[start, end)`. Well-formed intervals
/// satisfy `start < end`; zero-length and backwards ranges are rejected by
/// the constructor.
#[derive(Clone, Copy, Debug, PartialEq, Eq, Structural, Hash)]
pub struct Interval {
    pub day: Weekday,
    pub start: TimeOfDay,
    pub end: TimeOfDay,
}

impl Interval {
    /// Well-formedness: both times on the clock, and a strictly positive
    /// length.
    pub open spec fn wf(self) -> bool {
        self.start.wf() && self.end.wf() && self.start.spec_minutes() < self.end.spec_minutes()
    }

    /// Construct an interval, rejecting ill-formed ranges.
    pub fn new(day: Weekday, start: TimeOfDay, end: TimeOfDay) -> (r: Result<
        Interval,
        IntervalError,
    >)
        ensures
            match r {
                Ok(iv) => iv.wf() && iv.day == day && iv.start == start && iv.end == end,
                Err(e) => e == IntervalError::InvalidInterval && !(Interval {
                    day,
                    start,
                    end,
                }).wf(),
            },
    {
        let iv = Interval { day, start, end };
        if start.hour < 24 && start.minute < 60 && end.hour < 24 && end.minute < 60
            && start.minutes() < end.minutes() {
            Ok(iv)
        } else {
            Err(IntervalError::InvalidInterval)
        }
    }

    /// Ordering key `(day, start)` as a lexicographic comparison, used for
    /// deterministic iteration over interval collections.
    pub open spec fn spec_precedes(self, other: Interval) -> bool {
        self.day.ordinal() < other.day.ordinal() || (self.day.ordinal() == other.day.ordinal()
            && self.start.spec_minutes() < other.start.spec_minutes())
    }

    /// Runtime counterpart of `spec_precedes`.
    pub fn precedes(&self, other: &Interval) -> (r: bool)
        ensures
            r == self.spec_precedes(*other),
    {
        let sd = self.day.index();
        let od = other.day.index();
        sd < od || (sd == od && self.start.minutes() < other.start.minutes())
    }
}

/// Kind of session a proposed slot holds.
#[derive(Clone, Copy, Debug, PartialEq, Eq, Structural)]
pub enum SessionType {
    Theory,
    Practice,
    Laboratory,
}

/// A course to be scheduled. `hours_per_week` drives the requested slot
/// duration: the suggester asks for one weekly slot of
/// `hours_per_week * 60` minutes.
#[derive(Clone, Debug, PartialEq, Eq)]
pub struct Course {
    pub id: String,
    pub teacher_id: String,
    pub hours_per_week: u32,
}

/// An interval committed to (or proposed for) a course: an interval plus
/// the identifiers the repository layer cares about. The core treats
/// instances as immutable value snapshots.
#[derive(Clone, Debug, PartialEq, Eq)]
pub struct ScheduleSlot {
    pub id: String,
    pub course_id: String,
    pub facility_id: String,
    pub session_type: SessionType,
    pub interval: Interval,
}

/// A teaching or studying contract, present on teacher accounts.
#[derive(Clone, Copy, Debug, PartialEq, Eq, Structural)]
pub enum ContractType {
    FullTime,
    PartTime,
}

/// Academic standing of a student account.
#[derive(Clone, Copy, Debug, PartialEq, Eq, Structural)]
pub enum StudentStatus {
    Active,
    Inactive,
    Graduated,
}

/// State of a student's enrollment in a course.
#[derive(Clone, Copy, Debug, PartialEq, Eq, Structural)]
pub enum EnrollmentStatus {
    Active,
    Completed,
    Dropped,
}

/// A user account: teachers carry a contract, students a student status.
#[derive(Clone, Debug, PartialEq, Eq)]
pub struct User {
    pub id: String,
    pub code: String,
    pub email: Option<String>,
    pub phone: Option<String>,
    pub faculty: String,
    pub program: String,
    pub specialty: String,
    pub role: String,
    pub student_status: Option<StudentStatus>,
    pub admission_date: Option<String>,
    pub contract_type: Option<ContractType>,
    pub max_hours_per_week: Option<i32>,
    pub hire_date: Option<String>,
    pub full_name: String,
}

impl User {
    /// A user is a teacher exactly when a contract is on file.
    pub fn is_teacher(&self) -> (r: bool)
        ensures
            r == self.contract_type is Some,
    {
        self.contract_type.is_some()
    }
}

/// A student's membership in a course.
#[derive(Clone, Debug, PartialEq, Eq)]
pub struct Enrollment {
    pub id: String,
    pub student_id: String,
    pub course_id: String,
    pub status: EnrollmentStatus,
}

/// A room or other bookable resource whose occupied intervals the
/// availability calculator consumes.
#[derive(Clone, Debug, PartialEq, Eq)]
pub struct Facility {
    pub id: String,
    pub name: String,
    pub capacity: i32,
    pub facility_type: String,
}

/// Derived availability of one facility on one day: the ordered free
/// hour ranges left between its occupied intervals. Never persisted;
/// recomputed on demand.
#[derive(Clone, Debug, PartialEq, Eq)]
pub struct FacilityAvailable {
    pub id: String,
    pub name: String,
    pub capacity: i32,
    pub facility_type: String,
    pub day: Weekday,
    pub hours_range: Vec<(u32, u32)>,
}

} // verus!
