use teacher_system::model::Interval;
use teacher_system::model::IntervalError;
use teacher_system::model::TimeOfDay;
use teacher_system::model::Weekday;

fn t(hour: u8, minute: u8) -> TimeOfDay {
    TimeOfDay::new(hour, minute).unwrap()
}

fn iv(day: Weekday, sh: u8, sm: u8, eh: u8, em: u8) -> Interval {
    Interval::new(day, t(sh, sm), t(eh, em)).unwrap()
}

#[test]
fn overlapping_same_day_conflicts() {
    let a = iv(Weekday::Monday, 9, 0, 11, 0);
    let b = iv(Weekday::Monday, 10, 0, 12, 0);
    assert!(a.conflicts_with(&b));
    assert!(b.conflicts_with(&a));
}

#[test]
fn conflict_is_symmetric() {
    let cases = [
        (iv(Weekday::Monday, 8, 0, 9, 30), iv(Weekday::Monday, 9, 0, 10, 0)),
        (iv(Weekday::Tuesday, 8, 0, 9, 0), iv(Weekday::Tuesday, 14, 0, 15, 0)),
        (iv(Weekday::Friday, 8, 0, 22, 0), iv(Weekday::Saturday, 8, 0, 22, 0)),
    ];
    for (a, b) in cases {
        assert_eq!(a.conflicts_with(&b), b.conflicts_with(&a));
    }
}

#[test]
fn different_days_never_conflict() {
    let a = iv(Weekday::Monday, 9, 0, 11, 0);
    let b = iv(Weekday::Tuesday, 9, 0, 11, 0);
    assert!(!a.conflicts_with(&b));
    assert!(!b.conflicts_with(&a));
}

#[test]
fn touching_intervals_do_not_conflict() {
    let a = iv(Weekday::Monday, 9, 0, 11, 0);
    let b = iv(Weekday::Monday, 11, 0, 13, 0);
    assert!(!a.conflicts_with(&b));
    assert!(!b.conflicts_with(&a));
}

#[test]
fn interval_conflicts_with_itself() {
    let a = iv(Weekday::Wednesday, 9, 15, 10, 45);
    assert!(a.conflicts_with(&a));
}

#[test]
fn empty_interval_is_rejected() {
    let r = Interval::new(Weekday::Monday, t(9, 0), t(9, 0));
    assert_eq!(r, Err(IntervalError::InvalidInterval));
}

#[test]
fn backwards_interval_is_rejected() {
    let r = Interval::new(Weekday::Monday, t(11, 0), t(9, 0));
    assert_eq!(r, Err(IntervalError::InvalidInterval));
}

#[test]
fn out_of_range_time_is_rejected() {
    assert!(TimeOfDay::new(24, 0).is_none());
    assert!(TimeOfDay::new(8, 60).is_none());
    assert!(TimeOfDay::new(23, 59).is_some());
}

#[test]
fn intervals_order_by_day_then_start() {
    let mon_early = iv(Weekday::Monday, 8, 0, 9, 0);
    let mon_late = iv(Weekday::Monday, 10, 0, 11, 0);
    let tue = iv(Weekday::Tuesday, 8, 0, 9, 0);
    assert!(mon_early.precedes(&mon_late));
    assert!(mon_late.precedes(&tue));
    assert!(!tue.precedes(&mon_early));
    assert!(!mon_early.precedes(&mon_early));
}
