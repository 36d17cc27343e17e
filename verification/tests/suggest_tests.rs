use teacher_system::errors::SchedulingError;
use teacher_system::model::Course;
use teacher_system::model::Interval;
use teacher_system::model::ScheduleSlot;
use teacher_system::model::SessionType;
use teacher_system::model::TimeOfDay;
use teacher_system::model::Weekday;
use teacher_system::scheduling::seeded_day_order;
use teacher_system::scheduling::working_days;
use teacher_system::scheduling::DefaultSchedulingService;

fn t(hour: u8, minute: u8) -> TimeOfDay {
    TimeOfDay::new(hour, minute).unwrap()
}

fn iv(day: Weekday, sh: u8, sm: u8, eh: u8, em: u8) -> Interval {
    Interval::new(day, t(sh, sm), t(eh, em)).unwrap()
}

fn course(id: &str, hours: u32) -> Course {
    Course {
        id: id.to_string(),
        teacher_id: "teacher-1".to_string(),
        hours_per_week: hours,
    }
}

fn monday_first() -> Vec<Weekday> {
    vec![
        Weekday::Monday,
        Weekday::Tuesday,
        Weekday::Wednesday,
        Weekday::Thursday,
        Weekday::Friday,
        Weekday::Saturday,
    ]
}

fn duration_minutes(slot: &ScheduleSlot) -> u32 {
    let s = slot.interval.start.hour as u32 * 60 + slot.interval.start.minute as u32;
    let e = slot.interval.end.hour as u32 * 60 + slot.interval.end.minute as u32;
    e - s
}

#[test]
fn one_course_empty_busy_gets_first_candidate() {
    let service = DefaultSchedulingService::new();
    let courses = vec![course("c1", 2)];
    let busy: Vec<Interval> = vec![];
    let r = service
        .suggest_with_day_order(
            "teacher-1",
            &courses,
            &busy,
            t(8, 0),
            t(22, 0),
            30,
            &monday_first(),
        )
        .unwrap();
    assert_eq!(r.len(), 1);
    assert_eq!(r[0].interval.day, Weekday::Monday);
    assert_eq!(r[0].interval.start, t(8, 0));
    assert_eq!(r[0].interval.end, t(10, 0));
    assert_eq!(duration_minutes(&r[0]), 120);
    assert_eq!(r[0].course_id, "c1".to_string());
    assert_eq!(r[0].session_type, SessionType::Theory);
}

#[test]
fn two_courses_land_on_the_free_saturday() {
    let service = DefaultSchedulingService::new();
    let courses = vec![course("c1", 4), course("c2", 4)];
    let mut busy: Vec<Interval> = vec![];
    for day in [
        Weekday::Monday,
        Weekday::Tuesday,
        Weekday::Wednesday,
        Weekday::Thursday,
        Weekday::Friday,
    ] {
        busy.push(iv(day, 0, 0, 23, 59));
    }
    let r = service
        .suggest_with_day_order(
            "teacher-1",
            &courses,
            &busy,
            t(8, 0),
            t(22, 0),
            30,
            &monday_first(),
        )
        .unwrap();
    assert_eq!(r.len(), 2);
    assert_eq!(r[0].interval, iv(Weekday::Saturday, 8, 0, 12, 0));
    assert_eq!(r[1].interval, iv(Weekday::Saturday, 12, 0, 16, 0));
    assert!(!r[0].interval.conflicts_with(&r[1].interval));
}

#[test]
fn oversized_course_is_invalid_duration() {
    let service = DefaultSchedulingService::new();
    let courses = vec![course("c1", 15)];
    let busy: Vec<Interval> = vec![];
    let r = service.suggest_with_day_order(
        "teacher-1",
        &courses,
        &busy,
        t(8, 0),
        t(22, 0),
        30,
        &monday_first(),
    );
    assert_eq!(r, Err(SchedulingError::InvalidDuration("c1".to_string())));
}

#[test]
fn zero_hour_course_is_invalid_duration() {
    let service = DefaultSchedulingService::new();
    let courses = vec![course("c1", 0)];
    let busy: Vec<Interval> = vec![];
    let r = service.suggest_with_day_order(
        "teacher-1",
        &courses,
        &busy,
        t(8, 0),
        t(22, 0),
        30,
        &monday_first(),
    );
    assert_eq!(r, Err(SchedulingError::InvalidDuration("c1".to_string())));
}

#[test]
fn no_courses_is_reported() {
    let service = DefaultSchedulingService::new();
    let courses: Vec<Course> = vec![];
    let busy: Vec<Interval> = vec![];
    let r = service.suggest_with_day_order(
        "teacher-1",
        &courses,
        &busy,
        t(8, 0),
        t(22, 0),
        30,
        &monday_first(),
    );
    assert_eq!(r, Err(SchedulingError::NoCoursesFound));
}

#[test]
fn fully_booked_week_is_insufficient_slots() {
    let service = DefaultSchedulingService::new();
    let courses = vec![course("c1", 2), course("c2", 2)];
    let mut busy: Vec<Interval> = vec![];
    for day in monday_first() {
        busy.push(iv(day, 0, 0, 23, 59));
    }
    let r = service.suggest_with_day_order(
        "teacher-1",
        &courses,
        &busy,
        t(8, 0),
        t(22, 0),
        30,
        &monday_first(),
    );
    assert_eq!(
        r,
        Err(SchedulingError::InsufficientSlots(vec![
            "c1".to_string(),
            "c2".to_string(),
        ]))
    );
}

#[test]
fn output_follows_course_order_and_avoids_busy() {
    let service = DefaultSchedulingService::new();
    let courses = vec![course("c1", 1), course("c2", 1), course("c3", 1)];
    let busy = vec![iv(Weekday::Monday, 8, 0, 9, 0)];
    let r = service
        .suggest_with_day_order(
            "teacher-1",
            &courses,
            &busy,
            t(8, 0),
            t(22, 0),
            30,
            &monday_first(),
        )
        .unwrap();
    assert_eq!(r.len(), 3);
    assert_eq!(r[0].course_id, "c1".to_string());
    assert_eq!(r[1].course_id, "c2".to_string());
    assert_eq!(r[2].course_id, "c3".to_string());
    for slot in &r {
        for b in &busy {
            assert!(!slot.interval.conflicts_with(b));
        }
    }
    for i in 0..r.len() {
        for j in i + 1..r.len() {
            assert!(!r[i].interval.conflicts_with(&r[j].interval));
        }
    }
    // The first slot dodges the 8:00-9:00 busy hour; the rest pack after it.
    assert_eq!(r[0].interval, iv(Weekday::Monday, 9, 0, 10, 0));
    assert_eq!(r[1].interval, iv(Weekday::Monday, 10, 0, 11, 0));
    assert_eq!(r[2].interval, iv(Weekday::Monday, 11, 0, 12, 0));
}

#[test]
fn same_seed_gives_identical_output() {
    let service = DefaultSchedulingService::new();
    let courses = vec![course("c1", 2), course("c2", 3)];
    let busy = vec![iv(Weekday::Monday, 8, 0, 12, 0)];
    let r1 = service.suggest_available_time(
        "teacher-1",
        &courses,
        &busy,
        t(8, 0),
        t(22, 0),
        30,
        Some(42),
    );
    let r2 = service.suggest_available_time(
        "teacher-1",
        &courses,
        &busy,
        t(8, 0),
        t(22, 0),
        30,
        Some(42),
    );
    assert_eq!(r1, r2);
    let slots = r1.unwrap();
    assert_eq!(slots.len(), 2);
}

#[test]
fn entropy_order_still_yields_valid_slots() {
    let service = DefaultSchedulingService::new();
    let courses = vec![course("c1", 2)];
    let busy: Vec<Interval> = vec![];
    let r = service
        .suggest_available_time("teacher-1", &courses, &busy, t(8, 0), t(22, 0), 30, None)
        .unwrap();
    assert_eq!(r.len(), 1);
    assert_eq!(duration_minutes(&r[0]), 120);
    assert_eq!(r[0].course_id, "c1".to_string());
    assert_ne!(r[0].interval.day, Weekday::Sunday);
}

#[test]
fn seeded_day_order_is_a_permutation_and_repeatable() {
    let o1 = seeded_day_order(7);
    let o2 = seeded_day_order(7);
    assert_eq!(o1, o2);
    assert_eq!(o1.len(), 6);
    for day in working_days() {
        assert!(o1.contains(&day));
    }
}

#[test]
fn validate_schedule_flags_conflicts() {
    let service = DefaultSchedulingService::new();
    let slot = |day, sh, eh| ScheduleSlot {
        id: "s".to_string(),
        course_id: "c1".to_string(),
        facility_id: "f1".to_string(),
        session_type: SessionType::Theory,
        interval: iv(day, sh, 0, eh, 0),
    };
    let busy = vec![slot(Weekday::Monday, 9, 11), slot(Weekday::Tuesday, 9, 11)];
    let clashing = slot(Weekday::Monday, 10, 12);
    let clear = slot(Weekday::Monday, 11, 13);
    assert!(!service.validate_schedule(&busy, &clashing));
    assert!(service.validate_schedule(&busy, &clear));
}
