use chrono::NaiveDate;
use opensase_scheduling::domain::aggregates::{Booking, EventType};
use opensase_scheduling::domain::conflicts::BookingPolicy;
use opensase_scheduling::domain::value_objects::{
    Availability, AvailabilitySchedule, CalendarDate, DateOverride, TimeSlot, Weekday,
};
use opensase_scheduling::{BookingLimits, SchedulingError};

fn on(year: i32, month: u32, day: u32) -> CalendarDate {
    let epoch = NaiveDate::from_ymd_opt(1970, 1, 1).unwrap();
    let date = NaiveDate::from_ymd_opt(year, month, day).unwrap();
    CalendarDate::new(date.signed_duration_since(epoch).num_days() as i32)
}

fn time(year: i32, month: u32, day: u32, hour: u32, minute: u32) -> i64 {
    NaiveDate::from_ymd_opt(year, month, day)
        .unwrap()
        .and_hms_opt(hour, minute, 0)
        .unwrap()
        .and_utc()
        .timestamp()
}

fn mondays_nine_to_five(date_overrides: Vec<DateOverride>) -> AvailabilitySchedule {
    AvailabilitySchedule {
        timezone: "UTC".to_string(),
        rules: vec![Availability { weekday: Weekday::Mon, start_time: 9 * 3_600, end_time: 17 * 3_600 }],
        date_overrides,
    }
}

fn half_hours(schedule: AvailabilitySchedule) -> EventType {
    let mut event_type = EventType::create_with("evt_1".to_string(), 0, "Intro call", 30, "host_1");
    event_type.set_availability(schedule);
    event_type
}

fn taken(id: &str, slot: TimeSlot) -> Booking {
    Booking::create_at(
        id.to_string(),
        0,
        "evt_1",
        "host_1",
        "guest@example.com",
        "Guest",
        slot,
        &Vec::new(),
        &BookingPolicy::default(),
    )
    .unwrap()
}

#[test]
fn a_monday_from_nine_to_five_holds_sixteen_half_hours() {
    let event_type = half_hours(mondays_nine_to_five(vec![]));
    let slots = event_type.candidate_slots(on(2024, 1, 15)).unwrap();
    assert_eq!(slots.len(), 16);
    assert_eq!(slots[0], TimeSlot::new(time(2024, 1, 15, 9, 0), time(2024, 1, 15, 9, 30)));
    assert_eq!(slots[15], TimeSlot::new(time(2024, 1, 15, 16, 30), time(2024, 1, 15, 17, 0)));
    let free = event_type
        .available_slots(on(2024, 1, 15), &Vec::new(), BookingLimits::default(), time(2024, 1, 1, 0, 0))
        .unwrap();
    assert_eq!(free, slots);
}

#[test]
fn an_unavailable_monday_lists_nothing() {
    let closed = DateOverride { date: on(2024, 1, 15), available: false, slots: None };
    let event_type = half_hours(mondays_nine_to_five(vec![closed]));
    assert_eq!(event_type.candidate_slots(on(2024, 1, 15)).unwrap(), vec![]);
    let free = event_type
        .available_slots(on(2024, 1, 15), &Vec::new(), BookingLimits::default(), time(2024, 1, 1, 0, 0))
        .unwrap();
    assert_eq!(free, vec![]);
    let listed = event_type
        .list_slots(on(2024, 1, 15), &Vec::new(), BookingLimits::default(), time(2024, 1, 1, 0, 0))
        .unwrap();
    assert_eq!(listed, vec![]);
    // The Monday after is open as ever.
    assert_eq!(event_type.candidate_slots(on(2024, 1, 22)).unwrap().len(), 16);
}

#[test]
fn a_tuesday_lists_nothing() {
    let event_type = half_hours(mondays_nine_to_five(vec![]));
    assert_eq!(event_type.candidate_slots(on(2024, 1, 16)).unwrap(), vec![]);
}

#[test]
fn without_schedule_there_is_nothing_to_list() {
    let event_type = EventType::create_with("evt_1".to_string(), 0, "Intro call", 30, "host_1");
    assert!(matches!(event_type.candidate_slots(on(2024, 1, 15)), Err(SchedulingError::ScheduleNotFound)));
    assert!(matches!(
        event_type.list_slots(on(2024, 1, 15), &Vec::new(), BookingLimits::default(), 0),
        Err(SchedulingError::ScheduleNotFound)
    ));
    assert!(matches!(
        event_type.available_slots(on(2024, 1, 15), &Vec::new(), BookingLimits::default(), 0),
        Err(SchedulingError::ScheduleNotFound)
    ));
}

#[test]
fn a_booking_takes_its_slot_out_of_the_listing() {
    let event_type = half_hours(mondays_nine_to_five(vec![]));
    let booked = TimeSlot::new(time(2024, 1, 15, 10, 0), time(2024, 1, 15, 10, 30));
    let existing = vec![taken("b1", booked)];
    let now = time(2024, 1, 1, 0, 0);
    let free = event_type.available_slots(on(2024, 1, 15), &existing, BookingLimits::default(), now).unwrap();
    assert_eq!(free.len(), 15);
    assert!(!free.contains(&booked));
    let listed = event_type.list_slots(on(2024, 1, 15), &existing, BookingLimits::default(), now).unwrap();
    assert_eq!(listed.len(), 16);
    for shown in &listed {
        assert_eq!(shown.available, shown.start != booked.start);
        assert_eq!(shown.end - shown.start, 1_800);
    }
    assert_eq!(listed[2].start, booked.start);
    assert_eq!(listed[2].end, booked.end);
}

#[test]
fn buffers_take_the_neighbours_out_too() {
    let mut event_type = half_hours(mondays_nine_to_five(vec![]));
    event_type.set_buffer(0, 10);
    let booked = TimeSlot::new(time(2024, 1, 15, 10, 0), time(2024, 1, 15, 10, 30));
    let existing = vec![taken("b1", booked)];
    let now = time(2024, 1, 1, 0, 0);
    let listed = event_type.list_slots(on(2024, 1, 15), &existing, BookingLimits::default(), now).unwrap();
    // 40 minutes each, stepping by 30: the last candidate starts at 16:00.
    assert_eq!(listed.len(), 15);
    let shut: Vec<i64> = listed.iter().filter(|shown| !shown.available).map(|shown| shown.start).collect();
    assert_eq!(
        shut,
        vec![time(2024, 1, 15, 9, 30), time(2024, 1, 15, 10, 0), time(2024, 1, 15, 10, 30)]
    );
}

#[test]
fn slots_that_have_started_are_not_offered() {
    let event_type = half_hours(mondays_nine_to_five(vec![]));
    let noon = time(2024, 1, 15, 12, 0);
    let free = event_type.available_slots(on(2024, 1, 15), &Vec::new(), BookingLimits::default(), noon).unwrap();
    assert_eq!(free.len(), 10);
    assert_eq!(free[0].start, noon);
    let notice = BookingLimits { min_notice_hours: 2, ..BookingLimits::default() };
    let later = event_type.available_slots(on(2024, 1, 15), &Vec::new(), notice, noon).unwrap();
    assert_eq!(later.len(), 6);
    assert_eq!(later[0].start, time(2024, 1, 15, 14, 0));
}

#[test]
fn a_full_day_offers_nothing() {
    let mut event_type = half_hours(mondays_nine_to_five(vec![]));
    event_type.set_max_bookings_per_day(Some(1));
    let existing = vec![taken("b1", TimeSlot::new(time(2024, 1, 15, 10, 0), time(2024, 1, 15, 10, 30)))];
    let free = event_type
        .available_slots(on(2024, 1, 15), &existing, BookingLimits::default(), time(2024, 1, 1, 0, 0))
        .unwrap();
    assert_eq!(free, vec![]);
}

#[test]
fn a_new_event_type_is_active_and_bare() {
    let event_type = EventType::create("Intro call", 30, "host_1");
    assert_eq!(event_type.id().chars().count(), 36);
    assert_eq!(event_type.name(), "Intro call");
    assert_eq!(event_type.duration(), 30);
    assert_eq!(event_type.host_id(), "host_1");
    assert_eq!(event_type.color(), "#3788d8");
    assert_eq!(event_type.buffer_before(), 0);
    assert_eq!(event_type.buffer_after(), 0);
    assert_eq!(event_type.max_bookings_per_day(), None);
    assert!(event_type.is_active());
    assert!(event_type.availability().is_none());
    let now = chrono::Utc::now().timestamp();
    assert!((now - event_type.created_at()).abs() <= 5);
    assert_ne!(EventType::create("Intro call", 30, "host_1").id(), event_type.id());
}

#[test]
fn an_event_type_made_with_id_and_time_keeps_them() {
    let event_type = EventType::create_with("evt_7".to_string(), 1_234, "Demo", 45, "host_2");
    assert_eq!(event_type.id(), "evt_7");
    assert_eq!(event_type.created_at(), 1_234);
    assert_eq!(event_type.name(), "Demo");
    assert_eq!(event_type.duration(), 45);
    assert_eq!(event_type.host_id(), "host_2");
}

#[test]
fn setters_change_what_they_name() {
    let mut event_type = EventType::create_with("evt_7".to_string(), 1_234, "Demo", 45, "host_2");
    event_type.set_buffer(5, 10);
    assert_eq!(event_type.buffer_before(), 5);
    assert_eq!(event_type.buffer_after(), 10);
    event_type.set_max_bookings_per_day(Some(3));
    assert_eq!(event_type.max_bookings_per_day(), Some(3));
    event_type.set_availability(mondays_nine_to_five(vec![]));
    assert_eq!(event_type.availability().unwrap().rules.len(), 1);
    event_type.deactivate();
    assert!(!event_type.is_active());
    assert_eq!(event_type.duration(), 45);
    assert_eq!(event_type.name(), "Demo");
    assert_eq!(event_type.buffer_after(), 10);
    let copy = event_type.clone();
    assert_eq!(copy.id(), "evt_7");
    assert_eq!(copy.duration(), 45);
    assert!(!copy.is_active());
}

#[test]
fn the_policy_takes_the_lower_daily_limit() {
    let mut event_type = EventType::create_with("evt_7".to_string(), 0, "Demo", 45, "host_2");
    event_type.set_buffer(5, 10);
    let given = BookingLimits { min_notice_hours: 3, max_future_days: 60, max_per_day: Some(4), max_per_week: Some(9) };
    let policy = event_type.policy(given);
    assert_eq!(policy.buffer_before_minutes, 5);
    assert_eq!(policy.buffer_after_minutes, 10);
    assert_eq!(policy.limits, given);
    event_type.set_max_bookings_per_day(Some(2));
    assert_eq!(event_type.policy(given).limits.max_per_day, Some(2));
    event_type.set_max_bookings_per_day(Some(6));
    assert_eq!(event_type.policy(given).limits.max_per_day, Some(4));
    assert_eq!(event_type.policy(BookingLimits::default()).limits.max_per_day, Some(6));
    assert_eq!(event_type.policy(given).limits.max_per_week, Some(9));
    assert_eq!(event_type.policy(given).limits.min_notice_hours, 3);
}
