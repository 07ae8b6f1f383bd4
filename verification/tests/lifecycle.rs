use chrono::{Duration, Utc};
use opensase_scheduling::domain::aggregates::{Booking, BookingError, BookingStatus};
use opensase_scheduling::domain::conflicts::BookingPolicy;
use opensase_scheduling::domain::events::{DomainEvent, SchedulingEvent};
use opensase_scheduling::domain::value_objects::TimeSlot;
use opensase_scheduling::{BookingLimits, EventLocation, Invitee};
use std::collections::HashMap;

const T0: i64 = 1_705_312_800; // 2024-01-15T10:00:00Z

fn half_hour(from: i64) -> TimeSlot {
    TimeSlot::new(from, from + 1_800)
}

fn confirmed(id: &str, slot: TimeSlot) -> Booking {
    Booking::create_at(
        id.to_string(),
        0,
        "evt_1",
        "host_1",
        "guest@example.com",
        "Guest",
        slot,
        &Vec::new(),
        &BookingPolicy::default(),
    )
    .unwrap()
}

fn stored(status: opensase_scheduling::BookingStatus) -> opensase_scheduling::Booking {
    opensase_scheduling::Booking {
        id: "b9".to_string(),
        event_type_id: "evt_1".to_string(),
        host_id: "host_1".to_string(),
        invitee: Invitee {
            name: "Guest".to_string(),
            email: "guest@example.com".to_string(),
            phone: None,
            timezone: "UTC".to_string(),
        },
        start_time: T0,
        end_time: T0 + 1_800,
        status,
        location: EventLocation::Phone,
        meeting_url: Some("https://meet.example.com/b9".to_string()),
        responses: HashMap::new(),
        notes: Some("bring slides".to_string()),
        cancelled_at: None,
        cancellation_reason: None,
        rescheduled_from: None,
        created_at: 77,
    }
}

fn kind(event: &DomainEvent) -> &'static str {
    match event {
        DomainEvent::Scheduling(SchedulingEvent::BookingCreated { .. }) => "created",
        DomainEvent::Scheduling(SchedulingEvent::BookingCancelled { .. }) => "cancelled",
        DomainEvent::Scheduling(SchedulingEvent::BookingRescheduled { .. }) => "rescheduled",
        DomainEvent::Scheduling(SchedulingEvent::ReminderSent { .. }) => "reminder",
        DomainEvent::Scheduling(SchedulingEvent::BookingCompleted { .. }) => "completed",
        DomainEvent::Scheduling(SchedulingEvent::BookingNoShow { .. }) => "no-show",
    }
}

fn subject(event: &DomainEvent) -> &str {
    match event {
        DomainEvent::Scheduling(inner) => inner.booking_id(),
    }
}

#[test]
fn test_booking() {
    let slot = TimeSlot::new(
        (Utc::now() + Duration::days(1)).timestamp(),
        (Utc::now() + Duration::days(1) + Duration::hours(1)).timestamp(),
    );
    let mut b = Booking::create(
        "evt_1",
        "host_1",
        "guest@example.com",
        "Guest",
        slot,
        &Vec::new(),
        &BookingPolicy::default(),
    )
    .unwrap();
    assert_eq!(b.status(), &BookingStatus::Confirmed);
    b.cancel("Conflict").unwrap();
    assert_eq!(b.status(), &BookingStatus::Cancelled);
}

#[test]
fn a_new_booking_is_confirmed_and_says_so_once() {
    let mut b = confirmed("b1", half_hour(T0));
    assert_eq!(b.id(), "b1");
    assert_eq!(b.event_type_id(), "evt_1");
    assert_eq!(b.host_id(), "host_1");
    assert_eq!(b.invitee_email(), "guest@example.com");
    assert_eq!(b.invitee_name(), "Guest");
    assert_eq!(b.time_slot(), &half_hour(T0));
    assert_eq!(b.status(), &BookingStatus::Confirmed);
    assert_eq!(b.created_at(), 0);
    assert_eq!(b.cancelled_at(), None);
    assert_eq!(b.cancel_reason(), None);
    assert_eq!(b.notes(), None);
    assert_eq!(b.meeting_url(), None);
    let events = b.take_events();
    assert_eq!(events.len(), 1);
    assert_eq!(kind(&events[0]), "created");
    assert_eq!(subject(&events[0]), "b1");
}

#[test]
fn create_draws_a_fresh_id_and_reads_the_clock() {
    let before = Utc::now().timestamp();
    let slot = half_hour(before + 86_400);
    let a = Booking::create("evt_1", "host_1", "a@example.com", "A", slot, &Vec::new(), &BookingPolicy::default()).unwrap();
    let b = Booking::create("evt_1", "host_2", "b@example.com", "B", slot, &Vec::new(), &BookingPolicy::default()).unwrap();
    let after = Utc::now().timestamp();
    assert_eq!(a.id().chars().count(), 36);
    assert_eq!(b.id().chars().count(), 36);
    assert_ne!(a.id(), b.id());
    assert_eq!(a.id().matches('-').count(), 4);
    assert!(before <= a.created_at() && a.created_at() <= after);
    assert!(before <= b.created_at() && b.created_at() <= after);
}

#[test]
fn create_names_the_new_booking_in_its_event() {
    let slot = half_hour(Utc::now().timestamp() + 86_400);
    let mut b = Booking::create("evt_1", "host_1", "a@example.com", "A", slot, &Vec::new(), &BookingPolicy::default()).unwrap();
    let id = b.id().to_string();
    let events = b.take_events();
    assert_eq!(events.len(), 1);
    assert_eq!(kind(&events[0]), "created");
    assert_eq!(subject(&events[0]), id);
}

#[test]
fn create_refuses_a_slot_that_has_started() {
    let slot = half_hour(Utc::now().timestamp() - 3_600);
    let refused = Booking::create("evt_1", "host_1", "a@example.com", "A", slot, &Vec::new(), &BookingPolicy::default());
    assert_eq!(refused.err(), Some(BookingError::TooShortNotice));
}

#[test]
fn create_refuses_a_taken_slot() {
    let existing = vec![confirmed("b1", half_hour(T0))];
    let refused = Booking::create_at(
        "b2".to_string(),
        0,
        "evt_1",
        "host_1",
        "other@example.com",
        "Other",
        half_hour(T0 + 900),
        &existing,
        &BookingPolicy::default(),
    );
    assert_eq!(refused.err(), Some(BookingError::SlotNotAvailable));
}

#[test]
fn create_refuses_short_notice() {
    let limits = BookingLimits { min_notice_hours: 4, ..BookingLimits::default() };
    let policy = BookingPolicy { buffer_before_minutes: 0, buffer_after_minutes: 0, limits };
    let refused = Booking::create_at(
        "b2".to_string(),
        T0 - 4 * 3_600 + 1,
        "evt_1",
        "host_1",
        "other@example.com",
        "Other",
        half_hour(T0),
        &Vec::new(),
        &policy,
    );
    assert_eq!(refused.err(), Some(BookingError::TooShortNotice));
    let accepted = Booking::create_at(
        "b2".to_string(),
        T0 - 4 * 3_600,
        "evt_1",
        "host_1",
        "other@example.com",
        "Other",
        half_hour(T0),
        &Vec::new(),
        &policy,
    );
    assert!(accepted.is_ok());
    assert_eq!(accepted.unwrap().created_at(), T0 - 4 * 3_600);
}

#[test]
fn create_refuses_beyond_the_limit() {
    let existing = vec![confirmed("b1", half_hour(T0))];
    let limits = BookingLimits { max_per_day: Some(1), ..BookingLimits::default() };
    let policy = BookingPolicy { buffer_before_minutes: 0, buffer_after_minutes: 0, limits };
    let refused = Booking::create_at(
        "b2".to_string(),
        0,
        "evt_1",
        "host_1",
        "other@example.com",
        "Other",
        half_hour(T0 + 4 * 3_600),
        &existing,
        &policy,
    );
    assert_eq!(refused.err(), Some(BookingError::BookingLimitReached));
}

#[test]
fn cancel_records_reason_and_time() {
    let mut b = confirmed("b1", half_hour(T0));
    b.take_events();
    assert_eq!(b.cancel_at("ill", 1_234), Ok(()));
    assert_eq!(b.status(), &BookingStatus::Cancelled);
    assert_eq!(b.cancelled_at(), Some(1_234));
    assert_eq!(b.cancel_reason(), Some("ill"));
    assert_eq!(b.time_slot(), &half_hour(T0));
    let events = b.take_events();
    assert_eq!(events.len(), 1);
    assert_eq!(kind(&events[0]), "cancelled");
    assert_eq!(subject(&events[0]), "b1");
}

#[test]
fn cancel_reads_the_clock() {
    let mut b = confirmed("b1", half_hour(T0));
    let before = Utc::now().timestamp();
    assert_eq!(b.cancel("ill"), Ok(()));
    let after = Utc::now().timestamp();
    let at = b.cancelled_at().unwrap();
    assert!(before <= at && at <= after);
    assert_eq!(b.cancel_reason(), Some("ill"));
}

#[test]
fn cancelling_twice_fails() {
    let mut b = confirmed("b1", half_hour(T0));
    assert_eq!(b.cancel_at("ill", 100), Ok(()));
    assert_eq!(b.cancel_at("still ill", 200), Err(BookingError::AlreadyCancelled));
    assert_eq!(b.cancel("again"), Err(BookingError::AlreadyCancelled));
    assert_eq!(b.cancelled_at(), Some(100));
    assert_eq!(b.cancel_reason(), Some("ill"));
    assert_eq!(b.take_events().len(), 2);
}

#[test]
fn nothing_follows_a_cancellation() {
    let mut b = confirmed("b1", half_hour(T0));
    b.cancel_at("ill", 100).unwrap();
    b.take_events();
    assert_eq!(b.cancel_at("x", 200), Err(BookingError::AlreadyCancelled));
    assert_eq!(
        b.reschedule_at(half_hour(T0 + 7_200), &Vec::new(), &BookingPolicy::default(), 0),
        Err(BookingError::InvalidTransition)
    );
    assert_eq!(b.complete(), Err(BookingError::InvalidTransition));
    assert_eq!(b.mark_no_show(), Err(BookingError::InvalidTransition));
    assert_eq!(b.status(), &BookingStatus::Cancelled);
    assert_eq!(b.time_slot(), &half_hour(T0));
    assert!(b.take_events().is_empty());
}

#[test]
fn a_cancelled_booking_cannot_be_rescheduled() {
    let slot = half_hour(Utc::now().timestamp() + 86_400);
    let mut b = Booking::create("evt_1", "host_1", "a@example.com", "A", slot, &Vec::new(), &BookingPolicy::default()).unwrap();
    b.cancel("ill").unwrap();
    let moved = b.reschedule(half_hour(slot.start + 7_200), &Vec::new(), &BookingPolicy::default());
    assert_eq!(moved, Err(BookingError::InvalidTransition));
    assert_eq!(b.status(), &BookingStatus::Cancelled);
    assert_eq!(b.time_slot(), &slot);
}

#[test]
fn a_pending_booking_can_be_cancelled_and_nothing_else() {
    let mut b = Booking::from_record(stored(opensase_scheduling::BookingStatus::Pending));
    assert_eq!(b.status(), &BookingStatus::Pending);
    assert_eq!(b.complete(), Err(BookingError::InvalidTransition));
    assert_eq!(b.mark_no_show(), Err(BookingError::InvalidTransition));
    assert_eq!(
        b.reschedule_at(half_hour(T0 + 7_200), &Vec::new(), &BookingPolicy::default(), 0),
        Err(BookingError::InvalidTransition)
    );
    assert_eq!(b.status(), &BookingStatus::Pending);
    assert_eq!(b.cancel_at("no answer", 5), Ok(()));
    assert_eq!(b.status(), &BookingStatus::Cancelled);
}

#[test]
fn a_rescheduled_booking_can_be_cancelled() {
    let mut b = confirmed("b1", half_hour(T0));
    b.reschedule_at(half_hour(T0 + 7_200), &Vec::new(), &BookingPolicy::default(), 0).unwrap();
    assert_eq!(b.cancel_at("ill", 9), Ok(()));
    assert_eq!(b.status(), &BookingStatus::Cancelled);
}

#[test]
fn a_closed_booking_cannot_be_cancelled() {
    let mut done = confirmed("b1", half_hour(T0));
    done.complete().unwrap();
    assert_eq!(done.cancel_at("late", 9), Err(BookingError::InvalidTransition));
    assert_eq!(done.status(), &BookingStatus::Completed);
    assert_eq!(done.cancelled_at(), None);
    let mut missed = confirmed("b2", half_hour(T0));
    missed.mark_no_show().unwrap();
    assert_eq!(missed.cancel("late"), Err(BookingError::InvalidTransition));
    assert_eq!(missed.status(), &BookingStatus::NoShow);
}

#[test]
fn reschedule_moves_a_confirmed_booking() {
    let mut b = confirmed("b1", half_hour(T0));
    b.take_events();
    assert_eq!(b.reschedule_at(half_hour(T0 + 7_200), &Vec::new(), &BookingPolicy::default(), 0), Ok(()));
    assert_eq!(b.status(), &BookingStatus::Rescheduled);
    assert_eq!(b.time_slot(), &half_hour(T0 + 7_200));
    let events = b.take_events();
    assert_eq!(events.len(), 1);
    assert_eq!(kind(&events[0]), "rescheduled");
    assert_eq!(subject(&events[0]), "b1");
}

#[test]
fn reschedule_reads_the_clock() {
    let soon = Utc::now().timestamp() + 86_400;
    let mut b = confirmed("b1", half_hour(soon));
    assert_eq!(
        b.reschedule(half_hour(Utc::now().timestamp() - 3_600), &Vec::new(), &BookingPolicy::default()),
        Err(BookingError::TooShortNotice)
    );
    assert_eq!(b.status(), &BookingStatus::Confirmed);
    assert_eq!(b.reschedule(half_hour(soon + 3_600), &Vec::new(), &BookingPolicy::default()), Ok(()));
    assert_eq!(b.status(), &BookingStatus::Rescheduled);
}

#[test]
fn a_conflict_leaves_the_booking_where_it_was() {
    let other = confirmed("b2", half_hour(T0 + 7_200));
    let mut b = confirmed("b1", half_hour(T0));
    b.take_events();
    let existing = vec![b.clone(), other];
    assert_eq!(
        b.reschedule_at(half_hour(T0 + 7_200 + 900), &existing, &BookingPolicy::default(), 0),
        Err(BookingError::SlotNotAvailable)
    );
    assert_eq!(b.status(), &BookingStatus::Confirmed);
    assert_eq!(b.time_slot(), &half_hour(T0));
    assert!(b.take_events().is_empty());
}

#[test]
fn a_booking_does_not_stand_in_its_own_way() {
    let mut b = confirmed("b1", half_hour(T0));
    let existing = vec![b.clone()];
    let limits = BookingLimits { max_per_day: Some(1), ..BookingLimits::default() };
    let policy = BookingPolicy { buffer_before_minutes: 15, buffer_after_minutes: 15, limits };
    assert_eq!(b.reschedule_at(half_hour(T0 + 900), &existing, &policy, 0), Ok(()));
    assert_eq!(b.time_slot(), &half_hour(T0 + 900));
}

#[test]
fn reschedule_respects_notice_and_limits() {
    let limits = BookingLimits { min_notice_hours: 1, max_per_day: Some(1), ..BookingLimits::default() };
    let policy = BookingPolicy { buffer_before_minutes: 0, buffer_after_minutes: 0, limits };
    let mut b = confirmed("b1", half_hour(T0));
    assert_eq!(
        b.reschedule_at(half_hour(T0 + 7_200), &Vec::new(), &policy, T0 + 7_200),
        Err(BookingError::TooShortNotice)
    );
    let next_day = vec![confirmed("b2", half_hour(T0 + 86_400))];
    assert_eq!(
        b.reschedule_at(half_hour(T0 + 86_400 + 7_200), &next_day, &policy, 0),
        Err(BookingError::BookingLimitReached)
    );
    assert_eq!(b.status(), &BookingStatus::Confirmed);
}

#[test]
fn a_booking_can_be_moved_only_once() {
    let mut b = confirmed("b1", half_hour(T0));
    b.reschedule_at(half_hour(T0 + 7_200), &Vec::new(), &BookingPolicy::default(), 0).unwrap();
    assert_eq!(
        b.reschedule_at(half_hour(T0 + 9_000), &Vec::new(), &BookingPolicy::default(), 0),
        Err(BookingError::InvalidTransition)
    );
    assert_eq!(b.time_slot(), &half_hour(T0 + 7_200));
}

#[test]
fn complete_closes_a_confirmed_or_rescheduled_booking() {
    let mut b = confirmed("b1", half_hour(T0));
    b.take_events();
    assert_eq!(b.complete(), Ok(()));
    assert_eq!(b.status(), &BookingStatus::Completed);
    let events = b.take_events();
    assert_eq!(events.len(), 1);
    assert_eq!(kind(&events[0]), "completed");
    assert_eq!(subject(&events[0]), "b1");
    assert_eq!(b.complete(), Err(BookingError::InvalidTransition));
    assert_eq!(b.mark_no_show(), Err(BookingError::InvalidTransition));
    let mut moved = confirmed("b2", half_hour(T0));
    moved.reschedule_at(half_hour(T0 + 7_200), &Vec::new(), &BookingPolicy::default(), 0).unwrap();
    assert_eq!(moved.complete(), Ok(()));
    assert_eq!(moved.status(), &BookingStatus::Completed);
}

#[test]
fn no_show_closes_a_confirmed_or_rescheduled_booking() {
    let mut b = confirmed("b1", half_hour(T0));
    b.take_events();
    assert_eq!(b.mark_no_show(), Ok(()));
    assert_eq!(b.status(), &BookingStatus::NoShow);
    let events = b.take_events();
    assert_eq!(events.len(), 1);
    assert_eq!(kind(&events[0]), "no-show");
    assert_eq!(subject(&events[0]), "b1");
    assert_eq!(b.mark_no_show(), Err(BookingError::InvalidTransition));
    assert_eq!(b.complete(), Err(BookingError::InvalidTransition));
    let mut moved = confirmed("b2", half_hour(T0));
    moved.reschedule_at(half_hour(T0 + 7_200), &Vec::new(), &BookingPolicy::default(), 0).unwrap();
    assert_eq!(moved.mark_no_show(), Ok(()));
    assert_eq!(moved.status(), &BookingStatus::NoShow);
}

#[test]
fn completing_a_cancelled_booking_fails() {
    let mut b = confirmed("b1", half_hour(T0));
    b.cancel_at("ill", 1).unwrap();
    assert_eq!(b.complete(), Err(BookingError::InvalidTransition));
    assert_eq!(b.status(), &BookingStatus::Cancelled);
}

#[test]
fn events_wait_in_order_until_they_are_taken() {
    let mut b = confirmed("b1", half_hour(T0));
    b.reschedule_at(half_hour(T0 + 7_200), &Vec::new(), &BookingPolicy::default(), 0).unwrap();
    b.cancel_at("ill", 1).unwrap();
    let events = b.take_events();
    let kinds: Vec<&str> = events.iter().map(kind).collect();
    assert_eq!(kinds, vec!["created", "rescheduled", "cancelled"]);
    assert!(b.take_events().is_empty());
    assert_eq!(b.status(), &BookingStatus::Cancelled);
}

#[test]
fn a_failed_transition_raises_no_event() {
    let mut b = confirmed("b1", half_hour(T0));
    b.take_events();
    b.complete().unwrap();
    b.take_events();
    assert!(b.cancel_at("late", 1).is_err());
    assert!(b.complete().is_err());
    assert!(b.mark_no_show().is_err());
    assert!(b.take_events().is_empty());
}

#[test]
fn a_stored_booking_comes_back_as_it_was() {
    let b = Booking::from_record(stored(opensase_scheduling::BookingStatus::Confirmed));
    assert_eq!(b.id(), "b9");
    assert_eq!(b.event_type_id(), "evt_1");
    assert_eq!(b.host_id(), "host_1");
    assert_eq!(b.invitee_name(), "Guest");
    assert_eq!(b.invitee_email(), "guest@example.com");
    assert_eq!(b.time_slot(), &half_hour(T0));
    assert_eq!(b.status(), &BookingStatus::Confirmed);
    assert_eq!(b.notes(), Some("bring slides"));
    assert_eq!(b.meeting_url(), Some("https://meet.example.com/b9"));
    assert_eq!(b.created_at(), 77);
    assert_eq!(b.cancelled_at(), None);
    assert_eq!(b.cancel_reason(), None);
    let mut b = b;
    assert!(b.take_events().is_empty());
}

#[test]
fn every_stored_status_has_its_state() {
    let pairs = [
        (opensase_scheduling::BookingStatus::Confirmed, BookingStatus::Confirmed),
        (opensase_scheduling::BookingStatus::Pending, BookingStatus::Pending),
        (opensase_scheduling::BookingStatus::Cancelled, BookingStatus::Cancelled),
        (opensase_scheduling::BookingStatus::Rescheduled, BookingStatus::Rescheduled),
        (opensase_scheduling::BookingStatus::NoShow, BookingStatus::NoShow),
        (opensase_scheduling::BookingStatus::Completed, BookingStatus::Completed),
    ];
    for (kept, state) in pairs {
        assert_eq!(Booking::from_record(stored(kept)).status(), &state);
    }
}

#[test]
fn a_stored_cancellation_keeps_its_reason() {
    let mut record = stored(opensase_scheduling::BookingStatus::Cancelled);
    record.cancelled_at = Some(500);
    record.cancellation_reason = Some("ill".to_string());
    let mut b = Booking::from_record(record);
    assert_eq!(b.cancelled_at(), Some(500));
    assert_eq!(b.cancel_reason(), Some("ill"));
    assert_eq!(b.cancel_at("again", 600), Err(BookingError::AlreadyCancelled));
    assert_eq!(b.cancelled_at(), Some(500));
}

#[test]
fn booking_errors_read_alike() {
    for error in [
        BookingError::SlotNotAvailable,
        BookingError::PastTime,
        BookingError::AlreadyCancelled,
        BookingError::TooShortNotice,
        BookingError::BookingLimitReached,
        BookingError::InvalidTransition,
    ] {
        assert_eq!(error.message(), "Booking error");
    }
}

#[test]
fn a_booking_starts_confirmed_by_default() {
    assert_eq!(BookingStatus::default(), BookingStatus::Confirmed);
}
