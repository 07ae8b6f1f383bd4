use opensase_scheduling::domain::resolver::AvailabilityResolver;
use opensase_scheduling::domain::value_objects::{CalendarDate, TimeSlot, Weekday};
use opensase_scheduling::{
    AvailabilityRule, AvailabilitySchedule, BookingLimits, BookingStatus, ConfirmationSettings,
    DateOverride, Invitee, QuestionType, SchedulingError, TimeInterval, VideoProvider,
};

const MONDAY: i32 = 19_737; // 2024-01-15

fn stored(rules: Vec<AvailabilityRule>, overrides: Vec<DateOverride>) -> AvailabilitySchedule {
    AvailabilitySchedule {
        id: "sch_1".to_string(),
        name: "Office hours".to_string(),
        timezone: "Africa/Lagos".to_string(),
        rules,
        overrides,
    }
}

fn span(from_hour: u32, to_hour: u32) -> TimeInterval {
    TimeInterval { start: from_hour * 3_600, end: to_hour * 3_600 }
}

#[test]
fn errors_read_as_they_should() {
    assert_eq!(SchedulingError::EventTypeNotFound.message(), "Event type not found");
    assert_eq!(SchedulingError::ScheduleNotFound.message(), "Schedule not found");
    assert_eq!(SchedulingError::BookingNotFound.message(), "Booking not found");
    assert_eq!(SchedulingError::SlotNotAvailable.message(), "Slot not available");
    assert_eq!(SchedulingError::TooShortNotice.message(), "Too short notice");
    assert_eq!(SchedulingError::BookingLimitReached.message(), "Booking limit reached");
    assert_eq!(SchedulingError::CannotCancel("too late".to_string()).message(), "Cannot cancel: too late");
    assert_eq!(
        SchedulingError::CalendarSyncError("timeout".to_string()).message(),
        "Calendar sync error: timeout"
    );
    assert_eq!(SchedulingError::StorageError("disk full".to_string()).message(), "Storage error: disk full");
    assert_eq!(SchedulingError::StorageError(String::new()).message(), "Storage error: ");
}

#[test]
fn defaults_are_empty() {
    assert_eq!(
        BookingLimits::default(),
        BookingLimits { min_notice_hours: 0, max_future_days: 0, max_per_day: None, max_per_week: None }
    );
    assert_eq!(BookingStatus::default(), BookingStatus::Confirmed);
    assert_eq!(QuestionType::default(), QuestionType::ShortText);
    assert!(matches!(VideoProvider::default(), VideoProvider::GoogleMeet));
    let settings = ConfirmationSettings::default();
    assert!(!settings.send_confirmation_email);
    assert!(!settings.send_reminder_email);
    assert!(settings.reminder_hours_before.is_empty());
    assert!(settings.redirect_url.is_none());
    assert!(settings.custom_message.is_none());
    let invitee = Invitee::default();
    assert_eq!(invitee.name, "");
    assert_eq!(invitee.email, "");
    assert_eq!(invitee.phone, None);
    assert_eq!(invitee.timezone, "");
}

#[test]
fn a_stored_schedule_lists_its_rules_as_stretches() {
    let schedule = stored(
        vec![
            AvailabilityRule { day: Weekday::Mon, intervals: vec![span(9, 12), span(13, 17)] },
            AvailabilityRule { day: Weekday::Wed, intervals: vec![] },
            AvailabilityRule { day: Weekday::Fri, intervals: vec![span(8, 10)] },
        ],
        vec![],
    );
    let told = schedule.to_domain();
    assert_eq!(told.timezone, "Africa/Lagos");
    assert_eq!(told.rules.len(), 3);
    assert_eq!(told.rules[0].weekday, Weekday::Mon);
    assert_eq!(told.rules[0].start_time, 9 * 3_600);
    assert_eq!(told.rules[0].end_time, 12 * 3_600);
    assert_eq!(told.rules[1].weekday, Weekday::Mon);
    assert_eq!(told.rules[1].start_time, 13 * 3_600);
    assert_eq!(told.rules[2].weekday, Weekday::Fri);
    assert_eq!(told.rules[2].end_time, 10 * 3_600);
    assert!(told.date_overrides.is_empty());
    assert!(told.validate());
}

#[test]
fn a_stored_override_lands_on_its_date() {
    let date = CalendarDate::new(MONDAY);
    let kept = DateOverride { date, intervals: vec![span(10, 11), span(14, 15)], is_unavailable: false };
    let told = kept.to_domain();
    assert_eq!(told.date, date);
    assert!(told.available);
    let midnight = date.midnight();
    assert_eq!(
        told.slots,
        Some(vec![
            TimeSlot::new(midnight + 10 * 3_600, midnight + 11 * 3_600),
            TimeSlot::new(midnight + 14 * 3_600, midnight + 15 * 3_600),
        ])
    );
    let closed = DateOverride { date, intervals: vec![span(10, 11)], is_unavailable: true };
    assert!(!closed.to_domain().available);
    let blocked = DateOverride { date, intervals: vec![], is_unavailable: false };
    assert_eq!(blocked.to_domain().slots, Some(vec![]));
}

#[test]
fn a_stored_schedule_resolves_like_its_stretches() {
    let date = CalendarDate::new(MONDAY);
    let midnight = date.midnight();
    let schedule = stored(
        vec![AvailabilityRule { day: Weekday::Mon, intervals: vec![span(13, 17), span(9, 12)] }],
        vec![DateOverride {
            date: CalendarDate::new(MONDAY + 7),
            intervals: vec![span(10, 11)],
            is_unavailable: false,
        }],
    );
    let told = schedule.to_domain();
    assert_eq!(
        AvailabilityResolver::resolve(&told, date),
        vec![
            TimeSlot::new(midnight + 9 * 3_600, midnight + 12 * 3_600),
            TimeSlot::new(midnight + 13 * 3_600, midnight + 17 * 3_600),
        ]
    );
    let next = CalendarDate::new(MONDAY + 7);
    assert_eq!(
        AvailabilityResolver::resolve(&told, next),
        vec![TimeSlot::new(next.midnight() + 10 * 3_600, next.midnight() + 11 * 3_600)]
    );
}
