//! Appointment scheduling: availability resolution, slot generation,
//! conflict checking and the booking lifecycle.
//!
//! The records of this file are the plain data of the platform as it is
//! stored and exchanged. The rules live in [`domain`].

use crate::domain::value_objects::{Availability, CalendarDate, TimeSlot as Slot, Weekday};
use std::collections::HashMap;
use vstd::prelude::*;
use vstd::string::StringExecFns;

pub mod domain;

verus! {

/// An appointment type that invitees can book.
#[derive(Clone, Debug)]
pub struct EventType {
    pub id: String,
    pub name: String,
    pub description: Option<String>,
    pub duration_minutes: u32,
    pub buffer_before_minutes: u32,
    pub buffer_after_minutes: u32,
    pub color: String,
    pub location: EventLocation,
    pub availability_schedule_id: String,
    pub booking_limits: BookingLimits,
    pub questions: Vec<BookingQuestion>,
    pub confirmations: ConfirmationSettings,
    pub is_active: bool,
    /// Seconds since 1970-01-01T00:00:00Z.
    pub created_at: i64,
}

/// Where an appointment takes place.
#[derive(Clone, Debug)]
pub enum EventLocation {
    InPerson { address: String },
    Phone,
    VideoConference { provider: VideoProvider },
    Custom { instructions: String },
}

/// The service that carries a video call.
#[derive(Clone, Debug)]
pub enum VideoProvider {
    GoogleMeet,
    Zoom,
    MicrosoftTeams,
    Custom { url: String },
}

impl Default for VideoProvider {
    fn default() -> (provider: Self)
        ensures
            provider is GoogleMeet,
    {
        VideoProvider::GoogleMeet
    }
}

/// What an event type asks of a booking beyond a free slot.
#[derive(Clone, Copy, Debug, PartialEq, Eq, Structural)]
pub struct BookingLimits {
    pub min_notice_hours: u32,
    pub max_future_days: u32,
    pub max_per_day: Option<u32>,
    pub max_per_week: Option<u32>,
}

impl Default for BookingLimits {
    fn default() -> (limits: Self)
        ensures
            limits == (BookingLimits {
                min_notice_hours: 0,
                max_future_days: 0,
                max_per_day: None,
                max_per_week: None,
            }),
    {
        BookingLimits { min_notice_hours: 0, max_future_days: 0, max_per_day: None, max_per_week: None }
    }
}

/// A question that the invitee is asked when booking.
#[derive(Clone, Debug)]
pub struct BookingQuestion {
    pub id: String,
    pub question: String,
    pub question_type: QuestionType,
    pub required: bool,
    pub options: Vec<String>,
}

/// The form of answer that a question takes.
#[derive(Clone, Copy, Debug, PartialEq, Eq, Structural)]
pub enum QuestionType {
    ShortText,
    LongText,
    SingleChoice,
    MultipleChoice,
    Phone,
}

impl Default for QuestionType {
    fn default() -> (kind: Self)
        ensures
            kind == QuestionType::ShortText,
    {
        QuestionType::ShortText
    }
}

/// What is sent and shown to the invitee once a booking is made.
#[derive(Clone, Debug)]
pub struct ConfirmationSettings {
    pub send_confirmation_email: bool,
    pub send_reminder_email: bool,
    pub reminder_hours_before: Vec<u32>,
    pub redirect_url: Option<String>,
    pub custom_message: Option<String>,
}

impl Default for ConfirmationSettings {
    fn default() -> (settings: Self)
        ensures
            !settings.send_confirmation_email,
            !settings.send_reminder_email,
            settings.reminder_hours_before@ == Seq::<u32>::empty(),
            settings.redirect_url is None,
            settings.custom_message is None,
    {
        ConfirmationSettings {
            send_confirmation_email: false,
            send_reminder_email: false,
            reminder_hours_before: Vec::new(),
            redirect_url: None,
            custom_message: None,
        }
    }
}

/// A stored availability schedule: for each listed weekday its intervals,
/// and the dates that depart from the weekly rule.
#[derive(Clone, Debug)]
pub struct AvailabilitySchedule {
    pub id: String,
    pub name: String,
    pub timezone: String,
    pub rules: Vec<AvailabilityRule>,
    pub overrides: Vec<DateOverride>,
}

/// The intervals of one weekday, week after week.
#[derive(Clone, Debug)]
pub struct AvailabilityRule {
    pub day: Weekday,
    pub intervals: Vec<TimeInterval>,
}

/// A stretch of one day, from `start` to `end` in seconds since midnight.
#[derive(Clone, Copy, Debug, PartialEq, Eq, Structural)]
pub struct TimeInterval {
    pub start: u32,
    pub end: u32,
}

/// What holds on one date in place of the weekly rule: nothing where the
/// date is marked unavailable, else the listed intervals.
#[derive(Clone, Debug)]
pub struct DateOverride {
    pub date: CalendarDate,
    pub intervals: Vec<TimeInterval>,
    pub is_unavailable: bool,
}

/// A stored booking. Times are seconds since 1970-01-01T00:00:00Z.
#[derive(Clone, Debug)]
pub struct Booking {
    pub id: String,
    pub event_type_id: String,
    pub host_id: String,
    pub invitee: Invitee,
    pub start_time: i64,
    pub end_time: i64,
    pub status: BookingStatus,
    pub location: EventLocation,
    pub meeting_url: Option<String>,
    pub responses: HashMap<String, String>,
    pub notes: Option<String>,
    pub cancelled_at: Option<i64>,
    pub cancellation_reason: Option<String>,
    pub rescheduled_from: Option<String>,
    pub created_at: i64,
}

/// Who books.
#[derive(Clone, Debug)]
pub struct Invitee {
    pub name: String,
    pub email: String,
    pub phone: Option<String>,
    pub timezone: String,
}

impl Default for Invitee {
    fn default() -> (invitee: Self)
        ensures
            invitee.name@ == Seq::<char>::empty(),
            invitee.email@ == Seq::<char>::empty(),
            invitee.phone is None,
            invitee.timezone@ == Seq::<char>::empty(),
    {
        Invitee { name: String::new(), email: String::new(), phone: None, timezone: String::new() }
    }
}

/// The status of a stored booking.
#[derive(Clone, Copy, Debug, PartialEq, Eq, Structural)]
pub enum BookingStatus {
    Confirmed,
    Pending,
    Cancelled,
    Rescheduled,
    NoShow,
    Completed,
}

impl Default for BookingStatus {
    fn default() -> (status: Self)
        ensures
            status == BookingStatus::Confirmed,
    {
        BookingStatus::Confirmed
    }
}

/// A slot of a listing: its bounds in seconds since 1970-01-01T00:00:00Z,
/// and whether it can still be booked.
#[derive(Clone, Copy, Debug, PartialEq, Eq, Structural)]
pub struct TimeSlot {
    pub start: i64,
    pub end: i64,
    pub available: bool,
}

/// What can go wrong in the scheduling service.
#[derive(Debug)]
pub enum SchedulingError {
    EventTypeNotFound,
    ScheduleNotFound,
    BookingNotFound,
    SlotNotAvailable,
    TooShortNotice,
    BookingLimitReached,
    CannotCancel(String),
    CalendarSyncError(String),
    StorageError(String),
}

impl SchedulingError {
    /// The text shown for the error.
    pub open spec fn spec_message(self) -> Seq<char> {
        match self {
            SchedulingError::EventTypeNotFound => "Event type not found"@,
            SchedulingError::ScheduleNotFound => "Schedule not found"@,
            SchedulingError::BookingNotFound => "Booking not found"@,
            SchedulingError::SlotNotAvailable => "Slot not available"@,
            SchedulingError::TooShortNotice => "Too short notice"@,
            SchedulingError::BookingLimitReached => "Booking limit reached"@,
            SchedulingError::CannotCancel(detail) => "Cannot cancel: "@ + detail@,
            SchedulingError::CalendarSyncError(detail) => "Calendar sync error: "@ + detail@,
            SchedulingError::StorageError(detail) => "Storage error: "@ + detail@,
        }
    }

    /// The text shown for the error.
    pub fn message(&self) -> (text: String)
        ensures
            text@ == self.spec_message(),
    {
        match self {
            SchedulingError::EventTypeNotFound => "Event type not found".to_owned(),
            SchedulingError::ScheduleNotFound => "Schedule not found".to_owned(),
            SchedulingError::BookingNotFound => "Booking not found".to_owned(),
            SchedulingError::SlotNotAvailable => "Slot not available".to_owned(),
            SchedulingError::TooShortNotice => "Too short notice".to_owned(),
            SchedulingError::BookingLimitReached => "Booking limit reached".to_owned(),
            SchedulingError::CannotCancel(detail) => "Cannot cancel: ".to_owned().concat(
                detail.as_str(),
            ),
            SchedulingError::CalendarSyncError(detail) => "Calendar sync error: ".to_owned().concat(
                detail.as_str(),
            ),
            SchedulingError::StorageError(detail) => "Storage error: ".to_owned().concat(
                detail.as_str(),
            ),
        }
    }
}

/// A stored interval as a weekly stretch of `day`.
pub open spec fn stretch_of(day: Weekday) -> spec_fn(TimeInterval) -> Availability {
    |interval: TimeInterval|
        Availability { weekday: day, start_time: interval.start, end_time: interval.end }
}

/// The weekly stretches of a stored rule, in the order of its intervals.
pub open spec fn stretches_of() -> spec_fn(AvailabilityRule) -> Seq<Availability> {
    |rule: AvailabilityRule| rule.intervals@.map_values(stretch_of(rule.day))
}

/// A stored interval as a slot on `date`.
pub open spec fn slot_on(date: CalendarDate) -> spec_fn(TimeInterval) -> Slot {
    |interval: TimeInterval|
        Slot {
            start: date.spec_at(interval.start as int) as i64,
            end: date.spec_at(interval.end as int) as i64,
        }
}

impl DateOverride {
    /// `other` says of its date what this stored override says: nothing is
    /// open where it is marked unavailable, else its intervals are.
    pub open spec fn is_told_by(self, other: crate::domain::value_objects::DateOverride) -> bool {
        &&& other.date == self.date
        &&& other.available == !self.is_unavailable
        &&& other.slots is Some
        &&& other.slots->0@ == self.intervals@.map_values(slot_on(self.date))
    }

    /// The override in the form in which availability is resolved.
    pub fn to_domain(&self) -> (other: crate::domain::value_objects::DateOverride)
        ensures
            self.is_told_by(other),
    {
        let midnight: i64 = self.date.midnight();
        let mut slots: Vec<Slot> = Vec::new();
        let n: usize = self.intervals.len();
        let mut i: usize = 0;
        while i < n
            invariant
                n == self.intervals@.len(),
                i <= n,
                midnight == self.date.spec_midnight(),
                slots@ == self.intervals@.take(i as int).map_values(slot_on(self.date)),
            decreases n - i,
        {
            let interval: TimeInterval = self.intervals[i];
            proof {
                self.intervals@.lemma_map_take_succ(slot_on(self.date), i as int);
            }
            slots.push(
                Slot { start: midnight + interval.start as i64, end: midnight + interval.end as i64 },
            );
            i = i + 1;
        }
        proof {
            assert(self.intervals@.take(n as int) =~= self.intervals@);
        }
        crate::domain::value_objects::DateOverride {
            date: self.date,
            available: !self.is_unavailable,
            slots: Some(slots),
        }
    }
}

impl AvailabilitySchedule {
    /// `other` holds what this stored schedule holds: its time zone, the
    /// intervals of its weekly rules as stretches, rule after rule, and its
    /// overrides one for one.
    pub open spec fn is_told_by(
        self,
        other: crate::domain::value_objects::AvailabilitySchedule,
    ) -> bool {
        &&& other.timezone@ == self.timezone@
        &&& other.rules@ == self.rules@.flat_map(stretches_of())
        &&& other.date_overrides@.len() == self.overrides@.len()
        &&& forall|k: int|
            0 <= k < self.overrides@.len() ==> (#[trigger] self.overrides@[k]).is_told_by(
                other.date_overrides@[k],
            )
    }

    /// The schedule in the form in which availability is resolved.
    pub fn to_domain(&self) -> (other: crate::domain::value_objects::AvailabilitySchedule)
        ensures
            self.is_told_by(other),
    {
        let mut rules: Vec<Availability> = Vec::new();
        let n: usize = self.rules.len();
        let mut i: usize = 0;
        while i < n
            invariant
                n == self.rules@.len(),
                i <= n,
                rules@ == self.rules@.take(i as int).flat_map(stretches_of()),
            decreases n - i,
        {
            let rule = &self.rules[i];
            let ghost before = rules@;
            let m: usize = rule.intervals.len();
            let mut j: usize = 0;
            proof {
                self.rules@.lemma_flat_map_take_append(stretches_of(), i as int);
                assert(rule.intervals@.take(0).map_values(stretch_of(rule.day)) =~= Seq::<
                    Availability,
                >::empty());
            }
            while j < m
                invariant
                    m == rule.intervals@.len(),
                    j <= m,
                    rules@ == before + rule.intervals@.take(j as int).map_values(
                        stretch_of(rule.day),
                    ),
                decreases m - j,
            {
                let interval: TimeInterval = rule.intervals[j];
                proof {
                    rule.intervals@.lemma_map_take_succ(stretch_of(rule.day), j as int);
                }
                rules.push(
                    Availability {
                        weekday: rule.day,
                        start_time: interval.start,
                        end_time: interval.end,
                    },
                );
                j = j + 1;
            }
            i = i + 1;
        }
        proof {
            assert(self.rules@.take(n as int) =~= self.rules@);
        }
        let mut overrides: Vec<crate::domain::value_objects::DateOverride> = Vec::new();
        let count: usize = self.overrides.len();
        let mut k: usize = 0;
        while k < count
            invariant
                count == self.overrides@.len(),
                k <= count,
                overrides@.len() == k,
                forall|q: int|
                    0 <= q < k ==> (#[trigger] self.overrides@[q]).is_told_by(overrides@[q]),
            decreases count - k,
        {
            let told = self.overrides[k].to_domain();
            overrides.push(told);
            k = k + 1;
        }
        crate::domain::value_objects::AvailabilitySchedule {
            timezone: self.timezone.clone(),
            rules,
            date_overrides: overrides,
        }
    }
}

} // verus!
