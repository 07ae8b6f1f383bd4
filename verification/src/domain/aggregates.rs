//! The aggregates: event types and bookings.

use crate::domain::conflicts::{
    spec_check, BookingPolicy, ConflictChecker, SlotVerdict, UnavailableReason,
};
use crate::domain::events::{
    event_views, DomainEvent, DomainEventView, SchedulingEvent, SchedulingEventView,
};
use crate::domain::system::{fresh_id, utc_now};
use crate::domain::value_objects::{AvailabilitySchedule, TimeSlot};
use crate::BookingLimits;
use vstd::prelude::*;

verus! {

/// Where a booking stands in its life.
#[derive(Clone, Copy, Debug, PartialEq, Eq, Structural)]
pub enum BookingStatus {
    Confirmed,
    Pending,
    Cancelled,
    Rescheduled,
    Completed,
    NoShow,
}

impl Default for BookingStatus {
    fn default() -> (status: Self)
        ensures
            status == BookingStatus::Confirmed,
    {
        BookingStatus::Confirmed
    }
}

/// Why a booking was refused or a transition failed.
#[derive(Clone, Copy, Debug, PartialEq, Eq, Structural)]
pub enum BookingError {
    SlotNotAvailable,
    PastTime,
    AlreadyCancelled,
    TooShortNotice,
    BookingLimitReached,
    InvalidTransition,
}

impl BookingError {
    /// The text shown for the error: the same for every kind.
    pub open spec fn spec_message(self) -> Seq<char> {
        "Booking error"@
    }

    /// The text shown for the error: the same for every kind.
    pub fn message(&self) -> (text: String)
        ensures
            text@ == self.spec_message(),
    {
        "Booking error".to_owned()
    }
}

/// The text of an optional string.
pub open spec fn text_of(value: Option<String>) -> Option<Seq<char>> {
    match value {
        Some(text) => Some(text@),
        None => None,
    }
}

/// An event type as the contracts see it.
pub struct EventTypeView {
    pub id: Seq<char>,
    pub name: Seq<char>,
    pub description: Option<Seq<char>>,
    pub duration_minutes: u32,
    pub color: Seq<char>,
    pub host_id: Seq<char>,
    pub availability: Option<AvailabilitySchedule>,
    pub buffer_before: u32,
    pub buffer_after: u32,
    pub max_bookings_per_day: Option<u32>,
    pub is_active: bool,
    pub created_at: i64,
}

impl EventTypeView {
    /// An event type takes time.
    pub open spec fn is_valid(self) -> bool {
        self.duration_minutes > 0
    }

    /// What the event type demands of a booking under `limits`: its own
    /// buffers, and of the two limits per day the lower one.
    pub open spec fn policy(self, limits: BookingLimits) -> BookingPolicy {
        BookingPolicy {
            buffer_before_minutes: self.buffer_before,
            buffer_after_minutes: self.buffer_after,
            limits: BookingLimits {
                max_per_day: match (self.max_bookings_per_day, limits.max_per_day) {
                    (Some(own), Some(given)) => Some(if own <= given { own } else { given }),
                    (Some(own), None) => Some(own),
                    (None, given) => given,
                },
                ..limits
            },
        }
    }
}

/// The event type that `create` makes, but for its id and the time of its
/// making.
pub open spec fn spec_new_event_type(
    id: Seq<char>,
    created_at: i64,
    name: Seq<char>,
    duration_minutes: u32,
    host_id: Seq<char>,
) -> EventTypeView {
    EventTypeView {
        id,
        name,
        description: None,
        duration_minutes,
        color: "#3788d8"@,
        host_id,
        availability: None,
        buffer_before: 0,
        buffer_after: 0,
        max_bookings_per_day: None,
        is_active: true,
        created_at,
    }
}

/// A kind of appointment that a host offers.
#[derive(Debug)]
pub struct EventType {
    id: String,
    name: String,
    description: Option<String>,
    duration_minutes: u32,
    color: String,
    host_id: String,
    availability: Option<AvailabilitySchedule>,
    buffer_before: u32,
    buffer_after: u32,
    max_bookings_per_day: Option<u32>,
    is_active: bool,
    created_at: i64,
}

impl View for EventType {
    type V = EventTypeView;

    closed spec fn view(&self) -> EventTypeView {
        EventTypeView {
            id: self.id@,
            name: self.name@,
            description: text_of(self.description),
            duration_minutes: self.duration_minutes,
            color: self.color@,
            host_id: self.host_id@,
            availability: self.availability,
            buffer_before: self.buffer_before,
            buffer_after: self.buffer_after,
            max_bookings_per_day: self.max_bookings_per_day,
            is_active: self.is_active,
            created_at: self.created_at,
        }
    }
}

impl Clone for EventType {
    fn clone(&self) -> (copy: Self)
        ensures
            copy@.duration_minutes == self@.duration_minutes,
            copy@.id == self@.id,
            copy@.name == self@.name,
            copy@.host_id == self@.host_id,
            copy@.buffer_before == self@.buffer_before,
            copy@.buffer_after == self@.buffer_after,
            copy@.max_bookings_per_day == self@.max_bookings_per_day,
            copy@.is_active == self@.is_active,
            copy@.created_at == self@.created_at,
    {
        proof {
            use_type_invariant(self);
        }
        EventType {
            id: self.id.clone(),
            name: self.name.clone(),
            description: self.description.clone(),
            duration_minutes: self.duration_minutes,
            color: self.color.clone(),
            host_id: self.host_id.clone(),
            availability: self.availability.clone(),
            buffer_before: self.buffer_before,
            buffer_after: self.buffer_after,
            max_bookings_per_day: self.max_bookings_per_day,
            is_active: self.is_active,
            created_at: self.created_at,
        }
    }
}

impl EventType {
    #[verifier::type_invariant]
    closed spec fn well_formed(self) -> bool {
        self@.is_valid()
    }

    /// A new active event type made at `created_at` under the id `id`,
    /// without schedule, buffers or limit.
    pub fn create_with(
        id: String,
        created_at: i64,
        name: &str,
        duration_minutes: u32,
        host_id: &str,
    ) -> (event_type: Self)
        requires
            duration_minutes > 0,
        ensures
            event_type@ == spec_new_event_type(id@, created_at, name@, duration_minutes, host_id@),
    {
        EventType {
            id,
            name: name.to_owned(),
            description: None,
            duration_minutes,
            color: "#3788d8".to_owned(),
            host_id: host_id.to_owned(),
            availability: None,
            buffer_before: 0,
            buffer_after: 0,
            max_bookings_per_day: None,
            is_active: true,
            created_at,
        }
    }

    /// A new active event type, made now under a fresh random id. The time
    /// is the machine's and the id is drawn at random: but for these two the
    /// event type is that of `create_with`.
    pub fn create(name: &str, duration_minutes: u32, host_id: &str) -> (event_type: Self)
        requires
            duration_minutes > 0,
        ensures
            event_type@ == spec_new_event_type(
                event_type@.id,
                event_type@.created_at,
                name@,
                duration_minutes,
                host_id@,
            ),
            event_type@.id.len() == 36,
    {
        let id = fresh_id();
        let now = utc_now();
        Self::create_with(id, now, name, duration_minutes, host_id)
    }

    pub fn id(&self) -> (id: &str)
        ensures
            id@ == self@.id,
    {
        self.id.as_str()
    }

    pub fn name(&self) -> (name: &str)
        ensures
            name@ == self@.name,
    {
        self.name.as_str()
    }

    pub fn host_id(&self) -> (id: &str)
        ensures
            id@ == self@.host_id,
    {
        self.host_id.as_str()
    }

    /// The length of an appointment in minutes: never zero.
    pub fn duration(&self) -> (minutes: u32)
        ensures
            minutes == self@.duration_minutes,
            minutes > 0,
    {
        proof {
            use_type_invariant(self);
        }
        self.duration_minutes
    }

    pub fn buffer_before(&self) -> (minutes: u32)
        ensures
            minutes == self@.buffer_before,
    {
        self.buffer_before
    }

    pub fn buffer_after(&self) -> (minutes: u32)
        ensures
            minutes == self@.buffer_after,
    {
        self.buffer_after
    }

    pub fn max_bookings_per_day(&self) -> (most: Option<u32>)
        ensures
            most == self@.max_bookings_per_day,
    {
        self.max_bookings_per_day
    }

    pub fn is_active(&self) -> (active: bool)
        ensures
            active == self@.is_active,
    {
        self.is_active
    }

    pub fn color(&self) -> (color: &str)
        ensures
            color@ == self@.color,
    {
        self.color.as_str()
    }

    /// When the event type was made, in seconds since
    /// 1970-01-01T00:00:00Z.
    pub fn created_at(&self) -> (at: i64)
        ensures
            at == self@.created_at,
    {
        self.created_at
    }

    /// The schedule of the event type, if it has one.
    pub fn availability(&self) -> (schedule: Option<&AvailabilitySchedule>)
        ensures
            schedule is Some <==> self@.availability is Some,
            schedule is Some ==> *schedule->0 == self@.availability->0,
    {
        match &self.availability {
            Some(schedule) => Some(schedule),
            None => None,
        }
    }

    /// Gives the event type `schedule` in place of the one it had.
    pub fn set_availability(&mut self, schedule: AvailabilitySchedule)
        ensures
            final(self)@ == (EventTypeView { availability: Some(schedule), ..old(self)@ }),
    {
        proof {
            use_type_invariant(&*self);
        }
        self.availability = Some(schedule);
    }

    /// Sets the minutes kept free before and after each booking.
    pub fn set_buffer(&mut self, before: u32, after: u32)
        ensures
            final(self)@ == (EventTypeView {
                buffer_before: before,
                buffer_after: after,
                ..old(self)@
            }),
    {
        proof {
            use_type_invariant(&*self);
        }
        self.buffer_before = before;
        self.buffer_after = after;
    }

    /// Sets how many bookings a day may hold at most, or lifts the limit.
    pub fn set_max_bookings_per_day(&mut self, most: Option<u32>)
        ensures
            final(self)@ == (EventTypeView { max_bookings_per_day: most, ..old(self)@ }),
    {
        proof {
            use_type_invariant(&*self);
        }
        self.max_bookings_per_day = most;
    }

    /// Takes the event type out of use. It stays what it was otherwise.
    pub fn deactivate(&mut self)
        ensures
            final(self)@ == (EventTypeView { is_active: false, ..old(self)@ }),
    {
        proof {
            use_type_invariant(&*self);
        }
        self.is_active = false;
    }

    /// What the event type demands of a booking under `limits`.
    pub fn policy(&self, limits: BookingLimits) -> (policy: BookingPolicy)
        ensures
            policy == self@.policy(limits),
    {
        let max_per_day: Option<u32> = match self.max_bookings_per_day {
            Some(own) => match limits.max_per_day {
                Some(given) => Some(if own <= given { own } else { given }),
                None => Some(own),
            },
            None => limits.max_per_day,
        };
        BookingPolicy {
            buffer_before_minutes: self.buffer_before,
            buffer_after_minutes: self.buffer_after,
            limits: BookingLimits {
                min_notice_hours: limits.min_notice_hours,
                max_future_days: limits.max_future_days,
                max_per_day,
                max_per_week: limits.max_per_week,
            },
        }
    }
}

/// A booking as the contracts see it.
pub struct BookingView {
    pub id: Seq<char>,
    pub event_type_id: Seq<char>,
    pub host_id: Seq<char>,
    pub invitee_email: Seq<char>,
    pub invitee_name: Seq<char>,
    pub time_slot: TimeSlot,
    pub status: BookingStatus,
    pub notes: Option<Seq<char>>,
    pub meeting_url: Option<Seq<char>>,
    pub cancelled_at: Option<i64>,
    pub cancel_reason: Option<Seq<char>>,
    pub created_at: i64,
    pub events: Seq<DomainEventView>,
}

/// One booking of a slot with a host, and the events that it has raised and
/// nobody has taken yet.
#[derive(Clone, Debug)]
pub struct Booking {
    id: String,
    event_type_id: String,
    host_id: String,
    invitee_email: String,
    invitee_name: String,
    time_slot: TimeSlot,
    status: BookingStatus,
    notes: Option<String>,
    meeting_url: Option<String>,
    cancelled_at: Option<i64>,
    cancel_reason: Option<String>,
    created_at: i64,
    events: Vec<DomainEvent>,
}

impl View for Booking {
    type V = BookingView;

    closed spec fn view(&self) -> BookingView {
        BookingView {
            id: self.id@,
            event_type_id: self.event_type_id@,
            host_id: self.host_id@,
            invitee_email: self.invitee_email@,
            invitee_name: self.invitee_name@,
            time_slot: self.time_slot,
            status: self.status,
            notes: text_of(self.notes),
            meeting_url: text_of(self.meeting_url),
            cancelled_at: self.cancelled_at,
            cancel_reason: text_of(self.cancel_reason),
            created_at: self.created_at,
            events: event_views(self.events@),
        }
    }
}

/// The bookings of a list, each by its view.
pub open spec fn booking_views(bookings: Seq<Booking>) -> Seq<BookingView> {
    bookings.map_values(|booking: Booking| booking@)
}

/// The status that a stored status stands for.
pub open spec fn spec_status_of(status: crate::BookingStatus) -> BookingStatus {
    match status {
        crate::BookingStatus::Confirmed => BookingStatus::Confirmed,
        crate::BookingStatus::Pending => BookingStatus::Pending,
        crate::BookingStatus::Cancelled => BookingStatus::Cancelled,
        crate::BookingStatus::Rescheduled => BookingStatus::Rescheduled,
        crate::BookingStatus::NoShow => BookingStatus::NoShow,
        crate::BookingStatus::Completed => BookingStatus::Completed,
    }
}

/// The event that a booking raises when it is created.
pub open spec fn created_event(id: Seq<char>) -> DomainEventView {
    DomainEventView::Scheduling(SchedulingEventView::BookingCreated { booking_id: id })
}

/// The event that a booking raises when it is cancelled.
pub open spec fn cancelled_event(id: Seq<char>) -> DomainEventView {
    DomainEventView::Scheduling(SchedulingEventView::BookingCancelled { booking_id: id })
}

/// The event that a booking raises when it is moved to another slot.
pub open spec fn rescheduled_event(id: Seq<char>) -> DomainEventView {
    DomainEventView::Scheduling(SchedulingEventView::BookingRescheduled { booking_id: id })
}

/// The event that a booking raises when it is completed.
pub open spec fn completed_event(id: Seq<char>) -> DomainEventView {
    DomainEventView::Scheduling(SchedulingEventView::BookingCompleted { booking_id: id })
}

/// The event that a booking raises when its invitee did not show up.
pub open spec fn no_show_event(id: Seq<char>) -> DomainEventView {
    DomainEventView::Scheduling(SchedulingEventView::BookingNoShow { booking_id: id })
}

/// A new booking of `time_slot`, made at `now` under the id `id`: confirmed
/// where the conflict check finds the slot available, else refused for the
/// conflict check's reason.
pub open spec fn spec_create(
    id: Seq<char>,
    now: i64,
    event_type_id: Seq<char>,
    host_id: Seq<char>,
    invitee_email: Seq<char>,
    invitee_name: Seq<char>,
    time_slot: TimeSlot,
    existing: Seq<BookingView>,
    policy: BookingPolicy,
) -> Result<BookingView, BookingError> {
    match spec_check(time_slot, event_type_id, host_id, existing, policy, now as int, None) {
        SlotVerdict::Available => Ok(
            BookingView {
                id,
                event_type_id,
                host_id,
                invitee_email,
                invitee_name,
                time_slot,
                status: BookingStatus::Confirmed,
                notes: None,
                meeting_url: None,
                cancelled_at: None,
                cancel_reason: None,
                created_at: now,
                events: seq![created_event(id)],
            },
        ),
        SlotVerdict::Unavailable(reason) => Err(reason.spec_as_error()),
    }
}

/// A booking that was cancelled at `now` for `reason`: `Cancelled` is final,
/// and a completed or missed booking cannot be cancelled any more.
pub open spec fn spec_cancel(booking: BookingView, reason: Seq<char>, now: i64) -> Result<
    BookingView,
    BookingError,
> {
    match booking.status {
        BookingStatus::Cancelled => Err(BookingError::AlreadyCancelled),
        BookingStatus::Confirmed | BookingStatus::Pending | BookingStatus::Rescheduled => Ok(
            BookingView {
                status: BookingStatus::Cancelled,
                cancelled_at: Some(now),
                cancel_reason: Some(reason),
                events: booking.events.push(cancelled_event(booking.id)),
                ..booking
            },
        ),
        BookingStatus::Completed | BookingStatus::NoShow => Err(BookingError::InvalidTransition),
    }
}

/// A booking that was moved to `new_slot` at `now`: only a confirmed
/// booking can be moved, and only to a slot that the conflict check finds
/// available when the booking itself is left out of `existing`.
pub open spec fn spec_reschedule(
    booking: BookingView,
    new_slot: TimeSlot,
    existing: Seq<BookingView>,
    policy: BookingPolicy,
    now: i64,
) -> Result<BookingView, BookingError> {
    if booking.status != BookingStatus::Confirmed {
        Err(BookingError::InvalidTransition)
    } else {
        match spec_check(
            new_slot,
            booking.event_type_id,
            booking.host_id,
            existing,
            policy,
            now as int,
            Some(booking.id),
        ) {
            SlotVerdict::Available => Ok(
                BookingView {
                    time_slot: new_slot,
                    status: BookingStatus::Rescheduled,
                    events: booking.events.push(rescheduled_event(booking.id)),
                    ..booking
                },
            ),
            SlotVerdict::Unavailable(reason) => Err(reason.spec_as_error()),
        }
    }
}

/// Whether a booking in `status` can be completed or marked as missed.
pub open spec fn can_close(status: BookingStatus) -> bool {
    status == BookingStatus::Confirmed || status == BookingStatus::Rescheduled
}

/// A booking that was completed.
pub open spec fn spec_complete(booking: BookingView) -> Result<BookingView, BookingError> {
    if can_close(booking.status) {
        Ok(
            BookingView {
                status: BookingStatus::Completed,
                events: booking.events.push(completed_event(booking.id)),
                ..booking
            },
        )
    } else {
        Err(BookingError::InvalidTransition)
    }
}

/// A booking whose invitee did not show up.
pub open spec fn spec_mark_no_show(booking: BookingView) -> Result<BookingView, BookingError> {
    if can_close(booking.status) {
        Ok(
            BookingView {
                status: BookingStatus::NoShow,
                events: booking.events.push(no_show_event(booking.id)),
                ..booking
            },
        )
    } else {
        Err(BookingError::InvalidTransition)
    }
}

/// A creation did what `expected` says: it gave the expected booking, or it
/// failed with the expected error.
pub open spec fn created(
    outcome: Result<Booking, BookingError>,
    expected: Result<BookingView, BookingError>,
) -> bool {
    match expected {
        Ok(booking) => outcome is Ok && outcome->Ok_0@ == booking,
        Err(error) => outcome is Err && outcome->Err_0 == error,
    }
}

/// A transition did what `expected` says: it succeeded and left the booking
/// as `expected` holds it, or it failed with the expected error and left the
/// booking as it was.
pub open spec fn applied(
    outcome: Result<(), BookingError>,
    before: BookingView,
    after: BookingView,
    expected: Result<BookingView, BookingError>,
) -> bool {
    match expected {
        Ok(booking) => outcome is Ok && after == booking,
        Err(error) => outcome == Err::<(), BookingError>(error) && after == before,
    }
}

impl Booking {
    /// Books `time_slot` at `now` under the id `id`, if the conflict check
    /// finds the slot available; the new booking is confirmed and has
    /// raised `BookingCreated`.
    pub fn create_at(
        id: String,
        now: i64,
        event_type_id: &str,
        host_id: &str,
        invitee_email: &str,
        invitee_name: &str,
        time_slot: TimeSlot,
        existing: &Vec<Booking>,
        policy: &BookingPolicy,
    ) -> (outcome: Result<Booking, BookingError>)
        requires
            time_slot.is_valid(),
        ensures
            created(
                outcome,
                spec_create(
                    id@,
                    now,
                    event_type_id@,
                    host_id@,
                    invitee_email@,
                    invitee_name@,
                    time_slot,
                    booking_views(existing@),
                    *policy,
                ),
            ),
    {
        match ConflictChecker::check(&time_slot, event_type_id, host_id, existing, policy, now) {
            SlotVerdict::Unavailable(reason) => Err(reason.as_error()),
            SlotVerdict::Available => {
                let mut booking = Booking {
                    id: id.clone(),
                    event_type_id: event_type_id.to_owned(),
                    host_id: host_id.to_owned(),
                    invitee_email: invitee_email.to_owned(),
                    invitee_name: invitee_name.to_owned(),
                    time_slot,
                    status: BookingStatus::Confirmed,
                    notes: None,
                    meeting_url: None,
                    cancelled_at: None,
                    cancel_reason: None,
                    created_at: now,
                    events: Vec::new(),
                };
                proof {
                    assert(event_views(booking.events@) =~= Seq::<DomainEventView>::empty());
                    assert(Seq::<DomainEventView>::empty().push(created_event(id@)) =~= seq![
                        created_event(id@),
                    ]);
                }
                booking.raise_event(
                    DomainEvent::Scheduling(SchedulingEvent::BookingCreated { booking_id: id }),
                );
                Ok(booking)
            },
        }
    }

    /// Books `time_slot` now, under a fresh random id. The time is the
    /// machine's and the id is drawn at random: for the time and the id that
    /// were taken, the outcome is that of `create_at`.
    pub fn create(
        event_type_id: &str,
        host_id: &str,
        invitee_email: &str,
        invitee_name: &str,
        time_slot: TimeSlot,
        existing: &Vec<Booking>,
        policy: &BookingPolicy,
    ) -> (outcome: Result<Booking, BookingError>)
        requires
            time_slot.is_valid(),
        ensures
            exists|id: Seq<char>, now: i64|
                id.len() == 36 && created(
                    outcome,
                    #[trigger] spec_create(
                        id,
                        now,
                        event_type_id@,
                        host_id@,
                        invitee_email@,
                        invitee_name@,
                        time_slot,
                        booking_views(existing@),
                        *policy,
                    ),
                ),
            outcome is Ok ==> outcome->Ok_0@.status == BookingStatus::Confirmed
                && outcome->Ok_0@.time_slot == time_slot && outcome->Ok_0@.events == seq![
                created_event(outcome->Ok_0@.id),
            ],
    {
        let id = fresh_id();
        let now = utc_now();
        Self::create_at(
            id,
            now,
            event_type_id,
            host_id,
            invitee_email,
            invitee_name,
            time_slot,
            existing,
            policy,
        )
    }

    /// The booking that `record` stores, with no event waiting.
    pub fn from_record(record: crate::Booking) -> (booking: Booking)
        requires
            record.start_time < record.end_time,
        ensures
            booking@ == (BookingView {
                id: record.id@,
                event_type_id: record.event_type_id@,
                host_id: record.host_id@,
                invitee_email: record.invitee.email@,
                invitee_name: record.invitee.name@,
                time_slot: TimeSlot { start: record.start_time, end: record.end_time },
                status: spec_status_of(record.status),
                notes: text_of(record.notes),
                meeting_url: text_of(record.meeting_url),
                cancelled_at: record.cancelled_at,
                cancel_reason: text_of(record.cancellation_reason),
                created_at: record.created_at,
                events: Seq::<DomainEventView>::empty(),
            }),
    {
        let status = match record.status {
            crate::BookingStatus::Confirmed => BookingStatus::Confirmed,
            crate::BookingStatus::Pending => BookingStatus::Pending,
            crate::BookingStatus::Cancelled => BookingStatus::Cancelled,
            crate::BookingStatus::Rescheduled => BookingStatus::Rescheduled,
            crate::BookingStatus::NoShow => BookingStatus::NoShow,
            crate::BookingStatus::Completed => BookingStatus::Completed,
        };
        let booking = Booking {
            id: record.id,
            event_type_id: record.event_type_id,
            host_id: record.host_id,
            invitee_email: record.invitee.email,
            invitee_name: record.invitee.name,
            time_slot: TimeSlot { start: record.start_time, end: record.end_time },
            status,
            notes: record.notes,
            meeting_url: record.meeting_url,
            cancelled_at: record.cancelled_at,
            cancel_reason: record.cancellation_reason,
            created_at: record.created_at,
            events: Vec::new(),
        };
        proof {
            assert(event_views(booking.events@) =~= Seq::<DomainEventView>::empty());
        }
        booking
    }

    pub fn id(&self) -> (id: &str)
        ensures
            id@ == self@.id,
    {
        self.id.as_str()
    }

    pub fn event_type_id(&self) -> (id: &str)
        ensures
            id@ == self@.event_type_id,
    {
        self.event_type_id.as_str()
    }

    pub fn host_id(&self) -> (id: &str)
        ensures
            id@ == self@.host_id,
    {
        self.host_id.as_str()
    }

    pub fn invitee_email(&self) -> (email: &str)
        ensures
            email@ == self@.invitee_email,
    {
        self.invitee_email.as_str()
    }

    pub fn invitee_name(&self) -> (name: &str)
        ensures
            name@ == self@.invitee_name,
    {
        self.invitee_name.as_str()
    }

    pub fn time_slot(&self) -> (slot: &TimeSlot)
        ensures
            *slot == self@.time_slot,
    {
        &self.time_slot
    }

    pub fn status(&self) -> (status: &BookingStatus)
        ensures
            *status == self@.status,
    {
        &self.status
    }

    pub fn notes(&self) -> (notes: Option<&str>)
        ensures
            notes is Some <==> self@.notes is Some,
            notes is Some ==> notes->0@ == self@.notes->0,
    {
        match &self.notes {
            Some(text) => Some(text.as_str()),
            None => None,
        }
    }

    pub fn meeting_url(&self) -> (url: Option<&str>)
        ensures
            url is Some <==> self@.meeting_url is Some,
            url is Some ==> url->0@ == self@.meeting_url->0,
    {
        match &self.meeting_url {
            Some(text) => Some(text.as_str()),
            None => None,
        }
    }

    /// When the booking was cancelled, in seconds since
    /// 1970-01-01T00:00:00Z.
    pub fn cancelled_at(&self) -> (at: Option<i64>)
        ensures
            at == self@.cancelled_at,
    {
        self.cancelled_at
    }

    pub fn cancel_reason(&self) -> (reason: Option<&str>)
        ensures
            reason is Some <==> self@.cancel_reason is Some,
            reason is Some ==> reason->0@ == self@.cancel_reason->0,
    {
        match &self.cancel_reason {
            Some(text) => Some(text.as_str()),
            None => None,
        }
    }

    /// When the booking was made, in seconds since 1970-01-01T00:00:00Z.
    pub fn created_at(&self) -> (at: i64)
        ensures
            at == self@.created_at,
    {
        self.created_at
    }

    /// Cancels the booking at `now`.
    pub fn cancel_at(&mut self, reason: &str, now: i64) -> (outcome: Result<(), BookingError>)
        ensures
            applied(outcome, old(self)@, final(self)@, spec_cancel(old(self)@, reason@, now)),
    {
        match self.status {
            BookingStatus::Cancelled => Err(BookingError::AlreadyCancelled),
            BookingStatus::Completed | BookingStatus::NoShow => Err(
                BookingError::InvalidTransition,
            ),
            _ => {
                self.status = BookingStatus::Cancelled;
                self.cancelled_at = Some(now);
                self.cancel_reason = Some(reason.to_owned());
                let id = self.id.clone();
                self.raise_event(
                    DomainEvent::Scheduling(SchedulingEvent::BookingCancelled { booking_id: id }),
                );
                Ok(())
            },
        }
    }

    /// Cancels the booking now, for `reason`. The time is the machine's: for
    /// the time that was taken, the outcome is that of `cancel_at`.
    pub fn cancel(&mut self, reason: &str) -> (outcome: Result<(), BookingError>)
        ensures
            exists|now: i64|
                applied(
                    outcome,
                    old(self)@,
                    final(self)@,
                    #[trigger] spec_cancel(old(self)@, reason@, now),
                ),
            old(self)@.status == BookingStatus::Cancelled ==> outcome == Err::<(), BookingError>(
                BookingError::AlreadyCancelled,
            ) && final(self)@ == old(self)@,
            outcome is Ok ==> final(self)@.status == BookingStatus::Cancelled
                && final(self)@.cancel_reason == Some(reason@) && final(self)@.events == old(
                self,
            )@.events.push(cancelled_event(old(self)@.id)),
    {
        let now = utc_now();
        self.cancel_at(reason, now)
    }

    /// Moves the booking to `new_slot` at `now`, if it is confirmed and the
    /// conflict check finds the new slot available when the booking itself
    /// is left out of `existing`; the booking is then `Rescheduled` and has
    /// raised `BookingRescheduled`. A booking that cannot be moved stays as
    /// it was.
    pub fn reschedule_at(
        &mut self,
        new_slot: TimeSlot,
        existing: &Vec<Booking>,
        policy: &BookingPolicy,
        now: i64,
    ) -> (outcome: Result<(), BookingError>)
        requires
            new_slot.is_valid(),
        ensures
            applied(
                outcome,
                old(self)@,
                final(self)@,
                spec_reschedule(old(self)@, new_slot, booking_views(existing@), *policy, now),
            ),
    {
        match self.status {
            BookingStatus::Confirmed => {},
            _ => {
                return Err(BookingError::InvalidTransition);
            },
        }
        let verdict = ConflictChecker::check_without(
            &new_slot,
            self.event_type_id.as_str(),
            self.host_id.as_str(),
            existing,
            policy,
            now,
            Some(self.id.as_str()),
        );
        match verdict {
            SlotVerdict::Unavailable(reason) => Err(reason.as_error()),
            SlotVerdict::Available => {
                self.time_slot = new_slot;
                self.status = BookingStatus::Rescheduled;
                let id = self.id.clone();
                self.raise_event(
                    DomainEvent::Scheduling(SchedulingEvent::BookingRescheduled { booking_id: id }),
                );
                Ok(())
            },
        }
    }

    /// Moves the booking to `new_slot` now. The time is the machine's: for
    /// the time that was taken, the outcome is that of `reschedule_at`.
    pub fn reschedule(
        &mut self,
        new_slot: TimeSlot,
        existing: &Vec<Booking>,
        policy: &BookingPolicy,
    ) -> (outcome: Result<(), BookingError>)
        requires
            new_slot.is_valid(),
        ensures
            exists|now: i64|
                applied(
                    outcome,
                    old(self)@,
                    final(self)@,
                    #[trigger] spec_reschedule(
                        old(self)@,
                        new_slot,
                        booking_views(existing@),
                        *policy,
                        now,
                    ),
                ),
            old(self)@.status != BookingStatus::Confirmed ==> outcome == Err::<(), BookingError>(
                BookingError::InvalidTransition,
            ) && final(self)@ == old(self)@,
            outcome is Err ==> final(self)@ == old(self)@,
            outcome is Ok ==> final(self)@.status == BookingStatus::Rescheduled
                && final(self)@.time_slot == new_slot && final(self)@.events == old(
                self,
            )@.events.push(rescheduled_event(old(self)@.id)),
    {
        let now = utc_now();
        self.reschedule_at(new_slot, existing, policy, now)
    }

    /// Marks the booking as completed: it must be confirmed or rescheduled.
    /// It then has raised `BookingCompleted`.
    pub fn complete(&mut self) -> (outcome: Result<(), BookingError>)
        ensures
            applied(outcome, old(self)@, final(self)@, spec_complete(old(self)@)),
    {
        match self.status {
            BookingStatus::Confirmed | BookingStatus::Rescheduled => {
                self.status = BookingStatus::Completed;
                let id = self.id.clone();
                self.raise_event(
                    DomainEvent::Scheduling(SchedulingEvent::BookingCompleted { booking_id: id }),
                );
                Ok(())
            },
            _ => Err(BookingError::InvalidTransition),
        }
    }

    /// Marks the booking as missed by its invitee: it must be confirmed or
    /// rescheduled. It then has raised `BookingNoShow`.
    pub fn mark_no_show(&mut self) -> (outcome: Result<(), BookingError>)
        ensures
            applied(outcome, old(self)@, final(self)@, spec_mark_no_show(old(self)@)),
    {
        match self.status {
            BookingStatus::Confirmed | BookingStatus::Rescheduled => {
                self.status = BookingStatus::NoShow;
                let id = self.id.clone();
                self.raise_event(
                    DomainEvent::Scheduling(SchedulingEvent::BookingNoShow { booking_id: id }),
                );
                Ok(())
            },
            _ => Err(BookingError::InvalidTransition),
        }
    }

    /// Hands out the events that wait, oldest first, and leaves none.
    pub fn take_events(&mut self) -> (events: Vec<DomainEvent>)
        ensures
            event_views(events@) == old(self)@.events,
            final(self)@ == (BookingView { events: Seq::<DomainEventView>::empty(), ..old(self)@ }),
    {
        let mut events: Vec<DomainEvent> = Vec::new();
        std::mem::swap(&mut self.events, &mut events);
        proof {
            assert(event_views(self.events@) =~= Seq::<DomainEventView>::empty());
        }
        events
    }

    fn raise_event(&mut self, event: DomainEvent)
        ensures
            final(self)@ == (BookingView {
                events: old(self)@.events.push(event@),
                ..old(self)@
            }),
    {
        proof {
            self.events@.lemma_push_map_commute(|e: DomainEvent| e@, event);
        }
        self.events.push(event);
    }

    pub(crate) fn has_id(&self, id: &String) -> (same: bool)
        ensures
            same == (self@.id == id@),
    {
        self.id == *id
    }

    pub(crate) fn is_of_event_type(&self, event_type_id: &String) -> (same: bool)
        ensures
            same == (self@.event_type_id == event_type_id@),
    {
        self.event_type_id == *event_type_id
    }

    pub(crate) fn is_hosted_by(&self, host_id: &String) -> (same: bool)
        ensures
            same == (self@.host_id == host_id@),
    {
        self.host_id == *host_id
    }
}

/// `Cancelled` is final: no transition of a cancelled booking succeeds.
/// Cancelling it again fails with `AlreadyCancelled`, every other
/// transition with `InvalidTransition`.
pub proof fn lemma_cancelled_is_terminal(
    booking: BookingView,
    reason: Seq<char>,
    new_slot: TimeSlot,
    existing: Seq<BookingView>,
    policy: BookingPolicy,
    now: i64,
)
    requires
        booking.status == BookingStatus::Cancelled,
    ensures
        spec_cancel(booking, reason, now) == Err::<BookingView, BookingError>(
            BookingError::AlreadyCancelled,
        ),
        spec_reschedule(booking, new_slot, existing, policy, now) == Err::<
            BookingView,
            BookingError,
        >(BookingError::InvalidTransition),
        spec_complete(booking) == Err::<BookingView, BookingError>(BookingError::InvalidTransition),
        spec_mark_no_show(booking) == Err::<BookingView, BookingError>(
            BookingError::InvalidTransition,
        ),
{
}

/// No transition leads to `Confirmed`: a booking that has left it does not
/// come back.
pub proof fn lemma_no_way_back_to_confirmed(
    booking: BookingView,
    reason: Seq<char>,
    new_slot: TimeSlot,
    existing: Seq<BookingView>,
    policy: BookingPolicy,
    now: i64,
)
    ensures
        spec_cancel(booking, reason, now) is Ok ==> spec_cancel(booking, reason, now)->Ok_0.status
            == BookingStatus::Cancelled,
        spec_reschedule(booking, new_slot, existing, policy, now) is Ok ==> spec_reschedule(
            booking,
            new_slot,
            existing,
            policy,
            now,
        )->Ok_0.status == BookingStatus::Rescheduled,
        spec_complete(booking) is Ok ==> spec_complete(booking)->Ok_0.status
            == BookingStatus::Completed,
        spec_mark_no_show(booking) is Ok ==> spec_mark_no_show(booking)->Ok_0.status
            == BookingStatus::NoShow,
{
}

/// Every transition that succeeds adds exactly one event behind those that
/// wait, and a new booking holds exactly one.
pub proof fn lemma_one_event_per_transition(
    booking: BookingView,
    reason: Seq<char>,
    new_slot: TimeSlot,
    existing: Seq<BookingView>,
    policy: BookingPolicy,
    now: i64,
)
    ensures
        spec_cancel(booking, reason, now) is Ok ==> spec_cancel(
            booking,
            reason,
            now,
        )->Ok_0.events.drop_last() == booking.events,
        spec_reschedule(booking, new_slot, existing, policy, now) is Ok ==> spec_reschedule(
            booking,
            new_slot,
            existing,
            policy,
            now,
        )->Ok_0.events.drop_last() == booking.events,
        spec_complete(booking) is Ok ==> spec_complete(booking)->Ok_0.events.drop_last()
            == booking.events,
        spec_mark_no_show(booking) is Ok ==> spec_mark_no_show(booking)->Ok_0.events.drop_last()
            == booking.events,
        spec_create(
            booking.id,
            now,
            booking.event_type_id,
            booking.host_id,
            booking.invitee_email,
            booking.invitee_name,
            new_slot,
            existing,
            policy,
        ) is Ok ==> spec_create(
            booking.id,
            now,
            booking.event_type_id,
            booking.host_id,
            booking.invitee_email,
            booking.invitee_name,
            new_slot,
            existing,
            policy,
        )->Ok_0.events.len() == 1,
{
    let pushed = booking.events.push(cancelled_event(booking.id));
    let moved = booking.events.push(rescheduled_event(booking.id));
    let done = booking.events.push(completed_event(booking.id));
    let missed = booking.events.push(no_show_event(booking.id));
}

} // verus!
