//! Domain events: what a booking reports of each transition it has made.

use vstd::prelude::*;

verus! {

/// What happened in the domain.
#[derive(Clone, Debug)]
pub enum DomainEvent {
    Scheduling(SchedulingEvent),
}

/// What happened to a booking. A booking raises one event with each
/// transition that it makes; reminders are raised by who sends them.
#[derive(Clone, Debug)]
pub enum SchedulingEvent {
    BookingCreated { booking_id: String },
    BookingCancelled { booking_id: String },
    BookingRescheduled { booking_id: String },
    ReminderSent { booking_id: String },
    BookingCompleted { booking_id: String },
    BookingNoShow { booking_id: String },
}

/// A scheduling event with its booking's id as text.
pub enum SchedulingEventView {
    BookingCreated { booking_id: Seq<char> },
    BookingCancelled { booking_id: Seq<char> },
    BookingRescheduled { booking_id: Seq<char> },
    ReminderSent { booking_id: Seq<char> },
    BookingCompleted { booking_id: Seq<char> },
    BookingNoShow { booking_id: Seq<char> },
}

/// A domain event with its booking's id as text.
pub enum DomainEventView {
    Scheduling(SchedulingEventView),
}

impl View for SchedulingEvent {
    type V = SchedulingEventView;

    open spec fn view(&self) -> SchedulingEventView {
        match *self {
            SchedulingEvent::BookingCreated { booking_id } => SchedulingEventView::BookingCreated {
                booking_id: booking_id@,
            },
            SchedulingEvent::BookingCancelled {
                booking_id,
            } => SchedulingEventView::BookingCancelled { booking_id: booking_id@ },
            SchedulingEvent::BookingRescheduled {
                booking_id,
            } => SchedulingEventView::BookingRescheduled { booking_id: booking_id@ },
            SchedulingEvent::ReminderSent { booking_id } => SchedulingEventView::ReminderSent {
                booking_id: booking_id@,
            },
            SchedulingEvent::BookingCompleted {
                booking_id,
            } => SchedulingEventView::BookingCompleted { booking_id: booking_id@ },
            SchedulingEvent::BookingNoShow { booking_id } => SchedulingEventView::BookingNoShow {
                booking_id: booking_id@,
            },
        }
    }
}

impl View for DomainEvent {
    type V = DomainEventView;

    open spec fn view(&self) -> DomainEventView {
        match *self {
            DomainEvent::Scheduling(event) => DomainEventView::Scheduling(event@),
        }
    }
}

/// The events of a queue, each by its view.
pub open spec fn event_views(events: Seq<DomainEvent>) -> Seq<DomainEventView> {
    events.map_values(|event: DomainEvent| event@)
}

impl SchedulingEvent {
    /// The id of the booking that the event is about.
    pub fn booking_id(&self) -> (id: &str)
        ensures
            id@ == match self@ {
                SchedulingEventView::BookingCreated { booking_id } => booking_id,
                SchedulingEventView::BookingCancelled { booking_id } => booking_id,
                SchedulingEventView::BookingRescheduled { booking_id } => booking_id,
                SchedulingEventView::ReminderSent { booking_id } => booking_id,
                SchedulingEventView::BookingCompleted { booking_id } => booking_id,
                SchedulingEventView::BookingNoShow { booking_id } => booking_id,
            },
    {
        match self {
            SchedulingEvent::BookingCreated { booking_id } => booking_id.as_str(),
            SchedulingEvent::BookingCancelled { booking_id } => booking_id.as_str(),
            SchedulingEvent::BookingRescheduled { booking_id } => booking_id.as_str(),
            SchedulingEvent::ReminderSent { booking_id } => booking_id.as_str(),
            SchedulingEvent::BookingCompleted { booking_id } => booking_id.as_str(),
            SchedulingEvent::BookingNoShow { booking_id } => booking_id.as_str(),
        }
    }
}

} // verus!
