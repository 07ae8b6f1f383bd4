//! The scheduling domain: value objects, aggregates and their events, and
//! the rules that resolve availability, generate slots and check conflicts.

pub mod aggregates;
pub mod conflicts;
pub mod events;
pub mod listing;
pub mod resolver;
pub mod slots;
mod system;
pub mod value_objects;

pub use aggregates::{Booking, BookingError, BookingStatus, EventType};
pub use conflicts::{BookingPolicy, ConflictChecker, SlotVerdict, UnavailableReason};
pub use events::{DomainEvent, SchedulingEvent};
pub use resolver::AvailabilityResolver;
pub use slots::SlotGenerator;
pub use value_objects::{
    Availability, AvailabilitySchedule, CalendarDate, DateOverride, TimeSlot, Weekday,
};
