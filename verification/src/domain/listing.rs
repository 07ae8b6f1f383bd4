//! Slot listings: what an event type offers on one date.
//!
//! A listing resolves the schedule for the date, cuts the open intervals
//! into candidates and checks each of them.

use crate::domain::aggregates::{booking_views, Booking, BookingView, EventType};
use crate::domain::conflicts::{spec_check, BookingPolicy, ConflictChecker, SlotVerdict};
use crate::domain::resolver::{spec_resolve, AvailabilityResolver};
use crate::domain::slots::{grid_of, spec_generate, SlotGenerator};
use crate::domain::value_objects::{AvailabilitySchedule, CalendarDate, TimeSlot};
use crate::{BookingLimits, SchedulingError};
use vstd::prelude::*;

verus! {

/// The candidates that a schedule gives on `date` to an event type of the
/// given duration and buffers, in minutes, stepping by the duration.
pub open spec fn spec_candidates(
    schedule: AvailabilitySchedule,
    date: CalendarDate,
    duration_minutes: u32,
    buffer_before_minutes: u32,
    buffer_after_minutes: u32,
) -> Seq<TimeSlot> {
    spec_generate(
        spec_resolve(schedule, date),
        grid_of(duration_minutes, buffer_before_minutes, buffer_after_minutes, None),
    )
}

/// Whether the conflict check finds a slot available.
pub open spec fn bookable(
    event_type_id: Seq<char>,
    host_id: Seq<char>,
    existing: Seq<BookingView>,
    policy: BookingPolicy,
    now: int,
) -> spec_fn(TimeSlot) -> bool {
    |slot: TimeSlot|
        spec_check(slot, event_type_id, host_id, existing, policy, now, None)
            == SlotVerdict::Available
}

/// A slot as a listing shows it: with the finding of the conflict check.
pub open spec fn flagged(
    event_type_id: Seq<char>,
    host_id: Seq<char>,
    existing: Seq<BookingView>,
    policy: BookingPolicy,
    now: int,
) -> spec_fn(TimeSlot) -> crate::TimeSlot {
    |slot: TimeSlot|
        crate::TimeSlot {
            start: slot.start,
            end: slot.end,
            available: bookable(event_type_id, host_id, existing, policy, now)(slot),
        }
}

impl EventType {
    /// The candidate slots of `date`, whether free or taken. An event type
    /// without schedule has none to list: `ScheduleNotFound`.
    pub fn candidate_slots(&self, date: CalendarDate) -> (outcome: Result<
        Vec<TimeSlot>,
        SchedulingError,
    >)
        ensures
            self@.availability is None ==> outcome is Err && outcome->Err_0 is ScheduleNotFound,
            self@.availability is Some ==> outcome is Ok && outcome->Ok_0@ == spec_candidates(
                self@.availability->0,
                date,
                self@.duration_minutes,
                self@.buffer_before,
                self@.buffer_after,
            ),
    {
        match self.availability() {
            None => Err(SchedulingError::ScheduleNotFound),
            Some(schedule) => {
                let open = AvailabilityResolver::resolve(schedule, date);
                Ok(
                    SlotGenerator::generate(
                        &open,
                        self.duration(),
                        self.buffer_before(),
                        self.buffer_after(),
                        None,
                    ),
                )
            },
        }
    }

    /// The candidate slots of `date`, each with the finding of the conflict check at
    /// `now` under the event type's policy for `limits`.
    pub fn list_slots(
        &self,
        date: CalendarDate,
        existing: &Vec<Booking>,
        limits: BookingLimits,
        now: i64,
    ) -> (outcome: Result<Vec<crate::TimeSlot>, SchedulingError>)
        ensures
            self@.availability is None ==> outcome is Err && outcome->Err_0 is ScheduleNotFound,
            self@.availability is Some ==> outcome is Ok && outcome->Ok_0@ == spec_candidates(
                self@.availability->0,
                date,
                self@.duration_minutes,
                self@.buffer_before,
                self@.buffer_after,
            ).map_values(
                flagged(
                    self@.id,
                    self@.host_id,
                    booking_views(existing@),
                    self@.policy(limits),
                    now as int,
                ),
            ),
    {
        let candidates = match self.candidate_slots(date) {
            Ok(candidates) => candidates,
            Err(error) => {
                return Err(error);
            },
        };
        let policy = self.policy(limits);
        let ghost flag = flagged(
            self@.id,
            self@.host_id,
            booking_views(existing@),
            policy,
            now as int,
        );
        let mut listed: Vec<crate::TimeSlot> = Vec::new();
        let n: usize = candidates.len();
        let mut i: usize = 0;
        while i < n
            invariant
                n == candidates@.len(),
                i <= n,
                policy == self@.policy(limits),
                flag == flagged(
                    self@.id,
                    self@.host_id,
                    booking_views(existing@),
                    policy,
                    now as int,
                ),
                listed@ == candidates@.take(i as int).map_values(flag),
            decreases n - i,
        {
            let slot: TimeSlot = candidates[i];
            let verdict = ConflictChecker::check(
                &slot,
                self.id(),
                self.host_id(),
                existing,
                &policy,
                now,
            );
            let available: bool = match verdict {
                SlotVerdict::Available => true,
                SlotVerdict::Unavailable(_) => false,
            };
            proof {
                candidates@.lemma_map_take_succ(flag, i as int);
            }
            listed.push(crate::TimeSlot { start: slot.start, end: slot.end, available });
            i = i + 1;
        }
        Ok(listed)
    }

    /// The slots of `date` that can still be booked at `now` under the event
    /// type's policy for `limits`: the candidates that the conflict check finds
    /// available, in their order.
    pub fn available_slots(
        &self,
        date: CalendarDate,
        existing: &Vec<Booking>,
        limits: BookingLimits,
        now: i64,
    ) -> (outcome: Result<Vec<TimeSlot>, SchedulingError>)
        ensures
            self@.availability is None ==> outcome is Err && outcome->Err_0 is ScheduleNotFound,
            self@.availability is Some ==> outcome is Ok && outcome->Ok_0@ == spec_candidates(
                self@.availability->0,
                date,
                self@.duration_minutes,
                self@.buffer_before,
                self@.buffer_after,
            ).filter(
                bookable(
                    self@.id,
                    self@.host_id,
                    booking_views(existing@),
                    self@.policy(limits),
                    now as int,
                ),
            ),
    {
        let candidates = match self.candidate_slots(date) {
            Ok(candidates) => candidates,
            Err(error) => {
                return Err(error);
            },
        };
        let policy = self.policy(limits);
        let ghost free = bookable(
            self@.id,
            self@.host_id,
            booking_views(existing@),
            policy,
            now as int,
        );
        let mut open: Vec<TimeSlot> = Vec::new();
        let n: usize = candidates.len();
        let mut i: usize = 0;
        proof {
            assert(candidates@.take(0).filter(free) =~= Seq::<TimeSlot>::empty()) by {
                reveal(Seq::filter);
            }
        }
        while i < n
            invariant
                n == candidates@.len(),
                i <= n,
                policy == self@.policy(limits),
                free == bookable(
                    self@.id,
                    self@.host_id,
                    booking_views(existing@),
                    policy,
                    now as int,
                ),
                open@ == candidates@.take(i as int).filter(free),
            decreases n - i,
        {
            let slot: TimeSlot = candidates[i];
            let verdict = ConflictChecker::check(
                &slot,
                self.id(),
                self.host_id(),
                existing,
                &policy,
                now,
            );
            proof {
                assert(candidates@.take(i as int + 1) =~= candidates@.take(i as int).push(slot));
                candidates@.take(i as int).lemma_filter_push(slot, free);
            }
            match verdict {
                SlotVerdict::Available => {
                    open.push(slot);
                },
                SlotVerdict::Unavailable(_) => {},
            }
            i = i + 1;
        }
        proof {
            assert(candidates@.take(n as int) =~= candidates@);
        }
        Ok(open)
    }
}

} // verus!
