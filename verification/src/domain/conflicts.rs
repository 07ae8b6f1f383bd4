//! Conflict checking: whether a candidate slot can be booked.
//!
//! Three rules are tried in order, and the first that fails decides: the
//! notice, the host's other bookings, the limits of the event type.
//!
//! The buffers of the event type that is being booked widen the candidate
//! and every booking of the host alike, whatever event type that booking is
//! for. The day and the week of a booking are those of its slot's start.
//! Every booking that is not cancelled counts.

use crate::domain::aggregates::{booking_views, Booking, BookingError, BookingStatus, BookingView};
use crate::domain::value_objects::{
    day_index, spec_day_index, spec_week_index, week_index, TimeSlot, SECONDS_PER_HOUR,
    SECONDS_PER_MINUTE,
};
use crate::BookingLimits;
use vstd::prelude::*;

verus! {

/// What an event type demands of a booking: the buffers in minutes that keep
/// bookings apart, and its limits.
#[derive(Clone, Copy, Debug, PartialEq, Eq, Structural)]
pub struct BookingPolicy {
    pub buffer_before_minutes: u32,
    pub buffer_after_minutes: u32,
    pub limits: BookingLimits,
}

impl Default for BookingPolicy {
    fn default() -> (policy: Self)
        ensures
            policy == (BookingPolicy {
                buffer_before_minutes: 0,
                buffer_after_minutes: 0,
                limits: BookingLimits {
                    min_notice_hours: 0,
                    max_future_days: 0,
                    max_per_day: None,
                    max_per_week: None,
                },
            }),
    {
        BookingPolicy {
            buffer_before_minutes: 0,
            buffer_after_minutes: 0,
            limits: BookingLimits::default(),
        }
    }
}

/// Why a candidate cannot be booked.
#[derive(Clone, Copy, Debug, PartialEq, Eq, Structural)]
pub enum UnavailableReason {
    TooShortNotice,
    SlotNotAvailable,
    BookingLimitReached,
}

impl UnavailableReason {
    /// The error with which a booking fails for this reason.
    pub open spec fn spec_as_error(self) -> BookingError {
        match self {
            UnavailableReason::TooShortNotice => BookingError::TooShortNotice,
            UnavailableReason::SlotNotAvailable => BookingError::SlotNotAvailable,
            UnavailableReason::BookingLimitReached => BookingError::BookingLimitReached,
        }
    }

    /// The error with which a booking fails for this reason.
    #[verifier::when_used_as_spec(spec_as_error)]
    pub fn as_error(self) -> (error: BookingError)
        ensures
            error == self.spec_as_error(),
    {
        match self {
            UnavailableReason::TooShortNotice => BookingError::TooShortNotice,
            UnavailableReason::SlotNotAvailable => BookingError::SlotNotAvailable,
            UnavailableReason::BookingLimitReached => BookingError::BookingLimitReached,
        }
    }
}

/// What the conflict check finds of a candidate.
#[derive(Clone, Copy, Debug, PartialEq, Eq, Structural)]
pub enum SlotVerdict {
    Available,
    Unavailable(UnavailableReason),
}

/// The earliest start that the notice allows at `now`.
pub open spec fn notice_deadline(now: int, limits: BookingLimits) -> int {
    now + limits.min_notice_hours * SECONDS_PER_HOUR
}

/// `slot` and `other`, each widened by `before` seconds at its start and by
/// `after` seconds at its end, overlap.
pub open spec fn buffered_overlap(slot: TimeSlot, other: TimeSlot, before: int, after: int) -> bool {
    slot.start - before < other.end + after && other.start - before < slot.end + after
}

/// The booking counts: it is not cancelled, and it is not the one left out.
pub open spec fn is_live(booking: BookingView, skip: Option<Seq<char>>) -> bool {
    booking.status != BookingStatus::Cancelled && (skip is Some ==> booking.id != skip->0)
}

/// The booking keeps the host from taking `candidate`.
pub open spec fn blocks(
    booking: BookingView,
    candidate: TimeSlot,
    host_id: Seq<char>,
    policy: BookingPolicy,
    skip: Option<Seq<char>>,
) -> bool {
    &&& is_live(booking, skip)
    &&& booking.host_id == host_id
    &&& buffered_overlap(
        candidate,
        booking.time_slot,
        policy.buffer_before_minutes * SECONDS_PER_MINUTE,
        policy.buffer_after_minutes * SECONDS_PER_MINUTE,
    )
}

/// Some booking of `existing` keeps the host from taking `candidate`.
pub open spec fn has_conflict(
    existing: Seq<BookingView>,
    candidate: TimeSlot,
    host_id: Seq<char>,
    policy: BookingPolicy,
    skip: Option<Seq<char>>,
) -> bool {
    exists|i: int|
        0 <= i < existing.len() && blocks(#[trigger] existing[i], candidate, host_id, policy, skip)
}

/// The bookings of the event type that count and start on calendar day
/// `day`.
pub open spec fn on_day(event_type_id: Seq<char>, day: int, skip: Option<Seq<char>>) -> spec_fn(
    BookingView,
) -> bool {
    |booking: BookingView|
        is_live(booking, skip) && booking.event_type_id == event_type_id && spec_day_index(
            booking.time_slot.start as int,
        ) == day
}

/// The bookings of the event type that count and start in ISO week `week`.
pub open spec fn in_week(event_type_id: Seq<char>, week: int, skip: Option<Seq<char>>) -> spec_fn(
    BookingView,
) -> bool {
    |booking: BookingView|
        is_live(booking, skip) && booking.event_type_id == event_type_id && spec_week_index(
            booking.time_slot.start as int,
        ) == week
}

/// How many bookings of the event type count on the day on which
/// `candidate` starts.
pub open spec fn bookings_that_day(
    existing: Seq<BookingView>,
    candidate: TimeSlot,
    event_type_id: Seq<char>,
    skip: Option<Seq<char>>,
) -> nat {
    existing.filter(on_day(event_type_id, spec_day_index(candidate.start as int), skip)).len()
}

/// How many bookings of the event type count in the ISO week in which
/// `candidate` starts.
pub open spec fn bookings_that_week(
    existing: Seq<BookingView>,
    candidate: TimeSlot,
    event_type_id: Seq<char>,
    skip: Option<Seq<char>>,
) -> nat {
    existing.filter(in_week(event_type_id, spec_week_index(candidate.start as int), skip)).len()
}

/// One booking more would exceed the day's or the week's limit.
pub open spec fn limit_reached(
    existing: Seq<BookingView>,
    candidate: TimeSlot,
    event_type_id: Seq<char>,
    limits: BookingLimits,
    skip: Option<Seq<char>>,
) -> bool {
    ||| limits.max_per_day is Some && bookings_that_day(existing, candidate, event_type_id, skip)
        + 1 > limits.max_per_day->0
    ||| limits.max_per_week is Some && bookings_that_week(existing, candidate, event_type_id, skip)
        + 1 > limits.max_per_week->0
}

/// What the conflict check finds of `candidate` at `now`, the booking with id
/// `skip` left out of `existing`.
pub open spec fn spec_check(
    candidate: TimeSlot,
    event_type_id: Seq<char>,
    host_id: Seq<char>,
    existing: Seq<BookingView>,
    policy: BookingPolicy,
    now: int,
    skip: Option<Seq<char>>,
) -> SlotVerdict {
    if candidate.start < notice_deadline(now, policy.limits) {
        SlotVerdict::Unavailable(UnavailableReason::TooShortNotice)
    } else if has_conflict(existing, candidate, host_id, policy, skip) {
        SlotVerdict::Unavailable(UnavailableReason::SlotNotAvailable)
    } else if limit_reached(existing, candidate, event_type_id, policy.limits, skip) {
        SlotVerdict::Unavailable(UnavailableReason::BookingLimitReached)
    } else {
        SlotVerdict::Available
    }
}

/// The id that a check leaves out, as text.
pub open spec fn skipped(skip: Option<&str>) -> Option<Seq<char>> {
    match skip {
        Some(id) => Some(id@),
        None => None,
    }
}

/// Decides whether a candidate slot can be booked. It reads the bookings
/// and changes nothing.
pub struct ConflictChecker;

impl ConflictChecker {
    fn live(booking: &Booking, skip: &Option<String>) -> (live: bool)
        ensures
            live == is_live(
                booking@,
                match *skip {
                    Some(id) => Some(id@),
                    None => None,
                },
            ),
    {
        match booking.status() {
            BookingStatus::Cancelled => false,
            _ => match skip {
                Some(id) => !booking.has_id(id),
                None => true,
            },
        }
    }

    fn overlaps_buffered(slot: &TimeSlot, other: &TimeSlot, before: i64, after: i64) -> (hit: bool)
        requires
            0 <= before <= u32::MAX * SECONDS_PER_MINUTE,
            0 <= after <= u32::MAX * SECONDS_PER_MINUTE,
        ensures
            hit == buffered_overlap(*slot, *other, before as int, after as int),
    {
        let before: i128 = before as i128;
        let after: i128 = after as i128;
        slot.start as i128 - before < other.end as i128 + after && other.start as i128 - before
            < slot.end as i128 + after
    }

    /// What `check` finds, the booking with id `skip` left out of
    /// `existing`: a booking that is moved does not stand in its own way.
    pub fn check_without(
        candidate: &TimeSlot,
        event_type_id: &str,
        host_id: &str,
        existing: &Vec<Booking>,
        policy: &BookingPolicy,
        now: i64,
        skip: Option<&str>,
    ) -> (verdict: SlotVerdict)
        ensures
            verdict == spec_check(
                *candidate,
                event_type_id@,
                host_id@,
                booking_views(existing@),
                *policy,
                now as int,
                skipped(skip),
            ),
    {
        let deadline: i128 = now as i128 + policy.limits.min_notice_hours as i128
            * SECONDS_PER_HOUR as i128;
        if (candidate.start as i128) < deadline {
            return SlotVerdict::Unavailable(UnavailableReason::TooShortNotice);
        }
        let host: String = host_id.to_owned();
        let event_type: String = event_type_id.to_owned();
        let skip_id: Option<String> = match skip {
            Some(id) => Some(id.to_owned()),
            None => None,
        };
        let before: i64 = policy.buffer_before_minutes as i64 * SECONDS_PER_MINUTE;
        let after: i64 = policy.buffer_after_minutes as i64 * SECONDS_PER_MINUTE;
        let day: i64 = day_index(candidate.start);
        let week: i64 = week_index(candidate.start);
        let ghost views = booking_views(existing@);
        let ghost left_out = skipped(skip);
        let ghost same_day = on_day(event_type_id@, day as int, left_out);
        let ghost same_week = in_week(event_type_id@, week as int, left_out);
        let n: usize = existing.len();
        let mut that_day: usize = 0;
        let mut that_week: usize = 0;
        let mut conflict: bool = false;
        let mut i: usize = 0;
        proof {
            assert(views.take(0).filter(same_day) =~= Seq::<BookingView>::empty()) by {
                reveal(Seq::filter);
            }
            assert(views.take(0).filter(same_week) =~= Seq::<BookingView>::empty()) by {
                reveal(Seq::filter);
            }
        }
        while i < n
            invariant
                n == existing@.len(),
                i <= n,
                views == booking_views(existing@),
                left_out == skipped(skip),
                left_out == match skip_id {
                    Some(id) => Some(id@),
                    None => None,
                },
                host@ == host_id@,
                event_type@ == event_type_id@,
                before == policy.buffer_before_minutes * SECONDS_PER_MINUTE,
                after == policy.buffer_after_minutes * SECONDS_PER_MINUTE,
                day == spec_day_index(candidate.start as int),
                week == spec_week_index(candidate.start as int),
                same_day == on_day(event_type_id@, day as int, left_out),
                same_week == in_week(event_type_id@, week as int, left_out),
                that_day == views.take(i as int).filter(same_day).len(),
                that_week == views.take(i as int).filter(same_week).len(),
                that_day <= i,
                that_week <= i,
                conflict == has_conflict(views.take(i as int), *candidate, host_id@, *policy, left_out),
            decreases n - i,
        {
            let booking = &existing[i];
            let ghost head = views.take(i as int);
            proof {
                assert(views.take(i as int + 1) =~= head.push(booking@));
                head.lemma_filter_push(booking@, same_day);
                head.lemma_filter_push(booking@, same_week);
            }
            let live = Self::live(booking, &skip_id);
            let slot = booking.time_slot();
            if live && booking.is_hosted_by(&host) && Self::overlaps_buffered(
                candidate,
                slot,
                before,
                after,
            ) {
                conflict = true;
            }
            if live && booking.is_of_event_type(&event_type) {
                if day_index(slot.start) == day {
                    that_day = that_day + 1;
                }
                if week_index(slot.start) == week {
                    that_week = that_week + 1;
                }
            }
            proof {
                let next = head.push(booking@);
                if has_conflict(head, *candidate, host_id@, *policy, left_out) {
                    let w = choose|w: int|
                        0 <= w < head.len() && blocks(
                            #[trigger] head[w],
                            *candidate,
                            host_id@,
                            *policy,
                            left_out,
                        );
                    assert(next[w] == head[w]);
                } else if blocks(booking@, *candidate, host_id@, *policy, left_out) {
                    assert(next[i as int] == booking@);
                } else {
                    assert forall|w: int| 0 <= w < next.len() implies !blocks(
                        #[trigger] next[w],
                        *candidate,
                        host_id@,
                        *policy,
                        left_out,
                    ) by {
                        if w < i {
                            assert(next[w] == head[w]);
                        }
                    }
                }
            }
            i = i + 1;
        }
        proof {
            assert(views.take(n as int) =~= views);
        }
        if conflict {
            return SlotVerdict::Unavailable(UnavailableReason::SlotNotAvailable);
        }
        let day_full: bool = match policy.limits.max_per_day {
            Some(most) => that_day >= most as usize,
            None => false,
        };
        let week_full: bool = match policy.limits.max_per_week {
            Some(most) => that_week >= most as usize,
            None => false,
        };
        if day_full || week_full {
            SlotVerdict::Unavailable(UnavailableReason::BookingLimitReached)
        } else {
            SlotVerdict::Available
        }
    }

    /// Whether `slot` still lies ahead at `now`: a slot whose start has
    /// elapsed is refused with `PastTime`.
    pub fn ensure_upcoming(slot: &TimeSlot, now: i64) -> (outcome: Result<(), BookingError>)
        ensures
            slot.start < now ==> outcome == Err::<(), BookingError>(BookingError::PastTime),
            slot.start >= now ==> outcome is Ok,
    {
        if slot.start < now {
            Err(BookingError::PastTime)
        } else {
            Ok(())
        }
    }

    /// Whether `candidate` can be booked at `now` for the event type and the
    /// host, given the bookings that exist.
    ///
    /// - `TooShortNotice`: the candidate starts before `now` plus the hours
    ///   of notice.
    /// - `SlotNotAvailable`: the candidate, widened by the buffers, overlaps
    ///   a booking of the host that is not cancelled, widened alike.
    /// - `BookingLimitReached`: with one booking more, the bookings of the
    ///   event type that are not cancelled would exceed the limit of the
    ///   candidate's calendar day or of its ISO week.
    pub fn check(
        candidate: &TimeSlot,
        event_type_id: &str,
        host_id: &str,
        existing: &Vec<Booking>,
        policy: &BookingPolicy,
        now: i64,
    ) -> (verdict: SlotVerdict)
        ensures
            verdict == spec_check(
                *candidate,
                event_type_id@,
                host_id@,
                booking_views(existing@),
                *policy,
                now as int,
                None,
            ),
    {
        Self::check_without(candidate, event_type_id, host_id, existing, policy, now, None)
    }
}

/// The finding of a conflict check depends on what it is given and on nothing else:
/// two findings for the same candidate, bookings, policy and time are the
/// same.
pub proof fn lemma_check_is_repeatable(
    candidate: TimeSlot,
    event_type_id: Seq<char>,
    host_id: Seq<char>,
    existing: Seq<BookingView>,
    policy: BookingPolicy,
    now: int,
    skip: Option<Seq<char>>,
    first: SlotVerdict,
    second: SlotVerdict,
)
    requires
        first == spec_check(candidate, event_type_id, host_id, existing, policy, now, skip),
        second == spec_check(candidate, event_type_id, host_id, existing, policy, now, skip),
    ensures
        first == second,
{
}

/// The rules are tried in order: short notice decides before any conflict,
/// and a conflict before any limit.
pub proof fn lemma_first_failure_wins(
    candidate: TimeSlot,
    event_type_id: Seq<char>,
    host_id: Seq<char>,
    existing: Seq<BookingView>,
    policy: BookingPolicy,
    now: int,
    skip: Option<Seq<char>>,
)
    ensures
        candidate.start < notice_deadline(now, policy.limits) ==> spec_check(
            candidate,
            event_type_id,
            host_id,
            existing,
            policy,
            now,
            skip,
        ) == SlotVerdict::Unavailable(UnavailableReason::TooShortNotice),
        candidate.start >= notice_deadline(now, policy.limits) && has_conflict(
            existing,
            candidate,
            host_id,
            policy,
            skip,
        ) ==> spec_check(candidate, event_type_id, host_id, existing, policy, now, skip)
            == SlotVerdict::Unavailable(UnavailableReason::SlotNotAvailable),
        spec_check(candidate, event_type_id, host_id, existing, policy, now, skip)
            == SlotVerdict::Available <==> candidate.start >= notice_deadline(now, policy.limits)
            && !has_conflict(existing, candidate, host_id, policy, skip) && !limit_reached(
            existing,
            candidate,
            event_type_id,
            policy.limits,
            skip,
        ),
{
}

/// Without buffers a booking of the host that is not cancelled stands in the
/// way of a candidate exactly when their slots overlap.
pub proof fn lemma_conflict_without_buffers(
    booking: BookingView,
    candidate: TimeSlot,
    policy: BookingPolicy,
)
    requires
        policy.buffer_before_minutes == 0,
        policy.buffer_after_minutes == 0,
        booking.status != BookingStatus::Cancelled,
    ensures
        blocks(booking, candidate, booking.host_id, policy, None) == candidate.spec_overlaps(
            &booking.time_slot,
        ),
{
}

/// A candidate that is found available overlaps no booking of the host that
/// counts: what the check lets through cannot book the host twice.
pub proof fn lemma_available_means_free(
    candidate: TimeSlot,
    event_type_id: Seq<char>,
    host_id: Seq<char>,
    existing: Seq<BookingView>,
    policy: BookingPolicy,
    now: int,
    skip: Option<Seq<char>>,
    i: int,
)
    requires
        spec_check(candidate, event_type_id, host_id, existing, policy, now, skip)
            == SlotVerdict::Available,
        0 <= i < existing.len(),
        is_live(existing[i], skip),
        existing[i].host_id == host_id,
    ensures
        !candidate.spec_overlaps(&existing[i].time_slot),
        !buffered_overlap(
            candidate,
            existing[i].time_slot,
            policy.buffer_before_minutes * SECONDS_PER_MINUTE,
            policy.buffer_after_minutes * SECONDS_PER_MINUTE,
        ),
{
    assert(!blocks(existing[i], candidate, host_id, policy, skip));
}

/// Once a booking stands, no candidate that overlaps its slot is available
/// to its host, whatever the event type and the policy.
pub proof fn lemma_booked_slot_is_taken(
    booking: BookingView,
    candidate: TimeSlot,
    event_type_id: Seq<char>,
    existing: Seq<BookingView>,
    policy: BookingPolicy,
    now: int,
)
    requires
        booking.status != BookingStatus::Cancelled,
        candidate.spec_overlaps(&booking.time_slot),
    ensures
        spec_check(
            candidate,
            event_type_id,
            booking.host_id,
            existing.push(booking),
            policy,
            now,
            None,
        ) != SlotVerdict::Available,
{
    let all = existing.push(booking);
    assert(blocks(all[existing.len() as int], candidate, booking.host_id, policy, None));
}

} // verus!
