//! Time primitives and the availability schedule.
//!
//! An instant is a whole number of seconds since 1970-01-01T00:00:00 on one
//! fixed timescale. Callers bring every time onto that timescale before they
//! hand it in (the schedule's time zone is the usual choice); calendar days
//! and weeks are cut on it.

use vstd::prelude::*;

verus! {

/// Seconds in a minute.
pub const SECONDS_PER_MINUTE: i64 = 60;

/// Seconds in an hour.
pub const SECONDS_PER_HOUR: i64 = 3_600;

/// Seconds in a calendar day.
pub const SECONDS_PER_DAY: i64 = 86_400;

/// A half-open range of instants: `start` belongs to it, `end` does not.
#[derive(Clone, Copy, Debug, PartialEq, Eq, Structural)]
pub struct TimeSlot {
    pub start: i64,
    pub end: i64,
}

impl TimeSlot {
    /// A slot is valid when it is not empty.
    pub open spec fn is_valid(self) -> bool {
        self.start < self.end
    }

    /// Two slots overlap when each starts before the other ends.
    pub open spec fn spec_overlaps(&self, other: &TimeSlot) -> bool {
        self.start < other.end && other.start < self.end
    }

    /// Whole minutes from `start` to `end`, rounded towards zero.
    pub open spec fn spec_duration_minutes(self) -> int {
        if self.start <= self.end {
            (self.end - self.start) / SECONDS_PER_MINUTE as int
        } else {
            -((self.start - self.end) / SECONDS_PER_MINUTE as int)
        }
    }

    /// The slot from `start` to `end`, which must come later.
    pub fn new(start: i64, end: i64) -> (slot: Self)
        requires
            start < end,
        ensures
            slot.start == start,
            slot.end == end,
            slot.is_valid(),
    {
        TimeSlot { start, end }
    }

    /// Whether the slot is valid.
    pub fn validate(&self) -> (ok: bool)
        ensures
            ok == self.is_valid(),
    {
        self.start < self.end
    }

    /// Whether `instant` lies in the slot.
    pub open spec fn spec_contains(&self, instant: i64) -> bool {
        self.start <= instant < self.end
    }

    /// Whether all of `other` lies in the slot.
    pub open spec fn spec_encloses(&self, other: &TimeSlot) -> bool {
        self.start <= other.start && other.end <= self.end
    }

    /// Whether `instant` lies in the slot: its start does, its end does not.
    #[verifier::when_used_as_spec(spec_contains)]
    pub fn contains(&self, instant: i64) -> (inside: bool)
        ensures
            inside == self.spec_contains(instant),
    {
        self.start <= instant && instant < self.end
    }

    /// Whether all of `other` lies in the slot.
    #[verifier::when_used_as_spec(spec_encloses)]
    pub fn encloses(&self, other: &TimeSlot) -> (inside: bool)
        ensures
            inside == self.spec_encloses(other),
    {
        self.start <= other.start && other.end <= self.end
    }

    /// Whole minutes from `start` to `end`, rounded towards zero.
    pub fn duration_minutes(&self) -> (minutes: i64)
        ensures
            minutes == self.spec_duration_minutes(),
    {
        if self.start <= self.end {
            let span: i128 = self.end as i128 - self.start as i128;
            (span / SECONDS_PER_MINUTE as i128) as i64
        } else {
            let span: i128 = self.start as i128 - self.end as i128;
            let whole: i64 = (span / SECONDS_PER_MINUTE as i128) as i64;
            -whole
        }
    }

    /// Whether the two slots share an instant. Slots that only touch do not
    /// overlap.
    #[verifier::when_used_as_spec(spec_overlaps)]
    pub fn overlaps(&self, other: &TimeSlot) -> (hit: bool)
        ensures
            hit == self.spec_overlaps(other),
    {
        self.start < other.end && other.start < self.end
    }
}

/// The calendar day that holds `instant`, counted from 1970-01-01.
pub open spec fn spec_day_index(instant: int) -> int {
    instant / SECONDS_PER_DAY as int
}

/// The ISO week that holds `instant`: weeks run from Monday to Sunday and
/// are counted from the one that holds 1970-01-01, a Thursday.
pub open spec fn spec_week_index(instant: int) -> int {
    (spec_day_index(instant) + 3) / 7
}

/// The place of a day in its week, Monday being 0.
pub open spec fn spec_weekday_index(day: int) -> int {
    (day + 3) % 7
}

/// The calendar day that holds `instant`, counted from 1970-01-01: days
/// before it have negative numbers.
pub fn day_index(instant: i64) -> (day: i64)
    ensures
        day == spec_day_index(instant as int),
{
    if instant >= 0 {
        instant / SECONDS_PER_DAY
    } else {
        let below: i64 = -(instant + 1);
        -(below / SECONDS_PER_DAY) - 1
    }
}

/// The ISO week that holds `instant`, counted from the week of 1970-01-01.
/// Two instants lie in one ISO week exactly when their numbers agree.
pub fn week_index(instant: i64) -> (week: i64)
    ensures
        week == spec_week_index(instant as int),
{
    let shifted: i64 = day_index(instant) + 3;
    if shifted >= 0 {
        shifted / 7
    } else {
        let below: i64 = -(shifted + 1);
        -(below / 7) - 1
    }
}

/// A day of the week.
#[derive(Clone, Copy, Debug, PartialEq, Eq, Structural)]
pub enum Weekday {
    Mon,
    Tue,
    Wed,
    Thu,
    Fri,
    Sat,
    Sun,
}

impl Weekday {
    /// Monday is 0, Sunday is 6.
    pub open spec fn spec_index(self) -> int {
        match self {
            Weekday::Mon => 0,
            Weekday::Tue => 1,
            Weekday::Wed => 2,
            Weekday::Thu => 3,
            Weekday::Fri => 4,
            Weekday::Sat => 5,
            Weekday::Sun => 6,
        }
    }
}

/// A calendar date, held as the number of days since 1970-01-01.
#[derive(Clone, Copy, Debug, PartialEq, Eq, Structural)]
pub struct CalendarDate {
    pub days_since_epoch: i32,
}

impl CalendarDate {
    /// The first instant of the date.
    pub open spec fn spec_midnight(self) -> int {
        self.days_since_epoch * SECONDS_PER_DAY
    }

    /// The instant that lies `seconds` after the date's midnight.
    pub open spec fn spec_at(self, seconds: int) -> int {
        self.spec_midnight() + seconds
    }

    /// The weekday of the date: 1970-01-01 was a Thursday.
    pub open spec fn spec_weekday(self) -> Weekday {
        let i = spec_weekday_index(self.days_since_epoch as int);
        if i == 0 {
            Weekday::Mon
        } else if i == 1 {
            Weekday::Tue
        } else if i == 2 {
            Weekday::Wed
        } else if i == 3 {
            Weekday::Thu
        } else if i == 4 {
            Weekday::Fri
        } else if i == 5 {
            Weekday::Sat
        } else {
            Weekday::Sun
        }
    }

    /// The date that lies `days_since_epoch` days after 1970-01-01.
    pub fn new(days_since_epoch: i32) -> (date: Self)
        ensures
            date.days_since_epoch == days_since_epoch,
    {
        CalendarDate { days_since_epoch }
    }

    /// The first instant of the date.
    pub fn midnight(&self) -> (instant: i64)
        ensures
            instant == self.spec_midnight(),
    {
        let days: i64 = self.days_since_epoch as i64;
        days * SECONDS_PER_DAY
    }

    /// The weekday of the date.
    pub fn weekday(&self) -> (day: Weekday)
        ensures
            day == self.spec_weekday(),
            day.spec_index() == spec_weekday_index(self.days_since_epoch as int),
    {
        let shifted: i64 = self.days_since_epoch as i64 + 3;
        let i: i64 = if shifted >= 0 {
            shifted % 7
        } else {
            let below: i64 = -(shifted + 1);
            6 - below % 7
        };
        if i == 0 {
            Weekday::Mon
        } else if i == 1 {
            Weekday::Tue
        } else if i == 2 {
            Weekday::Wed
        } else if i == 3 {
            Weekday::Thu
        } else if i == 4 {
            Weekday::Fri
        } else if i == 5 {
            Weekday::Sat
        } else {
            Weekday::Sun
        }
    }
}

/// Every slot of `slots` is valid.
pub open spec fn all_valid(slots: Seq<TimeSlot>) -> bool {
    forall|i: int| 0 <= i < slots.len() ==> (#[trigger] slots[i]).is_valid()
}

/// No two slots of `slots` overlap.
pub open spec fn pairwise_disjoint(slots: Seq<TimeSlot>) -> bool {
    forall|i: int, j: int|
        #![trigger slots[i], slots[j]]
        0 <= i < j < slots.len() ==> !slots[i].spec_overlaps(&slots[j])
}

/// Every slot of `slots` lies within the one calendar day `date`.
pub open spec fn all_within(slots: Seq<TimeSlot>, date: CalendarDate) -> bool {
    forall|i: int|
        0 <= i < slots.len() ==> date.spec_midnight() <= (#[trigger] slots[i]).start
            && slots[i].end <= date.spec_midnight() + SECONDS_PER_DAY
}

/// One stretch of a weekly rule: on every `weekday`, from `start_time` to
/// `end_time`, both in seconds since midnight.
#[derive(Clone, Copy, Debug, PartialEq, Eq, Structural)]
pub struct Availability {
    pub weekday: Weekday,
    pub start_time: u32,
    pub end_time: u32,
}

impl Availability {
    /// The stretch is not empty and ends by midnight.
    pub open spec fn is_valid(self) -> bool {
        self.start_time < self.end_time <= SECONDS_PER_DAY
    }

    /// Two stretches clash when they lie on one weekday and share a moment.
    pub open spec fn clashes_with(self, other: Availability) -> bool {
        self.weekday == other.weekday && self.start_time < other.end_time && other.start_time
            < self.end_time
    }

    /// The stretch as a slot on `date`.
    pub open spec fn spec_on(self, date: CalendarDate) -> TimeSlot {
        TimeSlot {
            start: date.spec_at(self.start_time as int) as i64,
            end: date.spec_at(self.end_time as int) as i64,
        }
    }

    /// The stretch as a slot on `date`, whatever the date's weekday.
    pub fn on(&self, date: CalendarDate) -> (slot: TimeSlot)
        ensures
            slot == self.spec_on(date),
            slot.start == date.spec_midnight() + self.start_time,
            slot.end == date.spec_midnight() + self.end_time,
    {
        let midnight: i64 = date.midnight();
        TimeSlot { start: midnight + self.start_time as i64, end: midnight + self.end_time as i64 }
    }
}

/// What replaces the weekly rule on one date: nothing at all when
/// `available` is false, else the listed slots (none when `slots` is absent).
#[derive(Clone, Debug)]
pub struct DateOverride {
    pub date: CalendarDate,
    pub available: bool,
    pub slots: Option<Vec<TimeSlot>>,
}

impl DateOverride {
    /// The intervals that the override opens on its date.
    pub open spec fn intervals(self) -> Seq<TimeSlot> {
        if self.available && self.slots is Some {
            self.slots->0@
        } else {
            Seq::empty()
        }
    }

    /// The intervals are valid, lie on the date and do not overlap.
    pub open spec fn is_valid(self) -> bool {
        &&& all_valid(self.intervals())
        &&& all_within(self.intervals(), self.date)
        &&& pairwise_disjoint(self.intervals())
    }
}

/// A host's availability: weekly stretches and the dates that depart from
/// them.
#[derive(Clone, Debug)]
pub struct AvailabilitySchedule {
    pub timezone: String,
    pub rules: Vec<Availability>,
    pub date_overrides: Vec<DateOverride>,
}

/// No two stretches of `rules` clash.
pub open spec fn rules_disjoint(rules: Seq<Availability>) -> bool {
    forall|i: int, j: int|
        #![trigger rules[i], rules[j]]
        0 <= i < j < rules.len() ==> !rules[i].clashes_with(rules[j])
}

impl AvailabilitySchedule {
    /// Every stretch and every override is valid, and the stretches of one
    /// weekday do not overlap.
    pub open spec fn is_valid(self) -> bool {
        &&& forall|i: int| 0 <= i < self.rules@.len() ==> (#[trigger] self.rules@[i]).is_valid()
        &&& rules_disjoint(self.rules@)
        &&& forall|k: int|
            0 <= k < self.date_overrides@.len() ==> (#[trigger] self.date_overrides@[k]).is_valid()
    }
}

/// Whether the slots are valid, lie on `date` and do not overlap.
pub fn slots_fit_date(slots: &Vec<TimeSlot>, date: CalendarDate) -> (ok: bool)
    ensures
        ok == (all_valid(slots@) && all_within(slots@, date) && pairwise_disjoint(slots@)),
{
    let midnight: i64 = date.midnight();
    let n: usize = slots.len();
    let mut i: usize = 0;
    while i < n
        invariant
            n == slots@.len(),
            i <= n,
            midnight == date.spec_midnight(),
            all_valid(slots@.take(i as int)),
            all_within(slots@.take(i as int), date),
            pairwise_disjoint(slots@.take(i as int)),
        decreases n - i,
    {
        let slot: TimeSlot = slots[i];
        if !(slot.start < slot.end) || slot.start < midnight || slot.end > midnight
            + SECONDS_PER_DAY {
            return false;
        }
        let mut j: usize = 0;
        while j < i
            invariant
                n == slots@.len(),
                j <= i < n,
                slot == slots@[i as int],
                forall|k: int| 0 <= k < j ==> !(#[trigger] slots@[k]).spec_overlaps(&slot),
            decreases i - j,
        {
            if slots[j].overlaps(&slot) {
                return false;
            }
            j = j + 1;
        }
        proof {
            let before = slots@.take(i as int);
            let after = slots@.take(i as int + 1);
            assert forall|a: int, b: int| 0 <= a < b < after.len() implies !after[a].spec_overlaps(
                &after[b],
            ) by {
                if b < i {
                    assert(!before[a].spec_overlaps(&before[b]));
                }
            }
            assert forall|a: int| 0 <= a < after.len() implies (#[trigger] after[a]).is_valid()
                && date.spec_midnight() <= after[a].start && after[a].end <= date.spec_midnight()
                + SECONDS_PER_DAY by {
                if a < i {
                    assert(before[a].is_valid());
                }
            }
        }
        i = i + 1;
    }
    assert(slots@.take(n as int) == slots@);
    true
}

impl DateOverride {
    /// Whether the override is valid.
    pub fn validate(&self) -> (ok: bool)
        ensures
            ok == self.is_valid(),
    {
        if !self.available {
            return true;
        }
        match &self.slots {
            Some(slots) => slots_fit_date(slots, self.date),
            None => true,
        }
    }
}

impl AvailabilitySchedule {
    /// Whether the schedule is valid. A schedule is to be validated when it
    /// is set up: resolving takes an invalid one as it is.
    pub fn validate(&self) -> (ok: bool)
        ensures
            ok == self.is_valid(),
    {
        let n: usize = self.rules.len();
        let mut i: usize = 0;
        while i < n
            invariant
                n == self.rules@.len(),
                i <= n,
                forall|k: int| 0 <= k < i ==> (#[trigger] self.rules@[k]).is_valid(),
                rules_disjoint(self.rules@.take(i as int)),
            decreases n - i,
        {
            let rule: Availability = self.rules[i];
            if !(rule.start_time < rule.end_time) || rule.end_time as i64 > SECONDS_PER_DAY {
                return false;
            }
            let mut j: usize = 0;
            while j < i
                invariant
                    n == self.rules@.len(),
                    j <= i < n,
                    rule == self.rules@[i as int],
                    forall|k: int| 0 <= k < j ==> !(#[trigger] self.rules@[k]).clashes_with(rule),
                decreases i - j,
            {
                let other: Availability = self.rules[j];
                if other.weekday == rule.weekday && other.start_time < rule.end_time
                    && rule.start_time < other.end_time {
                    return false;
                }
                j = j + 1;
            }
            proof {
                let before = self.rules@.take(i as int);
                let after = self.rules@.take(i as int + 1);
                assert forall|a: int, b: int| 0 <= a < b < after.len() implies !after[a].clashes_with(
                    after[b],
                ) by {
                    if b < i {
                        assert(!before[a].clashes_with(before[b]));
                    }
                }
            }
            i = i + 1;
        }
        assert(self.rules@.take(n as int) == self.rules@);
        let m: usize = self.date_overrides.len();
        let mut k: usize = 0;
        while k < m
            invariant
                m == self.date_overrides@.len(),
                k <= m,
                forall|q: int| 0 <= q < k ==> (#[trigger] self.date_overrides@[q]).is_valid(),
            decreases m - k,
        {
            if !self.date_overrides[k].validate() {
                return false;
            }
            k = k + 1;
        }
        true
    }
}

/// Overlap does not depend on the order in which two slots are taken.
pub proof fn lemma_overlap_is_symmetric(a: TimeSlot, b: TimeSlot)
    ensures
        a.spec_overlaps(&b) == b.spec_overlaps(&a),
{
}

/// A slot that ends at the instant at which another starts does not overlap
/// it.
pub proof fn lemma_touching_slots_do_not_overlap(a: TimeSlot, b: TimeSlot)
    requires
        a.end == b.start,
    ensures
        !a.spec_overlaps(&b),
        !b.spec_overlaps(&a),
{
}

/// Valid slots overlap exactly when some instant lies in both.
pub proof fn lemma_overlap_is_a_shared_instant(a: TimeSlot, b: TimeSlot)
    requires
        a.is_valid(),
        b.is_valid(),
    ensures
        a.spec_overlaps(&b) <==> exists|t: i64| a.spec_contains(t) && b.spec_contains(t),
{
    if a.spec_overlaps(&b) {
        let t: i64 = if a.start <= b.start {
            b.start
        } else {
            a.start
        };
        assert(a.spec_contains(t) && b.spec_contains(t));
    }
}

} // verus!
