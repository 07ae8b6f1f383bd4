//! Availability resolution: the open intervals of one calendar date.
//!
//! A date override fully replaces the weekly rule on its date. Where a date
//! has several overrides, the first in the schedule's list decides.

use crate::domain::value_objects::{
    all_valid, all_within, pairwise_disjoint, rules_disjoint, Availability, AvailabilitySchedule,
    CalendarDate, DateOverride, TimeSlot, SECONDS_PER_DAY,
};
use vstd::prelude::*;
use vstd::relations::{sorted_by, total_ordering};
use vstd::seq_lib::{lemma_sorted_unique, to_multiset_build, to_multiset_insert};

verus! {

/// The order in which open intervals are listed: by start, then by end.
pub open spec fn slot_leq() -> spec_fn(TimeSlot, TimeSlot) -> bool {
    |a: TimeSlot, b: TimeSlot| a.start < b.start || (a.start == b.start && a.end <= b.end)
}

/// The slots stand in listing order.
pub open spec fn is_ordered(slots: Seq<TimeSlot>) -> bool {
    sorted_by(slots, slot_leq())
}

/// The slots are valid and each ends before the next one starts.
pub open spec fn in_sequence(slots: Seq<TimeSlot>) -> bool {
    &&& all_valid(slots)
    &&& forall|i: int, j: int|
        #![trigger slots[i], slots[j]]
        0 <= i < j < slots.len() ==> slots[i].end <= slots[j].start
}

/// The listing order is a total order on slots.
pub proof fn lemma_slot_order_is_total()
    ensures
        total_ordering(slot_leq()),
{
    let leq = slot_leq();
    assert forall|x: TimeSlot, y: TimeSlot| #[trigger] leq(x, y) && #[trigger] leq(y, x) implies x
        == y by {
        assert(x.start == y.start && x.end == y.end);
    }
}

fn slot_le(a: &TimeSlot, b: &TimeSlot) -> (le: bool)
    ensures
        le == slot_leq()(*a, *b),
{
    a.start < b.start || (a.start == b.start && a.end <= b.end)
}

/// The slots in listing order.
pub fn sort_slots(slots: &Vec<TimeSlot>) -> (sorted: Vec<TimeSlot>)
    ensures
        sorted@ == slots@.sort_by(slot_leq()),
        is_ordered(sorted@),
        sorted@.to_multiset() == slots@.to_multiset(),
{
    let ghost leq = slot_leq();
    let mut out: Vec<TimeSlot> = Vec::new();
    let n: usize = slots.len();
    let mut i: usize = 0;
    proof {
        lemma_slot_order_is_total();
        assert(slots@.take(0) =~= Seq::<TimeSlot>::empty());
    }
    while i < n
        invariant
            n == slots@.len(),
            i <= n,
            leq == slot_leq(),
            total_ordering(leq),
            out@.len() == i,
            sorted_by(out@, leq),
            out@.to_multiset() == slots@.take(i as int).to_multiset(),
        decreases n - i,
    {
        let x: TimeSlot = slots[i];
        let mut j: usize = out.len();
        while j > 0 && !slot_le(&out[j - 1], &x)
            invariant
                j <= out@.len(),
                leq == slot_leq(),
                total_ordering(leq),
                forall|k: int| j <= k < out@.len() ==> leq(x, #[trigger] out@[k]),
            decreases j,
        {
            j = j - 1;
        }
        let ghost before = out@;
        out.insert(j, x);
        proof {
            to_multiset_insert(before, j as int, x);
            assert(slots@.take(i as int + 1) =~= slots@.take(i as int).push(x));
            to_multiset_build(slots@.take(i as int), x);
            assert forall|a: int, b: int| 0 <= a < b < out@.len() implies #[trigger] leq(
                out@[a],
                out@[b],
            ) by {
                if b == j && a < j - 1 {
                    assert(leq(before[a], before[j - 1]));
                }
            }
        }
        i = i + 1;
    }
    proof {
        assert(slots@.take(n as int) =~= slots@);
        slots@.lemma_sort_by_ensures(leq);
        lemma_sorted_unique(out@, slots@.sort_by(leq), leq);
    }
    out
}

/// Some override of `overrides` is for `date`.
pub open spec fn has_override(overrides: Seq<DateOverride>, date: CalendarDate) -> bool {
    exists|k: int| 0 <= k < overrides.len() && (#[trigger] overrides[k]).date == date
}

/// `overrides[k]` is for `date`, and no earlier override is.
pub open spec fn is_first_override(overrides: Seq<DateOverride>, date: CalendarDate, k: int) -> bool {
    &&& 0 <= k < overrides.len()
    &&& overrides[k].date == date
    &&& forall|j: int| 0 <= j < k ==> (#[trigger] overrides[j]).date != date
}

/// The place of the override that decides `date`, where there is one.
pub open spec fn first_override(overrides: Seq<DateOverride>, date: CalendarDate) -> int {
    choose|k: int| is_first_override(overrides, date, k)
}

/// Whether a weekly stretch applies on `date`.
pub open spec fn on_weekday(date: CalendarDate) -> spec_fn(Availability) -> bool {
    |rule: Availability| rule.weekday == date.spec_weekday()
}

/// A weekly stretch as a slot on `date`.
pub open spec fn placed_on(date: CalendarDate) -> spec_fn(Availability) -> TimeSlot {
    |rule: Availability| rule.spec_on(date)
}

/// What the weekly rule opens on `date`, in the order of the rules.
pub open spec fn weekly_intervals(rules: Seq<Availability>, date: CalendarDate) -> Seq<TimeSlot> {
    rules.filter(on_weekday(date)).map_values(placed_on(date))
}

/// The intervals that decide `date`, before they are put in order: those of
/// the date's first override, or without one those of the weekly rule.
pub open spec fn source_intervals(schedule: AvailabilitySchedule, date: CalendarDate) -> Seq<
    TimeSlot,
> {
    if has_override(schedule.date_overrides@, date) {
        schedule.date_overrides@[first_override(schedule.date_overrides@, date)].intervals()
    } else {
        weekly_intervals(schedule.rules@, date)
    }
}

/// The open intervals of `date`, in listing order.
pub open spec fn spec_resolve(schedule: AvailabilitySchedule, date: CalendarDate) -> Seq<TimeSlot> {
    source_intervals(schedule, date).sort_by(slot_leq())
}

/// There is at most one first override.
pub proof fn lemma_first_override_is_unique(
    overrides: Seq<DateOverride>,
    date: CalendarDate,
    k: int,
)
    requires
        is_first_override(overrides, date, k),
    ensures
        has_override(overrides, date),
        first_override(overrides, date) == k,
{
    let c = first_override(overrides, date);
    assert(is_first_override(overrides, date, c));
}

/// Expands the weekly rule and the date overrides of a schedule into the
/// open intervals of a date.
pub struct AvailabilityResolver;

impl AvailabilityResolver {
    /// The place of the first override for `date`, if there is one.
    pub fn find_override(overrides: &Vec<DateOverride>, date: CalendarDate) -> (found: Option<
        usize,
    >)
        ensures
            found is Some <==> has_override(overrides@, date),
            found is Some ==> is_first_override(overrides@, date, found->0 as int),
            found is Some ==> found->0 == first_override(overrides@, date),
    {
        let n: usize = overrides.len();
        let mut k: usize = 0;
        while k < n
            invariant
                n == overrides@.len(),
                k <= n,
                forall|j: int| 0 <= j < k ==> (#[trigger] overrides@[j]).date != date,
            decreases n - k,
        {
            if overrides[k].date == date {
                proof {
                    lemma_first_override_is_unique(overrides@, date, k as int);
                }
                return Some(k);
            }
            k = k + 1;
        }
        None
    }

    /// What the weekly rule opens on `date`, in the order of the rules.
    pub fn weekly(rules: &Vec<Availability>, date: CalendarDate) -> (open: Vec<TimeSlot>)
        ensures
            open@ == weekly_intervals(rules@, date),
    {
        let weekday = date.weekday();
        let mut open: Vec<TimeSlot> = Vec::new();
        let n: usize = rules.len();
        let mut i: usize = 0;
        proof {
            assert(Seq::<Availability>::empty().filter(on_weekday(date)) =~= Seq::empty()) by {
                reveal(Seq::filter);
            }
        }
        while i < n
            invariant
                n == rules@.len(),
                i <= n,
                weekday == date.spec_weekday(),
                open@ == weekly_intervals(rules@.take(i as int), date),
            decreases n - i,
        {
            let rule: Availability = rules[i];
            proof {
                let head = rules@.take(i as int);
                assert(rules@.take(i as int + 1) =~= head.push(rule));
                head.lemma_filter_push(rule, on_weekday(date));
                if on_weekday(date)(rule) {
                    head.filter(on_weekday(date)).lemma_push_map_commute(placed_on(date), rule);
                }
            }
            if rule.weekday == weekday {
                open.push(rule.on(date));
            }
            i = i + 1;
        }
        proof {
            assert(rules@.take(n as int) =~= rules@);
        }
        open
    }

    /// The open intervals of `date`: those of the date's first override, or
    /// without one those of the weekly rule for the date's weekday, in
    /// listing order either way.
    pub fn resolve(schedule: &AvailabilitySchedule, date: CalendarDate) -> (open: Vec<TimeSlot>)
        ensures
            open@ == spec_resolve(*schedule, date),
            is_ordered(open@),
            open@.to_multiset() == source_intervals(*schedule, date).to_multiset(),
            schedule.is_valid() ==> in_sequence(open@) && all_within(open@, date),
    {
        proof {
            if schedule.is_valid() {
                lemma_resolve_in_sequence(*schedule, date);
            }
        }
        match Self::find_override(&schedule.date_overrides, date) {
            Some(k) => {
                let chosen = &schedule.date_overrides[k];
                if chosen.available {
                    match &chosen.slots {
                        Some(slots) => sort_slots(slots),
                        None => sort_slots(&Vec::new()),
                    }
                } else {
                    sort_slots(&Vec::new())
                }
            },
            None => {
                let weekly = Self::weekly(&schedule.rules, date);
                sort_slots(&weekly)
            },
        }
    }
}

/// Some stretch of the date's weekday gives `slot` on `date`.
pub open spec fn opened_by(rules: Seq<Availability>, date: CalendarDate, slot: TimeSlot) -> bool {
    exists|p: int|
        0 <= p < rules.len() && (#[trigger] rules[p]).weekday == date.spec_weekday() && slot
            == rules[p].spec_on(date)
}

/// Every slot that the weekly rule opens on `date` comes from a stretch of
/// the date's weekday.
pub proof fn lemma_weekly_origin(rules: Seq<Availability>, date: CalendarDate)
    ensures
        forall|k: int|
            0 <= k < weekly_intervals(rules, date).len() ==> opened_by(
                rules,
                date,
                #[trigger] weekly_intervals(rules, date)[k],
            ),
    decreases rules.len(),
{
    let open = weekly_intervals(rules, date);
    if rules.len() == 0 {
        assert(rules.filter(on_weekday(date)) =~= Seq::empty()) by {
            reveal(Seq::filter);
        }
    } else {
        let head = rules.drop_last();
        let last = rules.last();
        let rest = weekly_intervals(head, date);
        lemma_weekly_origin(head, date);
        assert(rules =~= head.push(last));
        head.lemma_filter_push(last, on_weekday(date));
        head.filter(on_weekday(date)).lemma_push_map_commute(placed_on(date), last);
        assert forall|k: int| 0 <= k < open.len() implies opened_by(
            rules,
            date,
            #[trigger] open[k],
        ) by {
            if k < rest.len() {
                let p = choose|p: int|
                    0 <= p < head.len() && (#[trigger] head[p]).weekday == date.spec_weekday()
                        && rest[k] == head[p].spec_on(date);
                assert(rules[p] == head[p]);
            } else {
                assert(rules[rules.len() - 1] == last);
            }
        }
    }
}

/// Valid stretches that do not clash open valid slots that lie on the date
/// and do not overlap.
proof fn lemma_weekly_is_sound(rules: Seq<Availability>, date: CalendarDate)
    requires
        forall|i: int| 0 <= i < rules.len() ==> (#[trigger] rules[i]).is_valid(),
        rules_disjoint(rules),
    ensures
        all_valid(weekly_intervals(rules, date)),
        all_within(weekly_intervals(rules, date), date),
        pairwise_disjoint(weekly_intervals(rules, date)),
    decreases rules.len(),
{
    let open = weekly_intervals(rules, date);
    lemma_weekly_origin(rules, date);
    assert forall|k: int| 0 <= k < open.len() implies (#[trigger] open[k]).is_valid()
        && date.spec_midnight() <= open[k].start && open[k].end <= date.spec_midnight()
        + SECONDS_PER_DAY by {
        assert(opened_by(rules, date, open[k]));
    }
    if rules.len() > 0 {
        let head = rules.drop_last();
        let last = rules.last();
        let rest = weekly_intervals(head, date);
        assert(rules_disjoint(head)) by {
            assert forall|i: int, j: int| 0 <= i < j < head.len() implies !head[i].clashes_with(
                head[j],
            ) by {
                assert(!rules[i].clashes_with(rules[j]));
            }
        }
        assert forall|i: int| 0 <= i < head.len() implies (#[trigger] head[i]).is_valid() by {
            assert(rules[i].is_valid());
        }
        lemma_weekly_is_sound(head, date);
        lemma_weekly_origin(head, date);
        assert(rules =~= head.push(last));
        head.lemma_filter_push(last, on_weekday(date));
        head.filter(on_weekday(date)).lemma_push_map_commute(placed_on(date), last);
        assert forall|i: int, j: int| 0 <= i < j < open.len() implies !open[i].spec_overlaps(
            &open[j],
        ) by {
            if j >= rest.len() {
                // The last slot comes from the last stretch, the other from an
                // earlier stretch of the same weekday: the two do not clash.
                assert(opened_by(head, date, rest[i]));
                let p = choose|p: int|
                    0 <= p < head.len() && (#[trigger] head[p]).weekday == date.spec_weekday()
                        && rest[i] == head[p].spec_on(date);
                assert(!rules[p].clashes_with(rules[rules.len() - 1]));
            }
        }
    } else {
        assert(rules.filter(on_weekday(date)) =~= Seq::empty()) by {
            reveal(Seq::filter);
        }
    }
}

/// Putting valid slots that do not overlap in listing order leaves each of
/// them ending before the next one starts.
pub proof fn lemma_sorting_disjoint_slots(slots: Seq<TimeSlot>)
    requires
        all_valid(slots),
        pairwise_disjoint(slots),
    ensures
        in_sequence(slots.sort_by(slot_leq())),
        forall|x: TimeSlot| slots.sort_by(slot_leq()).contains(x) ==> slots.contains(x),
{
    let leq = slot_leq();
    let sorted = slots.sort_by(leq);
    lemma_slot_order_is_total();
    slots.lemma_sort_by_ensures(leq);
    // A valid slot overlaps itself: slots that do not overlap are distinct,
    // and so are the sorted ones.
    assert(slots.no_duplicates()) by {
        assert forall|i: int, j: int|
            0 <= i < slots.len() && 0 <= j < slots.len() && i != j implies slots[i]
            != slots[j] by {
            if i < j {
                assert(!slots[i].spec_overlaps(&slots[j]));
            } else {
                assert(!slots[j].spec_overlaps(&slots[i]));
            }
        }
    }
    slots.lemma_multiset_has_no_duplicates();
    sorted.lemma_multiset_has_no_duplicates_conv();
    assert forall|i: int| 0 <= i < sorted.len() implies (#[trigger] sorted[i]).is_valid() by {
        assert(sorted.contains(sorted[i]));
    }
    assert forall|i: int, j: int| 0 <= i < j < sorted.len() implies sorted[i].end
        <= sorted[j].start by {
        let x = sorted[i];
        let y = sorted[j];
        assert(sorted.contains(x) && sorted.contains(y));
        let p = choose|p: int| 0 <= p < slots.len() && slots[p] == x;
        let q = choose|q: int| 0 <= q < slots.len() && slots[q] == y;
        if p < q {
            assert(!slots[p].spec_overlaps(&slots[q]));
        } else {
            assert(!slots[q].spec_overlaps(&slots[p]));
        }
        assert(leq(x, y));
    }
}

/// In a valid schedule the intervals that decide a date are valid, lie on
/// the date and do not overlap.
pub proof fn lemma_source_is_sound(schedule: AvailabilitySchedule, date: CalendarDate)
    requires
        schedule.is_valid(),
    ensures
        all_valid(source_intervals(schedule, date)),
        all_within(source_intervals(schedule, date), date),
        pairwise_disjoint(source_intervals(schedule, date)),
{
    if has_override(schedule.date_overrides@, date) {
        let w = choose|k: int|
            0 <= k < schedule.date_overrides@.len() && (
            #[trigger] schedule.date_overrides@[k]).date == date;
        lemma_has_first(schedule.date_overrides@, date, w);
    } else {
        lemma_weekly_is_sound(schedule.rules@, date);
    }
}

/// Where some override is for `date`, one of them is the first.
proof fn lemma_has_first(overrides: Seq<DateOverride>, date: CalendarDate, w: int)
    requires
        0 <= w < overrides.len(),
        overrides[w].date == date,
    ensures
        is_first_override(overrides, date, first_override(overrides, date)),
    decreases w,
{
    if forall|j: int| 0 <= j < w ==> (#[trigger] overrides[j]).date != date {
        assert(is_first_override(overrides, date, w));
    } else {
        let j = choose|j: int| 0 <= j < w && (#[trigger] overrides[j]).date == date;
        lemma_has_first(overrides, date, j);
    }
}

/// A date override fully replaces the weekly rule: on a date with an
/// override the open intervals are those of its first override in listing
/// order, whatever the weekly rule holds. Where the override lists its
/// intervals in that order, they are the result as they stand.
pub proof fn lemma_override_precedence(schedule: AvailabilitySchedule, date: CalendarDate)
    requires
        has_override(schedule.date_overrides@, date),
    ensures
        is_first_override(
            schedule.date_overrides@,
            date,
            first_override(schedule.date_overrides@, date),
        ),
        spec_resolve(schedule, date) == schedule.date_overrides@[first_override(
            schedule.date_overrides@,
            date,
        )].intervals().sort_by(slot_leq()),
        spec_resolve(schedule, date).to_multiset() == schedule.date_overrides@[first_override(
            schedule.date_overrides@,
            date,
        )].intervals().to_multiset(),
        is_ordered(
            schedule.date_overrides@[first_override(schedule.date_overrides@, date)].intervals(),
        ) ==> spec_resolve(schedule, date) == schedule.date_overrides@[first_override(
            schedule.date_overrides@,
            date,
        )].intervals(),
        !schedule.date_overrides@[first_override(schedule.date_overrides@, date)].available
            ==> spec_resolve(schedule, date) == Seq::<TimeSlot>::empty(),
{
    let overrides = schedule.date_overrides@;
    let w = choose|k: int| 0 <= k < overrides.len() && (#[trigger] overrides[k]).date == date;
    lemma_has_first(overrides, date, w);
    let chosen = overrides[first_override(overrides, date)].intervals();
    lemma_slot_order_is_total();
    chosen.lemma_sort_by_ensures(slot_leq());
    if is_ordered(chosen) {
        lemma_sorted_unique(chosen, chosen.sort_by(slot_leq()), slot_leq());
    }
    if chosen.len() == 0 {
        lemma_sorted_unique(chosen, chosen.sort_by(slot_leq()), slot_leq());
    }
}

/// A date without override and without a weekly stretch on its weekday
/// has no open interval.
pub proof fn lemma_closed_without_rule(schedule: AvailabilitySchedule, date: CalendarDate)
    requires
        !has_override(schedule.date_overrides@, date),
        forall|i: int|
            0 <= i < schedule.rules@.len() ==> (#[trigger] schedule.rules@[i]).weekday
                != date.spec_weekday(),
    ensures
        spec_resolve(schedule, date) == Seq::<TimeSlot>::empty(),
{
    let open = weekly_intervals(schedule.rules@, date);
    lemma_weekly_origin(schedule.rules@, date);
    if open.len() > 0 {
        assert(opened_by(schedule.rules@, date, open[0]));
    }
    lemma_slot_order_is_total();
    open.lemma_sort_by_ensures(slot_leq());
    lemma_sorted_unique(open, open.sort_by(slot_leq()), slot_leq());
}

/// The open intervals of a date in a valid schedule are valid and in order,
/// each ends before the next one starts, and none leaves the date: no
/// interval spans midnight.
pub proof fn lemma_resolve_in_sequence(schedule: AvailabilitySchedule, date: CalendarDate)
    requires
        schedule.is_valid(),
    ensures
        in_sequence(spec_resolve(schedule, date)),
        is_ordered(spec_resolve(schedule, date)),
        all_within(spec_resolve(schedule, date), date),
{
    let source = source_intervals(schedule, date);
    let open = spec_resolve(schedule, date);
    lemma_source_is_sound(schedule, date);
    lemma_sorting_disjoint_slots(source);
    lemma_slot_order_is_total();
    source.lemma_sort_by_ensures(slot_leq());
    assert forall|i: int| 0 <= i < open.len() implies date.spec_midnight() <= (
    #[trigger] open[i]).start && open[i].end <= date.spec_midnight() + SECONDS_PER_DAY by {
        assert(open.contains(open[i]));
        assert(source.contains(open[i]));
    }
}

} // verus!
