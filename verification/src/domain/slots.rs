//! Slot generation: cutting open intervals into candidate slots.
//!
//! A candidate occupies its buffers too, but shows only its bookable
//! window: the buffers keep bookings apart and cannot be booked themselves.

use crate::domain::value_objects::{TimeSlot, SECONDS_PER_MINUTE};
use vstd::prelude::*;

verus! {

/// How candidates are laid out within an open interval, in seconds: the
/// length of the bookable window, the buffers on both sides of it, and the
/// distance from one candidate to the next.
pub struct SlotGrid {
    pub duration: int,
    pub before: int,
    pub after: int,
    pub step: int,
}

impl SlotGrid {
    /// The seconds that one candidate occupies, buffers included.
    pub open spec fn footprint(self) -> int {
        self.before + self.duration + self.after
    }

    /// The grid can be walked: windows are not empty, buffers are not
    /// negative, and every step moves forward.
    pub open spec fn is_valid(self) -> bool {
        self.duration > 0 && self.before >= 0 && self.after >= 0 && self.step > 0
    }
}

/// The grid of an event type whose settings are given in minutes. Without a
/// step of its own the grid steps by the duration.
pub open spec fn grid_of(
    duration_minutes: u32,
    buffer_before_minutes: u32,
    buffer_after_minutes: u32,
    step_minutes: Option<u32>,
) -> SlotGrid {
    SlotGrid {
        duration: duration_minutes * SECONDS_PER_MINUTE,
        before: buffer_before_minutes * SECONDS_PER_MINUTE,
        after: buffer_after_minutes * SECONDS_PER_MINUTE,
        step: match step_minutes {
            Some(step) => step * SECONDS_PER_MINUTE,
            None => duration_minutes * SECONDS_PER_MINUTE,
        },
    }
}

/// How many candidates fit into `interval`.
pub open spec fn candidate_count(interval: TimeSlot, grid: SlotGrid) -> nat {
    if interval.end - interval.start >= grid.footprint() {
        ((interval.end - interval.start - grid.footprint()) / grid.step + 1) as nat
    } else {
        0
    }
}

/// The bookable window of the candidate that `k` steps after the start of
/// `interval` begin.
pub open spec fn candidate_at(interval: TimeSlot, grid: SlotGrid, k: int) -> TimeSlot {
    TimeSlot {
        start: (interval.start + k * grid.step + grid.before) as i64,
        end: (interval.start + k * grid.step + grid.before + grid.duration) as i64,
    }
}

/// The candidates of one open interval, earliest first.
pub open spec fn candidates_in(interval: TimeSlot, grid: SlotGrid) -> Seq<TimeSlot> {
    Seq::new(candidate_count(interval, grid), |k: int| candidate_at(interval, grid, k))
}

/// The candidates of one open interval, as a function of the interval.
pub open spec fn cut_by(grid: SlotGrid) -> spec_fn(TimeSlot) -> Seq<TimeSlot> {
    |interval: TimeSlot| candidates_in(interval, grid)
}

/// The candidates of every open interval, interval after interval.
pub open spec fn spec_generate(open: Seq<TimeSlot>, grid: SlotGrid) -> Seq<TimeSlot> {
    open.flat_map(cut_by(grid))
}

/// With a positive step, `k` steps fit into `room` exactly when `k` is at
/// most the quotient of `room` by the step.
proof fn lemma_steps_fit(k: int, step: int, room: int)
    requires
        step > 0,
        room >= 0,
        k >= 0,
    ensures
        k * step <= room <==> k <= room / step,
{
    let q = room / step;
    let r = room % step;
    assert(room == q * step + r && 0 <= r < step) by (nonlinear_arith)
        requires
            step > 0,
            q == room / step,
            r == room % step,
    ;
    if k <= q {
        assert(k * step <= q * step) by (nonlinear_arith)
            requires
                k <= q,
                step > 0,
        ;
    } else {
        assert(k * step >= (q + 1) * step) by (nonlinear_arith)
            requires
                k >= q + 1,
                step > 0,
        ;
        assert((q + 1) * step == q * step + step) by (nonlinear_arith);
    }
}

/// Turns open intervals into candidate slots.
pub struct SlotGenerator;

impl SlotGenerator {
    /// The candidates of one open interval, earliest first, appended to
    /// `slots`.
    fn cut(
        interval: TimeSlot,
        duration: i64,
        before: i64,
        after: i64,
        step: i64,
        slots: &mut Vec<TimeSlot>,
    )
        requires
            0 < duration <= u32::MAX * SECONDS_PER_MINUTE,
            0 <= before <= u32::MAX * SECONDS_PER_MINUTE,
            0 <= after <= u32::MAX * SECONDS_PER_MINUTE,
            0 < step <= u32::MAX * SECONDS_PER_MINUTE,
        ensures
            final(slots)@ == old(slots)@ + candidates_in(
                interval,
                SlotGrid {
                    duration: duration as int,
                    before: before as int,
                    after: after as int,
                    step: step as int,
                },
            ),
    {
        let ghost grid = SlotGrid {
            duration: duration as int,
            before: before as int,
            after: after as int,
            step: step as int,
        };
        let ghost all = candidates_in(interval, grid);
        let ghost base = slots@;
        let footprint: i128 = before as i128 + duration as i128 + after as i128;
        let end: i128 = interval.end as i128;
        let start: i128 = interval.start as i128;
        if end - start < footprint {
            return ;
        }
        let ghost room: int = end - start - footprint;
        let mut cursor: i128 = start;
        let ghost mut k: int = 0;
        proof {
            lemma_steps_fit(0, step as int, room);
        }
        while cursor + footprint <= end
            invariant
                0 < duration <= u32::MAX * SECONDS_PER_MINUTE,
                0 <= before <= u32::MAX * SECONDS_PER_MINUTE,
                0 <= after <= u32::MAX * SECONDS_PER_MINUTE,
                0 < step <= u32::MAX * SECONDS_PER_MINUTE,
                footprint == before + duration + after,
                start == interval.start,
                end == interval.end,
                room == end - start - footprint,
                room >= 0,
                grid == (SlotGrid {
                    duration: duration as int,
                    before: before as int,
                    after: after as int,
                    step: step as int,
                }),
                all == candidates_in(interval, grid),
                0 <= k <= all.len(),
                cursor == start + k * step,
                cursor <= end + step,
                slots@ == base + all.take(k),
            decreases end + step - cursor,
        {
            proof {
                lemma_steps_fit(k, step as int, room);
            }
            let slot = TimeSlot {
                start: (cursor + before as i128) as i64,
                end: (cursor + before as i128 + duration as i128) as i64,
            };
            proof {
                assert((k + 1) * step == k * step + step) by (nonlinear_arith);
            }
            slots.push(slot);
            cursor = cursor + step as i128;
            proof {
                k = k + 1;
            }
        }
        proof {
            lemma_steps_fit(k, step as int, room);
        }
    }

    /// The candidate slots of the open intervals, interval after interval
    /// and earliest first within each. A candidate starts a whole number
    /// of steps after its interval's start, its window set off by the buffer
    /// before it; it is listed as long as window and buffers end within the
    /// interval. Without `step_minutes` the step is the duration.
    pub fn generate(
        open: &Vec<TimeSlot>,
        duration_minutes: u32,
        buffer_before_minutes: u32,
        buffer_after_minutes: u32,
        step_minutes: Option<u32>,
    ) -> (slots: Vec<TimeSlot>)
        requires
            duration_minutes > 0,
            step_minutes is Some ==> step_minutes->0 > 0,
        ensures
            slots@ == spec_generate(
                open@,
                grid_of(
                    duration_minutes,
                    buffer_before_minutes,
                    buffer_after_minutes,
                    step_minutes,
                ),
            ),
    {
        let ghost grid = grid_of(
            duration_minutes,
            buffer_before_minutes,
            buffer_after_minutes,
            step_minutes,
        );
        let duration: i64 = duration_minutes as i64 * SECONDS_PER_MINUTE;
        let before: i64 = buffer_before_minutes as i64 * SECONDS_PER_MINUTE;
        let after: i64 = buffer_after_minutes as i64 * SECONDS_PER_MINUTE;
        let step: i64 = match step_minutes {
            Some(minutes) => minutes as i64 * SECONDS_PER_MINUTE,
            None => duration,
        };
        let mut slots: Vec<TimeSlot> = Vec::new();
        let n: usize = open.len();
        let mut i: usize = 0;
        while i < n
            invariant
                n == open@.len(),
                i <= n,
                0 < duration <= u32::MAX * SECONDS_PER_MINUTE,
                0 <= before <= u32::MAX * SECONDS_PER_MINUTE,
                0 <= after <= u32::MAX * SECONDS_PER_MINUTE,
                0 < step <= u32::MAX * SECONDS_PER_MINUTE,
                grid == (SlotGrid {
                    duration: duration as int,
                    before: before as int,
                    after: after as int,
                    step: step as int,
                }),
                slots@ == spec_generate(open@.take(i as int), grid),
            decreases n - i,
        {
            proof {
                open@.lemma_flat_map_take_append(cut_by(grid), i as int);
            }
            Self::cut(open[i], duration, before, after, step, &mut slots);
            i = i + 1;
        }
        proof {
            assert(open@.take(n as int) =~= open@);
        }
        slots
    }
}

/// Every candidate of an interval has the grid's duration and lies, with
/// its buffers, within the interval, a whole number of steps after the
/// interval's start.
pub proof fn lemma_candidates_fit(interval: TimeSlot, grid: SlotGrid, k: int)
    requires
        grid.is_valid(),
        0 <= k < candidates_in(interval, grid).len(),
    ensures
        candidates_in(interval, grid)[k].start == interval.start + k * grid.step + grid.before,
        candidates_in(interval, grid)[k].end == candidates_in(interval, grid)[k].start
            + grid.duration,
        interval.start <= candidates_in(interval, grid)[k].start - grid.before,
        candidates_in(interval, grid)[k].end + grid.after <= interval.end,
        candidates_in(interval, grid)[k].is_valid(),
{
    let room = interval.end - interval.start - grid.footprint();
    lemma_steps_fit(k, grid.step, room);
    assert(0 <= k * grid.step) by (nonlinear_arith)
        requires
            0 <= k,
            0 < grid.step,
    ;
}

/// Each candidate of an interval starts one step after the one before it.
pub proof fn lemma_candidates_step(interval: TimeSlot, grid: SlotGrid, k: int)
    requires
        grid.is_valid(),
        0 <= k,
        k + 1 < candidates_in(interval, grid).len(),
    ensures
        candidates_in(interval, grid)[k + 1].start == candidates_in(interval, grid)[k].start
            + grid.step,
{
    lemma_candidates_fit(interval, grid, k);
    lemma_candidates_fit(interval, grid, k + 1);
    assert((k + 1) * grid.step == k * grid.step + grid.step) by (nonlinear_arith);
}

/// No further candidate fits behind the last one: the interval is used up.
pub proof fn lemma_candidates_exhaust(interval: TimeSlot, grid: SlotGrid)
    requires
        grid.is_valid(),
    ensures
        interval.start + candidates_in(interval, grid).len() * grid.step + grid.footprint()
            > interval.end,
{
    let room = interval.end - interval.start - grid.footprint();
    let n = candidates_in(interval, grid).len() as int;
    if room >= 0 {
        lemma_steps_fit(n, grid.step, room);
    } else {
        assert(n * grid.step == 0) by (nonlinear_arith)
            requires
                n == 0,
        ;
    }
}

/// Without buffers and with the duration as step, an interval of length
/// `L` holds exactly `L / duration` candidates (rounded down): the first
/// starts with the interval, each starts where the one before it ends, and
/// no two overlap.
pub proof fn lemma_exhaustive_cut(interval: TimeSlot, duration: int)
    requires
        interval.start <= interval.end,
        duration > 0,
    ensures
        candidates_in(
            interval,
            SlotGrid { duration, before: 0, after: 0, step: duration },
        ).len() == (interval.end - interval.start) / duration,
        forall|k: int|
            0 <= k < candidates_in(
                interval,
                SlotGrid { duration, before: 0, after: 0, step: duration },
            ).len() ==> (#[trigger] candidates_in(
                interval,
                SlotGrid { duration, before: 0, after: 0, step: duration },
            )[k]).start == interval.start + k * duration && candidates_in(
                interval,
                SlotGrid { duration, before: 0, after: 0, step: duration },
            )[k].end == interval.start + (k + 1) * duration,
        crate::domain::value_objects::pairwise_disjoint(
            candidates_in(interval, SlotGrid { duration, before: 0, after: 0, step: duration }),
        ),
{
    let grid = SlotGrid { duration, before: 0, after: 0, step: duration };
    let slots = candidates_in(interval, grid);
    let length = interval.end - interval.start;
    if length >= duration {
        assert((length - duration) / duration + 1 == length / duration) by (nonlinear_arith)
            requires
                duration > 0,
                length >= duration,
        ;
    } else {
        assert(length / duration == 0) by (nonlinear_arith)
            requires
                0 <= length < duration,
        ;
    }
    assert forall|k: int| 0 <= k < slots.len() implies (#[trigger] slots[k]).start == interval.start
        + k * duration && slots[k].end == interval.start + (k + 1) * duration by {
        lemma_candidates_fit(interval, grid, k);
        assert((k + 1) * duration == k * duration + duration) by (nonlinear_arith);
    }
    assert forall|i: int, j: int| 0 <= i < j < slots.len() implies !slots[i].spec_overlaps(
        &slots[j],
    ) by {
        assert((i + 1) * duration <= j * duration) by (nonlinear_arith)
            requires
                i + 1 <= j,
                duration > 0,
        ;
    }
}

/// One open interval of length `L`, cut without buffers into slots of
/// `duration_minutes`, stepping by that duration, gives exactly
/// `L / (60 * duration_minutes)` slots (rounded down): the first starts with
/// the interval, each starts where the one before it ends, and no two
/// overlap.
pub proof fn lemma_exhaustive_generation(
    interval: TimeSlot,
    duration_minutes: u32,
    step_minutes: Option<u32>,
)
    requires
        interval.start <= interval.end,
        duration_minutes > 0,
        step_minutes is None || step_minutes == Some(duration_minutes),
    ensures
        spec_generate(seq![interval], grid_of(duration_minutes, 0, 0, step_minutes)).len() == (
        interval.end - interval.start) / (duration_minutes * 60),
        forall|k: int|
            0 <= k < spec_generate(
                seq![interval],
                grid_of(duration_minutes, 0, 0, step_minutes),
            ).len() ==> (#[trigger] spec_generate(
                seq![interval],
                grid_of(duration_minutes, 0, 0, step_minutes),
            )[k]).start == interval.start + k * (duration_minutes * 60) && spec_generate(
                seq![interval],
                grid_of(duration_minutes, 0, 0, step_minutes),
            )[k].end == interval.start + (k + 1) * (duration_minutes * 60),
        forall|k: int|
            0 <= k && k + 1 < spec_generate(
                seq![interval],
                grid_of(duration_minutes, 0, 0, step_minutes),
            ).len() ==> (#[trigger] spec_generate(
                seq![interval],
                grid_of(duration_minutes, 0, 0, step_minutes),
            )[k]).end == spec_generate(
                seq![interval],
                grid_of(duration_minutes, 0, 0, step_minutes),
            )[k + 1].start,
        crate::domain::value_objects::pairwise_disjoint(
            spec_generate(seq![interval], grid_of(duration_minutes, 0, 0, step_minutes)),
        ),
{
    let grid = grid_of(duration_minutes, 0, 0, step_minutes);
    let slots = spec_generate(seq![interval], grid);
    seq![interval].lemma_flat_map_singleton(cut_by(grid));
    lemma_exhaustive_cut(interval, duration_minutes * SECONDS_PER_MINUTE as int);
    assert forall|k: int| 0 <= k && k + 1 < slots.len() implies (#[trigger] slots[k]).end == slots[k
        + 1].start by {
        assert(slots[k + 1].start == interval.start + (k + 1) * (duration_minutes * 60));
    }
}

/// Every generated slot is a candidate of one of the open intervals.
pub proof fn lemma_generated_from_interval(open: Seq<TimeSlot>, grid: SlotGrid, n: int)
    requires
        0 <= n < spec_generate(open, grid).len(),
    ensures
        exists|i: int, k: int|
            0 <= i < open.len() && 0 <= k < candidates_in(open[i], grid).len() && spec_generate(
                open,
                grid,
            )[n] == #[trigger] candidates_in(open[i], grid)[k],
    decreases open.len(),
{
    if open.len() == 0 {
        assert(open.map_values(cut_by(grid)) =~= Seq::<Seq<TimeSlot>>::empty());
    } else {
        let head = open.drop_last();
        let last = open.last();
        assert(open =~= head.push(last));
        head.lemma_flat_map_push(cut_by(grid), last);
        let before = spec_generate(head, grid);
        if n < before.len() {
            lemma_generated_from_interval(head, grid, n);
            let (i, k) = choose|i: int, k: int|
                0 <= i < head.len() && 0 <= k < candidates_in(head[i], grid).len() && before[n]
                    == #[trigger] candidates_in(head[i], grid)[k];
            assert(open[i] == head[i]);
        } else {
            let k = n - before.len();
            assert(spec_generate(open, grid)[n] == candidates_in(open[open.len() - 1], grid)[k]);
        }
    }
}

/// Every generated slot has the grid's duration and lies, with its buffers,
/// within one of the open intervals.
pub proof fn lemma_generated_slots_fit(open: Seq<TimeSlot>, grid: SlotGrid, n: int)
    requires
        grid.is_valid(),
        0 <= n < spec_generate(open, grid).len(),
    ensures
        spec_generate(open, grid)[n].end == spec_generate(open, grid)[n].start + grid.duration,
        exists|i: int|
            0 <= i < open.len() && (#[trigger] open[i]).start <= spec_generate(open, grid)[n].start
                - grid.before && spec_generate(open, grid)[n].end + grid.after <= open[i].end,
{
    lemma_generated_from_interval(open, grid, n);
    let (i, k) = choose|i: int, k: int|
        0 <= i < open.len() && 0 <= k < candidates_in(open[i], grid).len() && spec_generate(
            open,
            grid,
        )[n] == #[trigger] candidates_in(open[i], grid)[k];
    lemma_candidates_fit(open[i], grid, k);
}

} // verus!
