//! Statistics of one task: runtime, sleep duration and the interval between
//! the ends of successive sleeps.

use vstd::prelude::*;
use crate::quantity::{
    law_bounds_are_samples, law_count_is_number_of_samples, law_samples_within_bounds, sat64,
    QuantityStats,
};

verus! {

/// What one scheduling event says of a task.
#[derive(Clone, Copy, Debug, PartialEq, Eq, Structural)]
pub struct Observation {
    pub runtime_ns: u64,
    pub sleep_start: u64,
    pub sleep_end: u64,
}

impl Observation {
    /// The event carries a sleep: its end lies after its start.
    pub open spec fn sleeps(self) -> bool {
        self.sleep_end > self.sleep_start
    }

    /// Length of the sleep, 0 where the event carries none.
    pub open spec fn sleep_duration(self) -> u64 {
        sleep_length(self.sleep_start, self.sleep_end)
    }
}

/// Length of the sleep window, 0 where the end does not lie after the start.
pub open spec fn sleep_length(sleep_start: u64, sleep_end: u64) -> u64 {
    if sleep_end > sleep_start {
        (sleep_end - sleep_start) as u64
    } else {
        0
    }
}

/// Length of the sleep window, 0 where the end does not lie after the start.
pub fn sleep_duration(sleep_start: u64, sleep_end: u64) -> (r: u64)
    ensures
        r == sleep_length(sleep_start, sleep_end),
        r > 0 <==> sleep_end > sleep_start,
{
    if sleep_end > sleep_start {
        sleep_end - sleep_start
    } else {
        0
    }
}

/// The three accumulators of one task, the end of its latest sleep (0 until
/// it has slept) and the number of its events.
#[derive(Clone, Copy, Debug, PartialEq, Eq, Structural)]
pub struct TaskStats {
    pub runtime: QuantityStats,
    pub sleep: QuantityStats,
    pub sleep_interval: QuantityStats,
    pub last_sleep_end: u64,
    pub event_count: u64,
}

impl TaskStats {
    /// The statistics of a task of which no event was seen.
    pub open spec fn empty() -> TaskStats {
        TaskStats {
            runtime: QuantityStats::empty(),
            sleep: QuantityStats::empty(),
            sleep_interval: QuantityStats::empty(),
            last_sleep_end: 0,
            event_count: 0,
        }
    }

    /// An interval sample is taken when the task has slept before and this
    /// sleep ends after the previous one.
    pub open spec fn takes_interval(self, sleep_end: u64) -> bool {
        self.last_sleep_end > 0 && sleep_end > self.last_sleep_end
    }

    /// The statistics after an event with the given runtime, sleep length
    /// (0 for none) and sleep end.
    pub open spec fn updated(self, runtime_ns: u64, sleep_ns: u64, sleep_end: u64) -> TaskStats {
        TaskStats {
            runtime: self.runtime.recorded(runtime_ns),
            sleep: if sleep_ns > 0 {
                self.sleep.recorded(sleep_ns)
            } else {
                self.sleep
            },
            sleep_interval: if sleep_ns > 0 && self.takes_interval(sleep_end) {
                self.sleep_interval.recorded((sleep_end - self.last_sleep_end) as u64)
            } else {
                self.sleep_interval
            },
            last_sleep_end: if sleep_ns > 0 {
                sleep_end
            } else {
                self.last_sleep_end
            },
            event_count: sat64(self.event_count + 1),
        }
    }

    /// The statistics after the event `e`.
    pub open spec fn observed(self, e: Observation) -> TaskStats {
        self.updated(e.runtime_ns, e.sleep_duration(), e.sleep_end)
    }

    /// The statistics of a task of which exactly `events` were seen, in order.
    pub open spec fn of(events: Seq<Observation>) -> TaskStats
        decreases events.len(),
    {
        if events.len() == 0 {
            TaskStats::empty()
        } else {
            TaskStats::of(events.drop_last()).observed(events.last())
        }
    }

    /// Each accumulator is well formed, every event fed the runtime
    /// accumulator, and neither sleeps nor intervals outnumber the events.
    pub open spec fn wf(self) -> bool {
        &&& self.runtime.wf()
        &&& self.sleep.wf()
        &&& self.sleep_interval.wf()
        &&& self.runtime.count == self.event_count
        &&& self.sleep.count <= self.event_count
        &&& self.sleep_interval.count <= self.sleep.count
        &&& self.sleep.count == 0 ==> self.sleep_interval.count == 0
    }

    pub fn new() -> (r: TaskStats)
        ensures
            r == TaskStats::empty(),
            r.wf(),
    {
        TaskStats {
            runtime: QuantityStats::new(),
            sleep: QuantityStats::new(),
            sleep_interval: QuantityStats::new(),
            last_sleep_end: 0,
            event_count: 0,
        }
    }

    /// Feeds one event whose sleep length the caller has computed already
    /// (0 for none).
    pub fn update(&mut self, runtime_ns: u64, sleep_ns: u64, sleep_end: u64)
        ensures
            *final(self) == old(self).updated(runtime_ns, sleep_ns, sleep_end),
            old(self).wf() ==> final(self).wf(),
            final(self).event_count >= old(self).event_count,
    {
        self.event_count = self.event_count.saturating_add(1);
        self.runtime.update(runtime_ns);
        if sleep_ns > 0 {
            self.sleep.update(sleep_ns);
            if self.last_sleep_end > 0 && sleep_end > self.last_sleep_end {
                let interval: u64 = sleep_end - self.last_sleep_end;
                self.sleep_interval.update(interval);
            }
            self.last_sleep_end = sleep_end;
        }
    }

    /// Feeds one event: counts it, records its runtime, and where the sleep
    /// window is not empty records the sleep and, after an earlier sleep that
    /// ended before this one, the interval between the two ends.
    pub fn observe(&mut self, runtime_ns: u64, sleep_start: u64, sleep_end: u64)
        ensures
            *final(self) == old(self).observed(
                Observation { runtime_ns, sleep_start, sleep_end },
            ),
            old(self).wf() ==> final(self).wf(),
            final(self).event_count >= old(self).event_count,
            final(self).event_count > 0,
    {
        let sleep_ns: u64 = sleep_duration(sleep_start, sleep_end);
        self.update(runtime_ns, sleep_ns, sleep_end);
    }
}

/// The runtimes of the events, in order.
pub open spec fn runtime_samples(events: Seq<Observation>) -> Seq<u64> {
    Seq::new(events.len(), |i: int| events[i].runtime_ns)
}

/// The lengths of the sleeps that the events carry, in order.
pub open spec fn sleep_samples(events: Seq<Observation>) -> Seq<u64>
    decreases events.len(),
{
    if events.len() == 0 {
        Seq::<u64>::empty()
    } else if events.last().sleeps() {
        sleep_samples(events.drop_last()).push(events.last().sleep_duration())
    } else {
        sleep_samples(events.drop_last())
    }
}

/// The end of the latest sleep among the events, 0 where none carries one.
pub open spec fn latest_sleep_end(events: Seq<Observation>) -> u64
    decreases events.len(),
{
    if events.len() == 0 {
        0
    } else if events.last().sleeps() {
        events.last().sleep_end
    } else {
        latest_sleep_end(events.drop_last())
    }
}

/// The event after `earlier` gives an interval sample: it carries a sleep,
/// an earlier event carried one too, and this sleep ends after that one.
pub open spec fn gives_interval(earlier: Seq<Observation>, e: Observation) -> bool {
    e.sleeps() && latest_sleep_end(earlier) > 0 && e.sleep_end > latest_sleep_end(earlier)
}

/// The times between the ends of successive sleeps, in order.
pub open spec fn interval_samples(events: Seq<Observation>) -> Seq<u64>
    decreases events.len(),
{
    if events.len() == 0 {
        Seq::<u64>::empty()
    } else if gives_interval(events.drop_last(), events.last()) {
        interval_samples(events.drop_last()).push(
            (events.last().sleep_end - latest_sleep_end(events.drop_last())) as u64,
        )
    } else {
        interval_samples(events.drop_last())
    }
}

/// After any sequence of events, each accumulator holds exactly the samples
/// of the events that met its condition: the runtime of every event, the
/// sleep of every event that carries one, and the interval of every sleep
/// that ends after an earlier one. The event count is the number of events,
/// up to saturation.
pub proof fn law_accumulators_hold_their_samples(events: Seq<Observation>)
    ensures
        TaskStats::of(events).runtime == QuantityStats::of(runtime_samples(events)),
        TaskStats::of(events).sleep == QuantityStats::of(sleep_samples(events)),
        TaskStats::of(events).sleep_interval == QuantityStats::of(interval_samples(events)),
        TaskStats::of(events).last_sleep_end == latest_sleep_end(events),
        TaskStats::of(events).event_count == sat64(events.len() as int),
    decreases events.len(),
{
    if events.len() > 0 {
        let head = events.drop_last();
        law_accumulators_hold_their_samples(head);
        assert(runtime_samples(events).drop_last() == runtime_samples(head));
        assert(runtime_samples(events).last() == events.last().runtime_ns);
        if events.last().sleeps() {
            let pushed = sleep_samples(head).push(events.last().sleep_duration());
            assert(pushed.drop_last() == sleep_samples(head));
            assert(pushed.last() == events.last().sleep_duration());
        }
        if gives_interval(head, events.last()) {
            let interval = (events.last().sleep_end - latest_sleep_end(head)) as u64;
            let pushed = interval_samples(head).push(interval);
            assert(pushed.drop_last() == interval_samples(head));
            assert(pushed.last() == interval);
        }
    }
}

/// The count of each accumulator is the number of events that met its
/// condition, up to saturation; sleeps do not outnumber events, nor
/// intervals sleeps.
pub proof fn law_counts_follow_conditions(events: Seq<Observation>)
    ensures
        TaskStats::of(events).runtime.count == sat64(events.len() as int),
        TaskStats::of(events).sleep.count == sat64(sleep_samples(events).len() as int),
        TaskStats::of(events).sleep_interval.count == sat64(interval_samples(events).len() as int),
        interval_samples(events).len() <= sleep_samples(events).len() <= events.len(),
        sleep_samples(events).len() == events.filter(|e: Observation| e.sleeps()).len(),
    decreases events.len(),
{
    law_accumulators_hold_their_samples(events);
    law_count_is_number_of_samples(runtime_samples(events));
    law_count_is_number_of_samples(sleep_samples(events));
    law_count_is_number_of_samples(interval_samples(events));
    reveal(Seq::filter);
    if events.len() > 0 {
        law_counts_follow_conditions(events.drop_last());
    }
}

/// Every sample that an accumulator has taken lies between its minimum and
/// its maximum.
pub proof fn law_task_samples_within_bounds(events: Seq<Observation>)
    ensures
        forall|i: int|
            0 <= i < events.len() ==> TaskStats::of(events).runtime.min <= (
            #[trigger] events[i]).runtime_ns <= TaskStats::of(events).runtime.max,
        forall|i: int|
            0 <= i < sleep_samples(events).len() ==> TaskStats::of(events).sleep.min
                <= #[trigger] sleep_samples(events)[i] <= TaskStats::of(events).sleep.max,
        forall|i: int|
            0 <= i < interval_samples(events).len() ==> TaskStats::of(events).sleep_interval.min
                <= #[trigger] interval_samples(events)[i] <= TaskStats::of(
                events,
            ).sleep_interval.max,
{
    law_accumulators_hold_their_samples(events);
    law_samples_within_bounds(runtime_samples(events));
    law_samples_within_bounds(sleep_samples(events));
    law_samples_within_bounds(interval_samples(events));
    assert forall|i: int| 0 <= i < events.len() implies TaskStats::of(events).runtime.min <= (
    #[trigger] events[i]).runtime_ns <= TaskStats::of(events).runtime.max by {
        assert(runtime_samples(events)[i] == events[i].runtime_ns);
    }
}

/// The statistics of any sequence of events are well formed.
pub proof fn law_statistics_are_well_formed(events: Seq<Observation>)
    ensures
        TaskStats::of(events).wf(),
{
    law_accumulators_hold_their_samples(events);
    law_counts_follow_conditions(events);
    if runtime_samples(events).len() > 0 {
        law_bounds_are_samples(runtime_samples(events));
    }
    if sleep_samples(events).len() > 0 {
        law_bounds_are_samples(sleep_samples(events));
    }
    if interval_samples(events).len() > 0 {
        law_bounds_are_samples(interval_samples(events));
    }
}

} // verus!
