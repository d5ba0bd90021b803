//! The statistics store: one accumulator per task id, created when the task
//! is first observed and never removed.

use vstd::prelude::*;
use std::collections::HashMap;
use vstd::std_specs::hash::spec_hash_map_iter;
use vstd::std_specs::iter::IteratorSpec;
use crate::event::{decode, DecodeError, RawEvent};
use crate::task_stats::{
    law_accumulators_hold_their_samples, law_statistics_are_well_formed, Observation, TaskStats,
};

verus! {

broadcast use vstd::std_specs::hash::group_hash_axioms;

/// A task id with the statistics of that task.
#[derive(Clone, Copy, Debug, PartialEq, Eq, Structural)]
pub struct TaskEntry {
    pub task_id: i32,
    pub stats: TaskStats,
}

/// Map from task id to the statistics of that task.
pub struct StatsStore {
    tasks: HashMap<i32, TaskStats>,
}

/// The statistics that `tasks` holds for `task_id`, those of an unseen task
/// where it holds none.
pub open spec fn stats_or_empty(tasks: Map<i32, TaskStats>, task_id: i32) -> TaskStats {
    if tasks.contains_key(task_id) {
        tasks[task_id]
    } else {
        TaskStats::empty()
    }
}

/// The map after one event of `task_id`: that task's entry is created if
/// need be and fed the event, every other entry stays as it is.
pub open spec fn observed_in(tasks: Map<i32, TaskStats>, task_id: i32, e: Observation) -> Map<
    i32,
    TaskStats,
> {
    tasks.insert(task_id, stats_or_empty(tasks, task_id).observed(e))
}

impl View for StatsStore {
    type V = Map<i32, TaskStats>;

    closed spec fn view(&self) -> Map<i32, TaskStats> {
        self.tasks@
    }
}

impl StatsStore {
    /// Every entry is well formed and has seen at least one event.
    pub open spec fn wf(&self) -> bool {
        &&& self@.dom().finite()
        &&& forall|id: i32| #[trigger]
            self@.contains_key(id) ==> self@[id].wf() && self@[id].event_count > 0
    }

    pub fn new() -> (r: StatsStore)
        ensures
            r@ == Map::<i32, TaskStats>::empty(),
            r.wf(),
    {
        StatsStore { tasks: HashMap::new() }
    }

    /// Number of tasks observed so far.
    pub fn len(&self) -> (r: usize)
        ensures
            r == self@.dom().len(),
    {
        self.tasks.len()
    }

    /// The statistics of `task_id`, if it was observed.
    pub fn get(&self, task_id: i32) -> (r: Option<TaskStats>)
        ensures
            r == (if self@.contains_key(task_id) {
                Some(self@[task_id])
            } else {
                None
            }),
    {
        match self.tasks.get(&task_id) {
            Some(stats) => Some(*stats),
            None => None,
        }
    }

    /// Feeds one event to the accumulator of `task_id`, which is created
    /// first where the task was not seen before.
    pub fn observe(&mut self, task_id: i32, runtime_ns: u64, sleep_start: u64, sleep_end: u64)
        ensures
            final(self)@ == observed_in(
                old(self)@,
                task_id,
                Observation { runtime_ns, sleep_start, sleep_end },
            ),
            old(self).wf() ==> final(self).wf(),
    {
        let mut stats: TaskStats = match self.tasks.get(&task_id) {
            Some(found) => *found,
            None => TaskStats::new(),
        };
        stats.observe(runtime_ns, sleep_start, sleep_end);
        self.tasks.insert(task_id, stats);
    }

    /// Feeds one decoded event to the store.
    pub fn record(&mut self, event: &RawEvent)
        ensures
            final(self)@ == observed_in(old(self)@, event.task_id, event.observation_spec()),
            old(self).wf() ==> final(self).wf(),
    {
        self.observe(event.task_id, event.runtime_ns, event.sleep_start, event.sleep_end);
    }

    /// All entries, each task once, in no particular order.
    pub fn snapshot(&self) -> (r: Vec<TaskEntry>)
        ensures
            is_snapshot_of(r@, self@),
    {
        let mut entries: Vec<TaskEntry> = Vec::new();
        for pair in it: self.tasks.iter()
            invariant
                it.seq() == spec_hash_map_iter(&self.tasks).remaining(),
                it.seq().no_duplicates(),
                entries@.len() == it.index(),
                forall|i: int|
                    0 <= i < entries@.len() ==> (#[trigger] entries@[i]).task_id == *it.seq()[i].0
                        && entries@[i].stats == *it.seq()[i].1,
        {
            entries.push(TaskEntry { task_id: *pair.0, stats: *pair.1 });
        }
        proof {
            let pairs = spec_hash_map_iter(&self.tasks).remaining();
            assert(entries@.len() == pairs.len());
            assert forall|i: int, j: int| 0 <= i < j < entries@.len() implies (
            #[trigger] entries@[i]).task_id != (#[trigger] entries@[j]).task_id by {
                if entries@[i].task_id == entries@[j].task_id {
                    assert(self@.contains_key(*pairs[i].0));
                    assert(self@.contains_key(*pairs[j].0));
                    assert(pairs[i] == pairs[j]);
                }
            }
            assert forall|id: i32| #[trigger] self@.contains_key(id) implies exists|i: int|
                0 <= i < entries@.len() && (#[trigger] entries@[i]).task_id == id by {
                assert(pairs.contains((&id, &self@[id])));
                let i = choose|i: int| 0 <= i < pairs.len() && pairs[i] == (&id, &self@[id]);
                assert(entries@[i].task_id == id);
            }
        }
        entries
    }
}

/// `entries` lists exactly the pairs of `tasks`, each key once.
pub open spec fn is_snapshot_of(entries: Seq<TaskEntry>, tasks: Map<i32, TaskStats>) -> bool {
    &&& entries.len() == tasks.dom().len()
    &&& forall|i: int|
        0 <= i < entries.len() ==> tasks.contains_key((#[trigger] entries[i]).task_id)
            && tasks[entries[i].task_id] == entries[i].stats
    &&& forall|i: int, j: int|
        0 <= i < j < entries.len() ==> (#[trigger] entries[i]).task_id != (
        #[trigger] entries[j]).task_id
    &&& forall|id: i32| #[trigger]
        tasks.contains_key(id) ==> exists|i: int|
            0 <= i < entries.len() && (#[trigger] entries[i]).task_id == id
}

/// Decodes one raw buffer and feeds it to the store. A buffer that is not a
/// record leaves the store as it was and is reported to the caller.
pub fn process_event(data: &[u8], store: &mut StatsStore) -> (r: Result<RawEvent, DecodeError>)
    ensures
        r is Ok <==> data@.len() == crate::event::RECORD_SIZE,
        r is Err ==> final(store)@ == old(store)@ && r == Err::<RawEvent, DecodeError>(
            DecodeError::MalformedRecord { length: data.len() },
        ),
        r is Ok ==> r.unwrap().is_reading_of(data@) && final(store)@ == observed_in(
            old(store)@,
            r.unwrap().task_id,
            r.unwrap().observation_spec(),
        ),
        old(store).wf() ==> final(store).wf(),
{
    match decode(data) {
        Ok(event) => {
            store.record(&event);
            Ok(event)
        },
        Err(e) => Err(e),
    }
}

/// The map of a store that started empty and was fed `events`, in order.
pub open spec fn tasks_after(events: Seq<RawEvent>) -> Map<i32, TaskStats>
    decreases events.len(),
{
    if events.len() == 0 {
        Map::<i32, TaskStats>::empty()
    } else {
        observed_in(
            tasks_after(events.drop_last()),
            events.last().task_id,
            events.last().observation_spec(),
        )
    }
}

/// What the events of task `task_id` among `events` say of it, in order.
pub open spec fn observations_of(events: Seq<RawEvent>, task_id: i32) -> Seq<Observation>
    decreases events.len(),
{
    if events.len() == 0 {
        Seq::<Observation>::empty()
    } else if events.last().task_id == task_id {
        observations_of(events.drop_last(), task_id).push(events.last().observation_spec())
    } else {
        observations_of(events.drop_last(), task_id)
    }
}

/// After any sequence of events the store holds an entry for exactly the
/// tasks that an event named, and each entry is the statistics of that
/// task's own events: events of other tasks leave it untouched.
pub proof fn law_store_holds_each_tasks_statistics(events: Seq<RawEvent>, task_id: i32)
    ensures
        tasks_after(events).dom().finite(),
        tasks_after(events).contains_key(task_id) <==> observations_of(events, task_id).len() > 0,
        stats_or_empty(tasks_after(events), task_id) == TaskStats::of(
            observations_of(events, task_id),
        ),
    decreases events.len(),
{
    if events.len() > 0 {
        let head = events.drop_last();
        law_store_holds_each_tasks_statistics(head, task_id);
        if events.last().task_id == task_id {
            let pushed = observations_of(head, task_id).push(events.last().observation_spec());
            assert(pushed.drop_last() == observations_of(head, task_id));
            assert(pushed.last() == events.last().observation_spec());
        }
    }
}

/// After any sequence of events every entry of the store is well formed and
/// has counted at least one event.
pub proof fn law_store_entries_have_events(events: Seq<RawEvent>, task_id: i32)
    requires
        tasks_after(events).contains_key(task_id),
    ensures
        tasks_after(events)[task_id].wf(),
        tasks_after(events)[task_id].event_count > 0,
{
    law_store_holds_each_tasks_statistics(events, task_id);
    law_statistics_are_well_formed(observations_of(events, task_id));
    law_accumulators_hold_their_samples(observations_of(events, task_id));
}

} // verus!
