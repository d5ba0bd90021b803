//! The report of a session: one row for each task that was observed, with
//! the accumulators that hold at least one sample.

use vstd::prelude::*;
use crate::quantity::QuantityStats;
use crate::store::{StatsStore, TaskEntry};

verus! {

/// The row of one task. A quantity without a sample has no section.
#[derive(Clone, Copy, Debug, PartialEq, Eq, Structural)]
pub struct TaskReport {
    pub task_id: i32,
    pub event_count: u64,
    pub runtime: Option<QuantityStats>,
    pub sleep: Option<QuantityStats>,
    pub sleep_interval: Option<QuantityStats>,
}

/// The section of a quantity: the accumulator itself where it holds a
/// sample, nothing otherwise.
pub open spec fn section_of(quantity: QuantityStats) -> Option<QuantityStats> {
    if quantity.count > 0 {
        Some(quantity)
    } else {
        None
    }
}

/// The row of one entry.
pub open spec fn row_of(entry: TaskEntry) -> TaskReport {
    TaskReport {
        task_id: entry.task_id,
        event_count: entry.stats.event_count,
        runtime: section_of(entry.stats.runtime),
        sleep: section_of(entry.stats.sleep),
        sleep_interval: section_of(entry.stats.sleep_interval),
    }
}

/// The rows of the entries that have seen an event, in the entries' order.
pub open spec fn rows_of(entries: Seq<TaskEntry>) -> Seq<TaskReport>
    decreases entries.len(),
{
    if entries.len() == 0 {
        Seq::<TaskReport>::empty()
    } else if entries.last().stats.event_count > 0 {
        rows_of(entries.drop_last()).push(row_of(entries.last()))
    } else {
        rows_of(entries.drop_last())
    }
}

/// The section of a quantity.
pub fn section(quantity: &QuantityStats) -> (r: Option<QuantityStats>)
    ensures
        r == section_of(*quantity),
{
    if quantity.count > 0 {
        Some(*quantity)
    } else {
        None
    }
}

/// The row of one entry.
pub fn row(entry: &TaskEntry) -> (r: TaskReport)
    ensures
        r == row_of(*entry),
{
    TaskReport {
        task_id: entry.task_id,
        event_count: entry.stats.event_count,
        runtime: section(&entry.stats.runtime),
        sleep: section(&entry.stats.sleep),
        sleep_interval: section(&entry.stats.sleep_interval),
    }
}

/// The rows of the entries that have seen an event, in the entries' order.
/// An entry without events gives no row.
pub fn report(entries: &[TaskEntry]) -> (r: Vec<TaskReport>)
    ensures
        r@ == rows_of(entries@),
{
    let mut rows: Vec<TaskReport> = Vec::new();
    let mut i: usize = 0;
    while i < entries.len()
        invariant
            i <= entries.len(),
            rows@ == rows_of(entries@.take(i as int)),
        decreases entries.len() - i,
    {
        proof {
            assert(entries@.take(i + 1).drop_last() == entries@.take(i as int));
        }
        if entries[i].stats.event_count > 0 {
            rows.push(row(&entries[i]));
        }
        i += 1;
    }
    proof {
        assert(entries@.take(entries@.len() as int) == entries@);
    }
    rows
}

/// The report of a store: a row for each of its tasks that has seen an
/// event, each task once, and no other row.
pub fn report_store(store: &StatsStore) -> (r: Vec<TaskReport>)
    ensures
        forall|id: i32|
            (store@.contains_key(id) && store@[id].event_count > 0) ==> r@.contains(
                #[trigger] row_of(TaskEntry { task_id: id, stats: store@[id] }),
            ),
        forall|j: int|
            0 <= j < r@.len() ==> {
                let id = (#[trigger] r@[j]).task_id;
                &&& store@.contains_key(id)
                &&& store@[id].event_count > 0
                &&& r@[j] == row_of(TaskEntry { task_id: id, stats: store@[id] })
            },
        forall|j: int, k: int|
            0 <= j < k < r@.len() ==> (#[trigger] r@[j]).task_id != (#[trigger] r@[k]).task_id,
        store.wf() ==> r@.len() == store@.dom().len(),
{
    let entries = store.snapshot();
    let rows = report(entries.as_slice());
    proof {
        law_report_rows(entries@);
        assert forall|id: i32|
            (store@.contains_key(id) && store@[id].event_count > 0) implies rows@.contains(
            #[trigger] row_of(TaskEntry { task_id: id, stats: store@[id] }),
        ) by {
            let i = choose|i: int| 0 <= i < entries@.len() && (#[trigger] entries@[i]).task_id == id;
            assert(entries@[i] == TaskEntry { task_id: id, stats: store@[id] });
        }
        assert forall|j: int| 0 <= j < rows@.len() implies {
            let id = (#[trigger] rows@[j]).task_id;
            &&& store@.contains_key(id)
            &&& store@[id].event_count > 0
            &&& rows@[j] == row_of(TaskEntry { task_id: id, stats: store@[id] })
        } by {
            let i = source_index(entries@, j);
            assert(entries@[i] == TaskEntry {
                task_id: entries@[i].task_id,
                stats: store@[entries@[i].task_id],
            });
        }
        assert forall|j: int, k: int| 0 <= j < k < rows@.len() implies (#[trigger] rows@[j]).task_id
            != (#[trigger] rows@[k]).task_id by {
            let a = source_index(entries@, j);
            let b = source_index(entries@, k);
            assert(entries@[a].task_id != entries@[b].task_id);
        }
        if store.wf() {
            law_all_observed_reported(entries@);
        }
    }
    rows
}

/// The index of the entry that row `j` was made from.
pub open spec fn source_index(entries: Seq<TaskEntry>, j: int) -> int
    decreases entries.len(),
{
    if entries.len() == 0 {
        0
    } else if entries.last().stats.event_count > 0 && j == rows_of(entries.drop_last()).len() {
        entries.len() - 1
    } else {
        source_index(entries.drop_last(), j)
    }
}

/// The report holds a row for every entry that has seen an event, and every
/// row comes from such an entry; rows keep the order of their entries.
pub proof fn law_report_rows(entries: Seq<TaskEntry>)
    ensures
        rows_of(entries).len() <= entries.len(),
        forall|i: int|
            0 <= i < entries.len() && (#[trigger] entries[i]).stats.event_count > 0 ==> rows_of(
                entries,
            ).contains(row_of(entries[i])),
        forall|j: int|
            0 <= j < rows_of(entries).len() ==> {
                let i = #[trigger] source_index(entries, j);
                &&& 0 <= i < entries.len()
                &&& entries[i].stats.event_count > 0
                &&& rows_of(entries)[j] == row_of(entries[i])
            },
        forall|j: int, k: int|
            0 <= j < k < rows_of(entries).len() ==> #[trigger] source_index(entries, j)
                < #[trigger] source_index(entries, k),
    decreases entries.len(),
{
    if entries.len() > 0 {
        let head = entries.drop_last();
        let last = entries.last();
        law_report_rows(head);
        let rows = rows_of(entries);
        assert forall|i: int|
            0 <= i < entries.len() && (#[trigger] entries[i]).stats.event_count
                > 0 implies rows.contains(row_of(entries[i])) by {
            if i < head.len() {
                assert(head[i] == entries[i]);
                let j = choose|j: int|
                    0 <= j < rows_of(head).len() && rows_of(head)[j] == row_of(head[i]);
                assert(rows[j] == row_of(entries[i]));
            } else {
                assert(rows[rows.len() - 1] == row_of(entries[i]));
            }
        }
        assert forall|j: int| 0 <= j < rows.len() implies {
            let i = #[trigger] source_index(entries, j);
            &&& 0 <= i < entries.len()
            &&& entries[i].stats.event_count > 0
            &&& rows[j] == row_of(entries[i])
        } by {
            if j < rows_of(head).len() {
                let i = source_index(head, j);
                assert(head[i] == entries[i]);
            }
        }
        assert forall|j: int, k: int| 0 <= j < k < rows.len() implies #[trigger] source_index(
            entries,
            j,
        ) < #[trigger] source_index(entries, k) by {
            if k < rows_of(head).len() {
                assert(source_index(head, j) < source_index(head, k));
            } else {
                assert(source_index(head, j) < head.len());
            }
        }
    }
}

/// Where every entry has seen an event, every entry has its row.
pub proof fn law_all_observed_reported(entries: Seq<TaskEntry>)
    requires
        forall|i: int| 0 <= i < entries.len() ==> (#[trigger] entries[i]).stats.event_count > 0,
    ensures
        rows_of(entries).len() == entries.len(),
        forall|i: int| 0 <= i < entries.len() ==> rows_of(entries)[i] == row_of(#[trigger] entries[i]),
    decreases entries.len(),
{
    if entries.len() > 0 {
        let head = entries.drop_last();
        assert forall|i: int| 0 <= i < head.len() implies (#[trigger] head[i]).stats.event_count
            > 0 by {
            assert(head[i] == entries[i]);
        }
        law_all_observed_reported(head);
        assert(entries[entries.len() - 1].stats.event_count > 0);
        assert forall|i: int| 0 <= i < entries.len() implies rows_of(entries)[i] == row_of(
            #[trigger] entries[i],
        ) by {
            if i < head.len() {
                assert(head[i] == entries[i]);
            }
        }
    }
}

} // verus!
