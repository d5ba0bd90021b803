//! Resolution of the trace target: from a mode name and a list of explicit
//! ids to the selection that the instrumentation applies.

use vstd::prelude::*;
use vstd::string::StrSliceExecFns;

verus! {

/// Whether ids name threads or whole processes.
#[derive(Clone, Copy, Debug, PartialEq, Eq, Structural)]
pub enum TraceMode {
    /// Thread-focused: an id is a thread id.
    Tid,
    /// Process-focused: an id is a process id.
    Tgid,
}

/// Why a configuration is refused.
#[derive(Clone, Copy, Debug, PartialEq, Eq, Structural)]
pub enum ConfigError {
    /// The mode name is neither `tid` nor `tgid`.
    InvalidMode,
}

/// The mode that `name` stands for, if any.
pub open spec fn mode_of(name: Seq<char>) -> Option<TraceMode> {
    if name == seq!['t', 'i', 'd'] {
        Some(TraceMode::Tid)
    } else if name == seq!['t', 'g', 'i', 'd'] {
        Some(TraceMode::Tgid)
    } else {
        None
    }
}

/// The ids of `targets`, each once, in the order of their first occurrence.
pub open spec fn distinct(targets: Seq<i32>) -> Seq<i32>
    decreases targets.len(),
{
    if targets.len() == 0 {
        Seq::<i32>::empty()
    } else if distinct(targets.drop_last()).contains(targets.last()) {
        distinct(targets.drop_last())
    } else {
        distinct(targets.drop_last()).push(targets.last())
    }
}

/// Which tasks are traced.
#[derive(Clone, Debug, PartialEq, Eq)]
pub enum Selection {
    /// The caller itself: its thread or its process, by the mode.
    Default,
    /// One id, held in a slot of its own so that no table is consulted.
    Single(i32),
    /// The ids of the membership table, each once.
    Many(Vec<i32>),
}

/// A `Selection` with its ids as a sequence.
pub ghost enum SelectionView {
    Default,
    Single(i32),
    Many(Seq<i32>),
}

impl View for Selection {
    type V = SelectionView;

    open spec fn view(&self) -> SelectionView {
        match self {
            Selection::Default => SelectionView::Default,
            Selection::Single(id) => SelectionView::Single(*id),
            Selection::Many(ids) => SelectionView::Many(ids@),
        }
    }
}

impl SelectionView {
    /// The explicit ids that are traced; none for `Default`.
    pub open spec fn ids(self) -> Set<i32> {
        match self {
            SelectionView::Default => Set::<i32>::empty(),
            SelectionView::Single(id) => set![id],
            SelectionView::Many(ids) => ids.to_set(),
        }
    }
}

/// The selection that a list of explicit targets asks for: none gives
/// `Default`, one gives `Single`, two or more give `Many`.
pub open spec fn selection_of(targets: Seq<i32>) -> SelectionView {
    if targets.len() == 0 {
        SelectionView::Default
    } else if targets.len() == 1 {
        SelectionView::Single(targets[0])
    } else {
        SelectionView::Many(distinct(targets))
    }
}

/// The trace mode with the selection of tasks, fixed before a session starts.
#[derive(Clone, Debug, PartialEq, Eq)]
pub struct TargetPolicy {
    pub mode: TraceMode,
    pub selection: Selection,
}

/// What the instrumentation is configured with.
#[derive(Clone, Debug, PartialEq, Eq)]
pub struct InstrumentationPlan {
    /// 0 for thread-focused, 1 for process-focused.
    pub mode_code: i32,
    /// The id of the single-target slot, if that slot is used.
    pub single_target: Option<i32>,
    /// The ids to register in the membership table.
    pub table: Vec<i32>,
}

impl TraceMode {
    /// The number by which the instrumentation knows the mode.
    pub open spec fn code_spec(self) -> i32 {
        match self {
            TraceMode::Tid => 0,
            TraceMode::Tgid => 1,
        }
    }

    /// The number by which the instrumentation knows the mode.
    pub fn code(&self) -> (r: i32)
        ensures
            r == self.code_spec(),
    {
        match self {
            TraceMode::Tid => 0,
            TraceMode::Tgid => 1,
        }
    }

    /// The caller's own id under this mode.
    pub open spec fn own_id_spec(self, own_tid: i32, own_pid: i32) -> i32 {
        match self {
            TraceMode::Tid => own_tid,
            TraceMode::Tgid => own_pid,
        }
    }
}

/// Reads a mode name: `tid` or `tgid`, and nothing else.
pub fn parse_mode(name: &str) -> (r: Result<TraceMode, ConfigError>)
    ensures
        r == (match mode_of(name@) {
            Some(mode) => Ok::<TraceMode, ConfigError>(mode),
            None => Err::<TraceMode, ConfigError>(ConfigError::InvalidMode),
        }),
{
    let n: usize = name.unicode_len();
    if n == 3 {
        if name.get_char(0) == 't' && name.get_char(1) == 'i' && name.get_char(2) == 'd' {
            assert(name@ =~= seq!['t', 'i', 'd']);
            return Ok(TraceMode::Tid);
        }
    } else if n == 4 {
        if name.get_char(0) == 't' && name.get_char(1) == 'g' && name.get_char(2) == 'i'
            && name.get_char(3) == 'd' {
            assert(name@ =~= seq!['t', 'g', 'i', 'd']);
            return Ok(TraceMode::Tgid);
        }
    }
    Err(ConfigError::InvalidMode)
}

/// Whether `id` is among `ids`.
pub fn contains_id(ids: &Vec<i32>, id: i32) -> (r: bool)
    ensures
        r == ids@.contains(id),
{
    let mut i: usize = 0;
    while i < ids.len()
        invariant
            i <= ids.len(),
            forall|j: int| 0 <= j < i ==> ids@[j] != id,
        decreases ids.len() - i,
    {
        if ids[i] == id {
            return true;
        }
        i += 1;
    }
    false
}

/// The ids of `targets`, each once, in the order of their first occurrence.
pub fn distinct_ids(targets: &[i32]) -> (r: Vec<i32>)
    ensures
        r@ == distinct(targets@),
        r@.no_duplicates(),
        r@.to_set() == targets@.to_set(),
{
    let mut ids: Vec<i32> = Vec::new();
    let mut i: usize = 0;
    while i < targets.len()
        invariant
            i <= targets.len(),
            ids@ == distinct(targets@.take(i as int)),
        decreases targets.len() - i,
    {
        proof {
            assert(targets@.take(i + 1).drop_last() == targets@.take(i as int));
        }
        let id: i32 = targets[i];
        if !contains_id(&ids, id) {
            ids.push(id);
        }
        i += 1;
    }
    proof {
        assert(targets@.take(targets@.len() as int) == targets@);
        law_distinct_keeps_each_id_once(targets@);
    }
    ids
}

impl TargetPolicy {
    /// The policy for a mode and a list of explicit targets.
    pub fn for_mode(mode: TraceMode, targets: &[i32]) -> (r: TargetPolicy)
        ensures
            r.mode == mode,
            r.selection@ == selection_of(targets@),
            r.selection@.ids() == targets@.to_set(),
    {
        let selection = if targets.len() == 0 {
            assert(targets@.to_set() =~= Set::<i32>::empty());
            Selection::Default
        } else if targets.len() == 1 {
            assert(targets@.to_set() =~= set![targets@[0]]) by {
                assert(targets@.contains(targets@[0]));
            }
            Selection::Single(targets[0])
        } else {
            Selection::Many(distinct_ids(targets))
        };
        TargetPolicy { mode, selection }
    }

    /// The policy for a mode name and a list of explicit targets. A name
    /// other than `tid` and `tgid` is refused, whatever the targets.
    pub fn resolve(mode_name: &str, targets: &[i32]) -> (r: Result<TargetPolicy, ConfigError>)
        ensures
            r is Ok <==> mode_of(mode_name@) is Some,
            r is Err ==> r->Err_0 == ConfigError::InvalidMode,
            r is Ok ==> r->Ok_0.mode == mode_of(mode_name@).unwrap() && r->Ok_0.selection@
                == selection_of(targets@) && r->Ok_0.selection@.ids() == targets@.to_set(),
    {
        match parse_mode(mode_name) {
            Ok(mode) => Ok(TargetPolicy::for_mode(mode, targets)),
            Err(e) => Err(e),
        }
    }

    /// What `plan` hands to the instrumentation.
    pub open spec fn plan_matches(
        self,
        own_tid: i32,
        own_pid: i32,
        plan: InstrumentationPlan,
    ) -> bool {
        &&& plan.mode_code == self.mode.code_spec()
        &&& match self.selection@ {
            SelectionView::Default => plan.single_target == Some(
                self.mode.own_id_spec(own_tid, own_pid),
            ) && plan.table@ == Seq::<i32>::empty(),
            SelectionView::Single(id) => plan.single_target == Some(id) && plan.table@ == Seq::<
                i32,
            >::empty(),
            SelectionView::Many(ids) => plan.single_target == None::<i32> && plan.table@ == ids,
        }
    }

    /// The configuration of the instrumentation under this policy: the mode,
    /// then either the single-target slot (the caller's own id for `Default`)
    /// or the ids of the membership table.
    pub fn plan(&self, own_tid: i32, own_pid: i32) -> (r: InstrumentationPlan)
        ensures
            self.plan_matches(own_tid, own_pid, r),
    {
        let mode_code: i32 = self.mode.code();
        match &self.selection {
            Selection::Default => {
                let own: i32 = match self.mode {
                    TraceMode::Tid => own_tid,
                    TraceMode::Tgid => own_pid,
                };
                InstrumentationPlan { mode_code, single_target: Some(own), table: Vec::new() }
            },
            Selection::Single(id) => {
                InstrumentationPlan { mode_code, single_target: Some(*id), table: Vec::new() }
            },
            Selection::Many(ids) => {
                InstrumentationPlan { mode_code, single_target: None, table: ids.clone() }
            },
        }
    }
}

/// `distinct` keeps every id of the list, and each only once.
pub proof fn law_distinct_keeps_each_id_once(targets: Seq<i32>)
    ensures
        distinct(targets).no_duplicates(),
        distinct(targets).to_set() == targets.to_set(),
    decreases targets.len(),
{
    if targets.len() == 0 {
        assert(distinct(targets).to_set() =~= targets.to_set());
    } else {
        let head = targets.drop_last();
        let last = targets.last();
        law_distinct_keeps_each_id_once(head);
        let d = distinct(head);
        assert forall|id: i32| distinct(targets).to_set().contains(id) == targets.to_set().contains(
            id,
        ) by {
            if targets.contains(id) {
                let i = choose|i: int| 0 <= i < targets.len() && targets[i] == id;
                if i < head.len() {
                    assert(head[i] == id);
                    assert(head.to_set().contains(id));
                    assert(d.contains(id));
                    let j = choose|j: int| 0 <= j < d.len() && d[j] == id;
                    if !d.contains(last) {
                        assert(d.push(last)[j] == id);
                    }
                } else {
                    assert(id == last);
                    if !d.contains(last) {
                        assert(d.push(last)[d.len() as int] == last);
                    }
                }
            }
            if distinct(targets).contains(id) {
                let j = choose|j: int| 0 <= j < distinct(targets).len() && distinct(targets)[j] == id;
                if j < d.len() {
                    assert(d[j] == id);
                    assert(d.to_set().contains(id));
                    assert(head.contains(id));
                    let i = choose|i: int| 0 <= i < head.len() && head[i] == id;
                    assert(targets[i] == id);
                } else {
                    assert(id == last);
                    assert(targets[targets.len() - 1] == last);
                }
            }
        }
        assert(distinct(targets).to_set() =~= targets.to_set());
    }
}

/// Two lists with the same ids, in whatever order and however often each id
/// is repeated, give membership tables with the same ids.
pub proof fn law_table_ignores_order_and_repeats(a: Seq<i32>, b: Seq<i32>)
    requires
        a.to_set() == b.to_set(),
    ensures
        distinct(a).to_set() == distinct(b).to_set(),
        distinct(a).len() == distinct(b).len(),
{
    law_distinct_keeps_each_id_once(a);
    law_distinct_keeps_each_id_once(b);
    distinct(a).unique_seq_to_set();
    distinct(b).unique_seq_to_set();
}

} // verus!
