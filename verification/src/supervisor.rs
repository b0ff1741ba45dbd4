//! Background-task supervision: a finite-state machine over task lifecycles.
//!
//! Each registered task is in one of four states. The only mutators are the
//! lifecycle transitions; illegal transitions return a failure value and leave
//! every task unchanged, and operations on unknown ids never create an entry.

use vstd::prelude::*;

verus! {

#[derive(Debug, Clone, Copy, PartialEq, Eq, Structural)]
pub struct TaskId(pub u64);

#[derive(Debug, Clone, Copy, PartialEq, Eq, Structural)]
pub enum TaskLifecycle {
    Starting,
    Running,
    RestartPlanned,
    Stopped,
}

/// Restart authorization produced by a legal `mark_failed` transition.
#[derive(Debug, Clone, Copy, PartialEq, Eq, Structural)]
pub struct RestartIntent {
    pub should_restart: bool,
}

#[derive(Debug, Clone, Copy, PartialEq, Eq, Structural)]
pub struct SupervisedTask {
    pub id: TaskId,
    pub state: TaskLifecycle,
}

/// The legal-transition table of the lifecycle machine: `Starting` may only
/// start running; a running task may fail toward a restart or stop; a task
/// with a planned restart may stop; a stopped task moves no further.
pub open spec fn transition_allowed(from: TaskLifecycle, to: TaskLifecycle) -> bool {
    ||| (from == TaskLifecycle::Starting && to == TaskLifecycle::Running)
    ||| (from == TaskLifecycle::Running && to == TaskLifecycle::RestartPlanned)
    ||| (from == TaskLifecycle::Running && to == TaskLifecycle::Stopped)
    ||| (from == TaskLifecycle::RestartPlanned && to == TaskLifecycle::Stopped)
}

/// Law: `Stopped` is terminal — the transition table admits nothing out of
/// it, so a supervisor never resurrects a stopped task.
pub proof fn lemma_stopped_is_terminal(to: TaskLifecycle)
    ensures
        !transition_allowed(TaskLifecycle::Stopped, to),
{
}

/// Ids are unique in a task table.
spec fn table_unique(s: Seq<SupervisedTask>) -> bool {
    forall|i: int, j: int| 0 <= i < j < s.len() ==> s[i].id != s[j].id
}

/// Whether the table holds a task with this id.
spec fn table_has(s: Seq<SupervisedTask>, id: TaskId) -> bool {
    exists|i: int| 0 <= i < s.len() && s[i].id == id
}

/// The state recorded for this id (meaningful only when `table_has` holds).
spec fn table_state(s: Seq<SupervisedTask>, id: TaskId) -> TaskLifecycle {
    s[choose|i: int| 0 <= i < s.len() && s[i].id == id].state
}

/// Task table of the supervisor; at most one entry per task id.
#[derive(Debug)]
pub struct Supervisor {
    tasks: Vec<SupervisedTask>,
}

impl Supervisor {
    /// Well-formedness: task ids are unique in the table.
    pub closed spec fn wf(&self) -> bool {
        table_unique(self.tasks@)
    }

    /// Whether a task with this id is registered.
    pub closed spec fn contains_id(&self, id: TaskId) -> bool {
        table_has(self.tasks@, id)
    }

    /// The lifecycle state of the task with this id (meaningful only when
    /// `contains_id(id)` holds).
    pub closed spec fn state_of(&self, id: TaskId) -> TaskLifecycle {
        table_state(self.tasks@, id)
    }

    pub fn new() -> (r: Supervisor)
        ensures
            r.wf(),
            forall|id: TaskId| !r.contains_id(id),
    {
        Supervisor { tasks: Vec::new() }
    }

    /// Looks a task up by id.
    pub fn task(&self, id: TaskId) -> (r: Option<SupervisedTask>)
        requires
            self.wf(),
        ensures
            r is Some <==> self.contains_id(id),
            r is Some ==> r->Some_0 == (SupervisedTask { id, state: self.state_of(id) }),
    {
        let mut i: usize = 0;
        while i < self.tasks.len()
            invariant
                self.wf(),
                0 <= i <= self.tasks@.len(),
                forall|k: int| 0 <= k < i ==> self.tasks@[k].id != id,
            decreases self.tasks@.len() - i,
        {
            if self.tasks[i].id.0 == id.0 {
                assert(self.tasks@[i as int].id == id);
                proof {
                    lemma_unique_lookup(self.tasks@, id, i as int);
                }
                return Some(self.tasks[i]);
            }
            i = i + 1;
        }
        None
    }

    /// Registers a task in `Starting`; re-registering an existing id resets it
    /// to `Starting`. No other task is affected.
    pub fn register(&mut self, id: TaskId)
        requires
            old(self).wf(),
        ensures
            final(self).wf(),
            final(self).contains_id(id),
            final(self).state_of(id) == TaskLifecycle::Starting,
            forall|other: TaskId|
                other != id ==> final(self).contains_id(other) == old(self).contains_id(other),
            forall|other: TaskId|
                other != id && old(self).contains_id(other) ==> final(self).state_of(other)
                    == old(self).state_of(other),
    {
        let n = self.tasks.len();
        let mut i: usize = 0;
        while i < n
            invariant
                old(self).wf(),
                self == old(self),
                n == self.tasks@.len(),
                0 <= i <= n,
                forall|k: int| 0 <= k < i ==> self.tasks@[k].id != id,
            decreases n - i,
        {
            if self.tasks[i].id.0 == id.0 {
                assert(self.tasks@[i as int].id == id);
                let entry = SupervisedTask { id, state: TaskLifecycle::Starting };
                self.tasks.set(i, entry);
                proof {
                    lemma_table_update(old(self).tasks@, self.tasks@, i as int, entry);
                }
                return;
            }
            i = i + 1;
        }
        self.tasks.push(SupervisedTask { id, state: TaskLifecycle::Starting });
        proof {
            lemma_table_push(
                old(self).tasks@,
                self.tasks@,
                SupervisedTask { id, state: TaskLifecycle::Starting },
            );
        }
    }

    /// `Starting -> Running`; any other prior state (or an unknown id) is a
    /// no-op returning `false`.
    pub fn mark_running(&mut self, id: TaskId) -> (r: bool)
        requires
            old(self).wf(),
        ensures
            final(self).wf(),
            r == (old(self).contains_id(id) && old(self).state_of(id)
                == TaskLifecycle::Starting),
            r ==> final(self).contains_id(id) && final(self).state_of(id)
                == TaskLifecycle::Running,
            !r ==> *final(self) == *old(self),
            forall|other: TaskId|
                other != id ==> final(self).contains_id(other) == old(self).contains_id(other),
            forall|other: TaskId|
                other != id && old(self).contains_id(other) ==> final(self).state_of(other)
                    == old(self).state_of(other),
            final(self).contains_id(id) == old(self).contains_id(id),
            r ==> transition_allowed(old(self).state_of(id), final(self).state_of(id)),
    {
        self.transition_to(id, TaskLifecycle::Starting, TaskLifecycle::Running)
    }

    /// `Running -> RestartPlanned`, yielding a restart authorization; any
    /// other prior state (or an unknown id) is a no-op returning `None`.
    pub fn mark_failed(&mut self, id: TaskId) -> (r: Option<RestartIntent>)
        requires
            old(self).wf(),
        ensures
            final(self).wf(),
            r is Some == (old(self).contains_id(id) && old(self).state_of(id)
                == TaskLifecycle::Running),
            r is Some ==> r->Some_0.should_restart && final(self).contains_id(id)
                && final(self).state_of(id) == TaskLifecycle::RestartPlanned,
            r is None ==> *final(self) == *old(self),
            forall|other: TaskId|
                other != id ==> final(self).contains_id(other) == old(self).contains_id(other),
            forall|other: TaskId|
                other != id && old(self).contains_id(other) ==> final(self).state_of(other)
                    == old(self).state_of(other),
            final(self).contains_id(id) == old(self).contains_id(id),
            r is Some ==> transition_allowed(old(self).state_of(id), final(self).state_of(id)),
    {
        if self.transition_to(id, TaskLifecycle::Running, TaskLifecycle::RestartPlanned) {
            Some(RestartIntent { should_restart: true })
        } else {
            None
        }
    }

    /// `Running -> Stopped` or `RestartPlanned -> Stopped`; any other prior
    /// state (or an unknown id) is a no-op returning `false`.
    pub fn mark_stopped(&mut self, id: TaskId) -> (r: bool)
        requires
            old(self).wf(),
        ensures
            final(self).wf(),
            r == (old(self).contains_id(id) && (old(self).state_of(id)
                == TaskLifecycle::Running || old(self).state_of(id)
                == TaskLifecycle::RestartPlanned)),
            r ==> final(self).contains_id(id) && final(self).state_of(id)
                == TaskLifecycle::Stopped,
            !r ==> *final(self) == *old(self),
            forall|other: TaskId|
                other != id ==> final(self).contains_id(other) == old(self).contains_id(other),
            forall|other: TaskId|
                other != id && old(self).contains_id(other) ==> final(self).state_of(other)
                    == old(self).state_of(other),
            final(self).contains_id(id) == old(self).contains_id(id),
            r ==> transition_allowed(old(self).state_of(id), final(self).state_of(id)),
    {
        if self.transition_to(id, TaskLifecycle::Running, TaskLifecycle::Stopped) {
            true
        } else {
            self.transition_to(id, TaskLifecycle::RestartPlanned, TaskLifecycle::Stopped)
        }
    }

    /// Applies `from -> to` for this id; returns whether the task existed in
    /// `from`. Nothing else changes.
    fn transition_to(&mut self, id: TaskId, from: TaskLifecycle, to: TaskLifecycle) -> (r: bool)
        requires
            old(self).wf(),
        ensures
            final(self).wf(),
            r == (old(self).contains_id(id) && old(self).state_of(id) == from),
            r ==> final(self).contains_id(id) && final(self).state_of(id) == to,
            !r ==> *final(self) == *old(self),
            forall|other: TaskId|
                other != id ==> final(self).contains_id(other) == old(self).contains_id(other),
            forall|other: TaskId|
                other != id && old(self).contains_id(other) ==> final(self).state_of(other)
                    == old(self).state_of(other),
            final(self).contains_id(id) == old(self).contains_id(id),
    {
        let n = self.tasks.len();
        let mut i: usize = 0;
        while i < n
            invariant
                old(self).wf(),
                self == old(self),
                n == self.tasks@.len(),
                0 <= i <= n,
                forall|k: int| 0 <= k < i ==> self.tasks@[k].id != id,
            decreases n - i,
        {
            if self.tasks[i].id.0 == id.0 {
                assert(self.tasks@[i as int].id == id);
                proof {
                    lemma_unique_lookup(self.tasks@, id, i as int);
                }
                if matches_state(self.tasks[i].state, from) {
                    let entry = SupervisedTask { id, state: to };
                    self.tasks.set(i, entry);
                    proof {
                        lemma_table_update(old(self).tasks@, self.tasks@, i as int, entry);
                    }
                    return true;
                }
                return false;
            }
            i = i + 1;
        }
        false
    }
}

impl Default for Supervisor {
    fn default() -> (r: Supervisor)
        ensures
            r.wf(),
            forall|id: TaskId| !r.contains_id(id),
    {
        Supervisor::new()
    }
}

/// Exec equality on lifecycle states.
fn matches_state(a: TaskLifecycle, b: TaskLifecycle) -> (r: bool)
    ensures
        r == (a == b),
{
    match (a, b) {
        (TaskLifecycle::Starting, TaskLifecycle::Starting) => true,
        (TaskLifecycle::Running, TaskLifecycle::Running) => true,
        (TaskLifecycle::RestartPlanned, TaskLifecycle::RestartPlanned) => true,
        (TaskLifecycle::Stopped, TaskLifecycle::Stopped) => true,
        _ => false,
    }
}

/// In a unique table, the witness `choose` picks for an id is the index where
/// that id was found.
proof fn lemma_unique_lookup(s: Seq<SupervisedTask>, id: TaskId, at: int)
    requires
        table_unique(s),
        0 <= at < s.len(),
        s[at].id == id,
    ensures
        table_has(s, id),
        table_state(s, id) == s[at].state,
{
    assert(table_has(s, id));
    let w = choose|i: int| 0 <= i < s.len() && s[i].id == id;
    if w != at {
        assert(s[w].id != s[at].id);
    }
}

/// After replacing the entry at a unique-id index with one carrying the same
/// id, membership is unchanged and only that id's state moved.
proof fn lemma_table_update(
    before: Seq<SupervisedTask>,
    after: Seq<SupervisedTask>,
    at: int,
    entry: SupervisedTask,
)
    requires
        0 <= at < before.len(),
        after == before.update(at, entry),
        entry.id == before[at].id,
        table_unique(before),
    ensures
        table_unique(after),
        forall|id: TaskId| table_has(after, id) == table_has(before, id),
        forall|id: TaskId|
            id != entry.id && table_has(before, id) ==> table_state(after, id)
                == table_state(before, id),
        table_state(after, entry.id) == entry.state,
{
    assert forall|id: TaskId| table_has(after, id) implies table_has(before, id) by {
        let w = choose|i: int| 0 <= i < after.len() && after[i].id == id;
        assert(before[w].id == id || before[at].id == id);
    }
    assert forall|id: TaskId| table_has(before, id) implies table_has(after, id) by {
        let w = choose|i: int| 0 <= i < before.len() && before[i].id == id;
        assert(after[w].id == id || after[at].id == id);
    }
    assert forall|id: TaskId|
        id != entry.id && table_has(before, id) implies table_state(after, id)
        == table_state(before, id) by {
        let wa = choose|i: int| 0 <= i < after.len() && after[i].id == id;
        let wb = choose|i: int| 0 <= i < before.len() && before[i].id == id;
        assert(table_has(after, id));
        assert(before[wa].id == id);
        assert(wa != at);
        if wa != wb {
            assert(before[wa].id != before[wb].id);
        }
    }
    assert(after[at].id == entry.id);
    lemma_unique_lookup(after, entry.id, at);
}

/// After pushing an entry whose id is absent, membership grows by exactly that
/// id and no state moved.
proof fn lemma_table_push(
    before: Seq<SupervisedTask>,
    after: Seq<SupervisedTask>,
    entry: SupervisedTask,
)
    requires
        after == before.push(entry),
        !table_has(before, entry.id),
        table_unique(before),
    ensures
        table_unique(after),
        table_has(after, entry.id),
        forall|id: TaskId| id != entry.id ==> table_has(after, id) == table_has(before, id),
        forall|id: TaskId|
            id != entry.id && table_has(before, id) ==> table_state(after, id)
                == table_state(before, id),
        table_state(after, entry.id) == entry.state,
{
    let last = before.len() as int;
    assert(after[last].id == entry.id);
    assert forall|i: int, j: int| 0 <= i < j < after.len() implies after[i].id != after[j].id by {
        if j == last {
            if after[i].id == entry.id {
                assert(before[i].id == entry.id);
                assert(table_has(before, entry.id));
            }
        }
    }
    assert forall|id: TaskId|
        id != entry.id && table_has(after, id) implies table_has(before, id) by {
        let w = choose|i: int| 0 <= i < after.len() && after[i].id == id;
        assert(w < last);
        assert(before[w].id == id);
    }
    assert forall|id: TaskId|
        id != entry.id && table_has(before, id) implies table_has(after, id) by {
        let w = choose|i: int| 0 <= i < before.len() && before[i].id == id;
        assert(after[w].id == id);
    }
    assert forall|id: TaskId|
        id != entry.id && table_has(before, id) implies table_state(after, id)
        == table_state(before, id) by {
        let wb = choose|i: int| 0 <= i < before.len() && before[i].id == id;
        lemma_unique_lookup(after, id, wb);
        let wb2 = choose|i: int| 0 <= i < before.len() && before[i].id == id;
        if wb2 != wb {
            assert(before[wb2].id != before[wb].id);
        }
    }
    lemma_unique_lookup(after, entry.id, last);
}

} // verus!
