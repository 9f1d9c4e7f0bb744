//! The reactor: the readiness state of each coroutine known to the runtime.
use vstd::prelude::*;
use std::collections::BTreeMap;
use crate::prio_queue::TaskId;

verus! {

/// Readiness of a coroutine.
#[derive(Clone, Copy, Debug, PartialEq, Eq, Structural)]
pub enum TaskState {
    Ready,
    NotReady,
    Finish,
}

/// Readiness per coroutine id.
pub struct Reactor {
    pub tasks: BTreeMap<usize, TaskState>,
}

impl Reactor {
    /// The state recorded for each coroutine id.
    pub open spec fn states(&self) -> Map<usize, TaskState> {
        self.tasks@
    }

    /// A reactor that knows no coroutine.
    pub fn new() -> (r: Self)
        ensures
            r.states() == Map::<usize, TaskState>::empty(),
    {
        Reactor { tasks: BTreeMap::new() }
    }

    /// Marks a waiting coroutine ready. The coroutine must be known and
    /// waiting: waking a finished one is a fault.
    pub fn wake(&mut self, id: TaskId)
        requires
            old(self).states().contains_key(id.0),
            old(self).states()[id.0] == TaskState::NotReady,
        ensures
            final(self).states() == old(self).states().insert(id.0, TaskState::Ready),
    {
        self.tasks.insert(id.0, TaskState::Ready);
    }

    /// Records a new coroutine as waiting; it must not be known yet.
    pub fn register(&mut self, id: TaskId)
        requires
            !old(self).states().contains_key(id.0),
        ensures
            final(self).states() == old(self).states().insert(id.0, TaskState::NotReady),
    {
        self.tasks.insert(id.0, TaskState::NotReady);
    }

    /// Whether the coroutine is known and ready.
    pub fn is_ready(&self, id: TaskId) -> (r: bool)
        ensures
            r == (self.states().contains_key(id.0) && self.states()[id.0] == TaskState::Ready),
    {
        match self.tasks.get(&id.0) {
            Some(state) => *state == TaskState::Ready,
            None => false,
        }
    }

    /// The recorded state of a coroutine, if it is known.
    pub fn get_task(&self, task_id: TaskId) -> (r: Option<TaskState>)
        ensures
            r == (if self.states().contains_key(task_id.0) {
                Some(self.states()[task_id.0])
            } else {
                None
            }),
    {
        match self.tasks.get(&task_id.0) {
            Some(state) => Some(*state),
            None => None,
        }
    }

    /// Records the coroutine as waiting, returning its previous state.
    pub fn add_task(&mut self, task_id: TaskId) -> (r: Option<TaskState>)
        ensures
            final(self).states() == old(self).states().insert(task_id.0, TaskState::NotReady),
            r == (if old(self).states().contains_key(task_id.0) {
                Some(old(self).states()[task_id.0])
            } else {
                None
            }),
    {
        self.tasks.insert(task_id.0, TaskState::NotReady)
    }

    /// Whether the coroutine is known.
    pub fn contains_task(&self, task_id: TaskId) -> (r: bool)
        ensures
            r == self.states().contains_key(task_id.0),
    {
        self.tasks.contains_key(&task_id.0)
    }

    /// Whether the coroutine is known and finished.
    pub fn is_finish(&self, task_id: TaskId) -> (r: bool)
        ensures
            r == (self.states().contains_key(task_id.0) && self.states()[task_id.0] == TaskState::Finish),
    {
        match self.tasks.get(&task_id.0) {
            Some(state) => *state == TaskState::Finish,
            None => false,
        }
    }

    /// Records the coroutine as finished.
    pub fn finish_task(&mut self, task_id: TaskId)
        ensures
            final(self).states() == old(self).states().insert(task_id.0, TaskState::Finish),
    {
        self.tasks.insert(task_id.0, TaskState::Finish);
    }

    /// Forgets the coroutine, returning its last state.
    pub fn remove_task(&mut self, task_id: TaskId) -> (r: Option<TaskState>)
        ensures
            final(self).states() == old(self).states().remove(task_id.0),
            r == (if old(self).states().contains_key(task_id.0) {
                Some(old(self).states()[task_id.0])
            } else {
                None
            }),
    {
        self.tasks.remove(&task_id.0)
    }

    /// Puts a known coroutine back to waiting: a waiting or ready one is
    /// marked waiting. It must not be finished (the runtime treats that as
    /// a fault).
    pub fn park(&mut self, task_id: TaskId)
        requires
            old(self).states().contains_key(task_id.0),
            old(self).states()[task_id.0] != TaskState::Finish,
        ensures
            final(self).states() == old(self).states().insert(task_id.0, TaskState::NotReady),
    {
        self.tasks.insert(task_id.0, TaskState::NotReady);
    }
}


/// A coroutine registered and then woken is ready, whatever its history.
pub proof fn lemma_register_then_wake(states: Map<usize, TaskState>, id: usize)
    requires
        !states.contains_key(id),
    ensures
        states.insert(id, TaskState::NotReady).contains_key(id),
        states.insert(id, TaskState::NotReady)[id] == TaskState::NotReady,
        states.insert(id, TaskState::NotReady).insert(id, TaskState::Ready).contains_key(id),
        states.insert(id, TaskState::NotReady).insert(id, TaskState::Ready)[id] == TaskState::Ready,
{
}

} // verus!
