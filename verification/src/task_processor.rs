//! The kernel's per-hart processor: which process it runs, and how a
//! process is started on it and put back in the ready queue when it yields.
//! Processes are named by number; the kernel keeps their control blocks.
use vstd::prelude::*;
use crate::process::{TaskControlBlockInner, TaskStatus};
use crate::task_manager::TaskManager;

verus! {

/// The process a hart runs, if any.
pub struct Processor {
    current: Option<usize>,
}

/// The fields of a control block other than its status are those of `b`.
pub open spec fn same_but_status(a: &TaskControlBlockInner, b: &TaskControlBlockInner) -> bool {
    &&& a.base_size == b.base_size
    &&& a.memory_set@ == b.memory_set@
    &&& a.memory_set.pages() == b.memory_set.pages()
    &&& a.parent == b.parent
    &&& a.children@ == b.children@
    &&& a.exit_code == b.exit_code
    &&& a.fd_table@ == b.fd_table@
}

impl Processor {
    /// The number of the process this hart runs.
    pub closed spec fn current_pid(&self) -> Option<usize> {
        self.current
    }

    /// A processor running nothing.
    pub fn new() -> (r: Processor)
        ensures
            r.current_pid() is None,
    {
        Processor { current: None }
    }

    /// Marks process `pid`, whose control block is `task_inner`, running on
    /// hart `hart_id` and makes it this hart's current process (the switch
    /// to its context is the caller's).
    pub fn run_next(&mut self, pid: usize, task_inner: &mut TaskControlBlockInner, hart_id: usize)
        ensures
            final(self).current_pid() == Some(pid),
            final(task_inner).task_status == TaskStatus::Running(hart_id),
            same_but_status(final(task_inner), old(task_inner)),
    {
        task_inner.task_status = TaskStatus::Running(hart_id);
        self.current = Some(pid);
    }

    /// Puts the current process back: its control block `task_inner` is
    /// marked ready and its number goes to the back of the ready queue, and
    /// the hart runs nothing. Returns that number; `None`, with nothing
    /// changed, when the hart ran nothing.
    pub fn suspend_current(&mut self, task_inner: &mut TaskControlBlockInner, manager: &mut TaskManager) -> (r: Option<usize>)
        ensures
            r == old(self).current_pid(),
            final(self).current_pid() is None,
            r matches Some(pid) ==> {
                &&& final(task_inner).task_status == TaskStatus::Ready
                &&& same_but_status(final(task_inner), old(task_inner))
                &&& final(manager)@ == old(manager)@.push(pid)
            },
            r is None ==> *final(task_inner) == *old(task_inner) && final(manager)@ == old(manager)@,
    {
        match self.take_current() {
            Some(pid) => {
                task_inner.task_status = TaskStatus::Ready;
                manager.add(pid);
                Some(pid)
            },
            None => None,
        }
    }

    /// Takes the current process off this hart.
    pub fn take_current(&mut self) -> (r: Option<usize>)
        ensures
            r == old(self).current_pid(),
            final(self).current_pid() is None,
    {
        self.current.take()
    }

    /// The same as `take_current`.
    pub fn take_current_mut(&mut self) -> (r: Option<usize>)
        ensures
            r == old(self).current_pid(),
            final(self).current_pid() is None,
    {
        self.take_current()
    }

    /// The process this hart runs.
    pub fn current(&self) -> (r: Option<usize>)
        ensures
            r == self.current_pid(),
    {
        self.current
    }
}

impl Default for Processor {
    fn default() -> (r: Processor)
        ensures
            r.current_pid() is None,
    {
        Processor::new()
    }
}

} // verus!
