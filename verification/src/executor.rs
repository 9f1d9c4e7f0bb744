//! The coroutine executor of an address space: the live tasks, their ready
//! queue, the cached wakers, and the write/read pairing table.
use vstd::prelude::*;
use std::collections::BTreeMap;
use crate::bitmap::PRIO_NUM;
use crate::prio_queue::{TaskId, TaskQueue, first_nonempty, pop_levels};
use crate::user_queue::UserTask;

verus! {

/// Re-queues one coroutine at a fixed priority when woken.
#[derive(Clone, Copy, Debug, PartialEq, Eq, Structural)]
pub struct TaskWaker {
    pub tid: TaskId,
    pub prio: usize,
}

impl TaskWaker {
    /// A waker for coroutine `id` at priority `p`.
    pub fn new(id: TaskId, p: usize) -> (r: TaskWaker)
        ensures
            r.tid == id,
            r.prio == p,
    {
        TaskWaker { tid: id, prio: p }
    }

    /// Appends the coroutine to its priority level of `queue`.
    pub fn wake_task(&self, queue: &mut TaskQueue)
        requires
            old(queue).wf(),
            self.prio < PRIO_NUM,
        ensures
            final(queue).wf(),
            final(queue).levels() == old(queue).levels().update(
                self.prio as int,
                old(queue).levels()[self.prio as int].push(self.tid),
            ),
    {
        queue.add_tid(self.tid, self.prio);
    }
}

/// The executor state.
pub struct Excutor {
    pub tasks: BTreeMap<usize, UserTask>,
    pub task_queue: TaskQueue,
    pub waker_cache: BTreeMap<usize, TaskWaker>,
    pub task_num: usize,
}

impl Excutor {
    /// Well-formedness: a well-formed queue, and every cached waker is filed
    /// under its own id with a valid priority.
    pub open spec fn wf(&self) -> bool {
        &&& self.task_queue.wf()
        &&& forall|k: usize| #[trigger] self.waker_cache@.contains_key(k) ==>
            self.waker_cache@[k].tid.0 == k && self.waker_cache@[k].prio < PRIO_NUM
    }

    /// An executor with no task.
    pub fn new() -> (r: Self)
        ensures
            r.wf(),
            r.tasks@ == Map::<usize, UserTask>::empty(),
            r.waker_cache@ == Map::<usize, TaskWaker>::empty(),
            r.task_num == 0,
            r.task_queue.levels() == Seq::new(PRIO_NUM as nat, |i: int| Seq::<TaskId>::empty()),
    {
        Excutor {
            tasks: BTreeMap::new(),
            task_queue: TaskQueue::new(),
            waker_cache: BTreeMap::new(),
            task_num: 0,
        }
    }

    /// Files `task` under its id, queues the id at `prio`, and counts it.
    pub fn add_task(&mut self, task: UserTask, prio: usize)
        requires
            old(self).wf(),
            prio < PRIO_NUM,
            old(self).task_num < usize::MAX,
        ensures
            final(self).wf(),
            final(self).tasks@ == old(self).tasks@.insert(task.id.0, task),
            final(self).task_queue.levels() == old(self).task_queue.levels().update(
                prio as int,
                old(self).task_queue.levels()[prio as int].push(task.id),
            ),
            final(self).waker_cache@ == old(self).waker_cache@,
            final(self).task_num == old(self).task_num + 1,
    {
        let tid = task.id;
        self.task_queue.add_tid(tid, prio);
        self.tasks.insert(tid.0, task);
        self.task_num = self.task_num + 1;
    }

    /// Counts one task as finished; the task stays filed.
    pub fn del_task(&mut self, tid: &TaskId)
        requires
            old(self).task_num > 0,
        ensures
            final(self).task_num == old(self).task_num - 1,
            final(self).tasks == old(self).tasks,
            final(self).task_queue == old(self).task_queue,
            final(self).waker_cache == old(self).waker_cache,
    {
        self.task_num = self.task_num - 1;
    }

    /// The waker of `tid`, created at priority `prio` on first request and
    /// reused afterwards.
    pub fn get_waker(&mut self, tid: TaskId, prio: usize) -> (r: TaskWaker)
        requires
            old(self).wf(),
            prio < PRIO_NUM,
        ensures
            final(self).wf(),
            old(self).waker_cache@.contains_key(tid.0) ==> r == old(self).waker_cache@[tid.0]
                && final(self).waker_cache@ == old(self).waker_cache@,
            !old(self).waker_cache@.contains_key(tid.0) ==> r == (TaskWaker { tid, prio })
                && final(self).waker_cache@ == old(self).waker_cache@.insert(tid.0, r),
            final(self).tasks == old(self).tasks,
            final(self).task_queue == old(self).task_queue,
            final(self).task_num == old(self).task_num,
    {
        match self.waker_cache.get(&tid.0) {
            Some(w) => *w,
            None => {
                let w = TaskWaker::new(tid, prio);
                self.waker_cache.insert(tid.0, w);
                w
            },
        }
    }

    /// Takes the next queued id, most urgent level first.
    pub fn pop(&mut self) -> (r: Option<TaskId>)
        requires
            old(self).wf(),
        ensures
            final(self).wf(),
            first_nonempty(old(self).task_queue.levels()) == PRIO_NUM ==> r is None
                && final(self).task_queue.levels() == old(self).task_queue.levels(),
            first_nonempty(old(self).task_queue.levels()) < PRIO_NUM ==> r == Some(
                old(self).task_queue.levels()[first_nonempty(old(self).task_queue.levels()) as int][0],
            ) && final(self).task_queue.levels() == pop_levels(old(self).task_queue.levels()),
            final(self).tasks == old(self).tasks,
            final(self).waker_cache == old(self).waker_cache,
            final(self).task_num == old(self).task_num,
    {
        self.task_queue.pop_tid()
    }

    /// The task filed under `tid`, if any.
    pub fn get_task(&self, tid: &TaskId) -> (r: Option<UserTask>)
        ensures
            r == (if self.tasks@.contains_key(tid.0) { Some(self.tasks@[tid.0]) } else { None }),
    {
        match self.tasks.get(&tid.0) {
            Some(t) => Some(*t),
            None => None,
        }
    }

    /// Whether no counted task remains.
    pub fn is_empty(&self) -> (r: bool)
        ensures
            r == (self.task_num == 0),
    {
        self.task_num == 0
    }

    /// Wakes `tid` through its cached waker, which must exist.
    pub fn wake_coroutine(&mut self, tid: TaskId)
        requires
            old(self).wf(),
            old(self).waker_cache@.contains_key(tid.0),
        ensures
            final(self).wf(),
            ({
                let w = old(self).waker_cache@[tid.0];
                final(self).task_queue.levels() == old(self).task_queue.levels().update(
                    w.prio as int,
                    old(self).task_queue.levels()[w.prio as int].push(tid),
                )
            }),
            final(self).tasks == old(self).tasks,
            final(self).waker_cache == old(self).waker_cache,
            final(self).task_num == old(self).task_num,
    {
        let w = *self.waker_cache.get(&tid.0).unwrap();
        w.wake_task(&mut self.task_queue);
    }

    /// The next step of the executor loop: the task to poll and its waker,
    /// with `*current` set to the popped id for the duration of the poll; or
    /// `None` when there is nothing to do this round (no counted task, empty
    /// queue, or a queued id with no filed task).
    pub fn thread_main_ex_next(&mut self, current: &mut usize) -> (r: Option<(UserTask, TaskWaker)>)
        requires
            old(self).wf(),
            forall|k: usize| #[trigger] old(self).tasks@.contains_key(k) ==> old(self).tasks@[k].prio < PRIO_NUM,
        ensures
            final(self).wf(),
            final(self).tasks == old(self).tasks,
            final(self).task_num == old(self).task_num,
            r is None ==> *final(current) == *old(current),
            old(self).task_num == 0 ==> r is None && final(self).task_queue == old(self).task_queue
                && final(self).waker_cache == old(self).waker_cache,
            old(self).task_num != 0 && first_nonempty(old(self).task_queue.levels()) == PRIO_NUM ==> r is None,
            old(self).task_num != 0 && first_nonempty(old(self).task_queue.levels()) < PRIO_NUM ==> {
                let tid = old(self).task_queue.levels()[first_nonempty(old(self).task_queue.levels()) as int][0];
                &&& final(self).task_queue.levels() == pop_levels(old(self).task_queue.levels())
                &&& old(self).tasks@.contains_key(tid.0) ==> {
                    let task = old(self).tasks@[tid.0];
                    let w = if old(self).waker_cache@.contains_key(tid.0) {
                        old(self).waker_cache@[tid.0]
                    } else {
                        (TaskWaker { tid, prio: task.prio })
                    };
                    &&& r == Some((task, w))
                    &&& final(self).waker_cache@ == old(self).waker_cache@.insert(tid.0, w)
                    &&& *final(current) == tid.0
                }
                &&& !old(self).tasks@.contains_key(tid.0) ==> r is None
            },
    {
        if self.is_empty() {
            return None;
        }
        let tid = match self.pop() {
            Some(t) => t,
            None => return None,
        };
        let task = match self.get_task(&tid) {
            Some(t) => t,
            None => return None,
        };
        let waker = self.get_waker(tid, task.prio);
        proof {
            if old(self).waker_cache@.contains_key(tid.0) {
                assert(self.waker_cache@ =~= old(self).waker_cache@.insert(tid.0, waker));
            }
        }
        *current = tid.get_val();
        Some((task, waker))
    }

    /// Records the outcome of polling coroutine `tid`: one task fewer is
    /// counted when it finished, and nothing changes while it is pending.
    pub fn thread_main_ex_settle(&mut self, tid: &TaskId, finished: bool)
        requires
            finished ==> old(self).task_num > 0,
        ensures
            final(self).task_num == (if finished { old(self).task_num - 1 } else { old(self).task_num as int }),
            final(self).tasks == old(self).tasks,
            final(self).task_queue == old(self).task_queue,
            final(self).waker_cache == old(self).waker_cache,
    {
        if finished {
            self.del_task(tid);
        }
    }
}

/// Wakes coroutine `t` if the executor holds it.
pub fn wakeup(ex: &mut Excutor, t: usize)
    requires
        old(ex).wf(),
        old(ex).tasks@.contains_key(t) ==> old(ex).waker_cache@.contains_key(t),
    ensures
        final(ex).wf(),
        final(ex).tasks == old(ex).tasks,
        final(ex).waker_cache == old(ex).waker_cache,
        final(ex).task_num == old(ex).task_num,
        !old(ex).tasks@.contains_key(t) ==> final(ex).task_queue == old(ex).task_queue,
        old(ex).tasks@.contains_key(t) ==> ({
            let w = old(ex).waker_cache@[t];
            final(ex).task_queue.levels() == old(ex).task_queue.levels().update(
                w.prio as int,
                old(ex).task_queue.levels()[w.prio as int].push(TaskId(t)),
            )
        }),
{
    if ex.tasks.contains_key(&t) {
        ex.wake_coroutine(TaskId::get_tid_by_usize(t));
    }
}

/// Pairs a write request key with the coroutine id of the read waiting on it.
pub struct WRMap {
    map: BTreeMap<usize, usize>,
}

impl WRMap {
    /// The pairing, key to reader id.
    pub closed spec fn view(&self) -> Map<usize, usize> {
        self.map@
    }

    /// An empty pairing.
    pub fn new() -> (r: Self)
        ensures
            r@ == Map::<usize, usize>::empty(),
    {
        WRMap { map: BTreeMap::new() }
    }

    /// Records that reader `rid` waits on key `k`.
    pub fn register(&mut self, k: usize, rid: usize)
        ensures
            final(self)@ == old(self)@.insert(k, rid),
    {
        self.map.insert(k, rid);
    }

    /// The reader waiting on `k`, if any, leaving the pairing in place.
    pub fn peek_rid(&self, k: usize) -> (r: Option<usize>)
        ensures
            r == (if self@.contains_key(k) { Some(self@[k]) } else { None }),
    {
        match self.map.get(&k) {
            Some(v) => Some(*v),
            None => None,
        }
    }

    /// Takes the reader waiting on `k`, if any, and forgets the pairing.
    pub fn get_rid(&mut self, k: usize) -> (r: Option<usize>)
        ensures
            r == (if old(self)@.contains_key(k) { Some(old(self)@[k]) } else { None }),
            final(self)@ == old(self)@.remove(k),
    {
        let ret = match self.map.get(&k) {
            Some(v) => Some(*v),
            None => None,
        };
        self.map.remove(&k);
        ret
    }
}


/// A reader registered on a key is found exactly once: the lookup after the
/// registration returns it, and the pairing is gone afterwards.
pub proof fn lemma_register_then_get_rid(m: Map<usize, usize>, k: usize, rid: usize)
    ensures
        m.insert(k, rid).contains_key(k),
        m.insert(k, rid)[k] == rid,
        !m.insert(k, rid).remove(k).contains_key(k),
{
}

} // verus!
