//! The decisions of the user-side coroutine loop: which task to run next,
//! what the reactor records after a poll, and when to give the processor
//! back to the kernel.
use vstd::prelude::*;
use crate::bitmap::{BitMap, PRIO_NUM, highest_prio, check_bitmap_should_yield};
use crate::prio_queue::{first_nonempty, pop_levels};
use crate::reactor::{Reactor, TaskState};
use crate::user_queue::{UserTask, UserTaskQueue};

verus! {

/// What the loop does after taking a task from the queue.
#[derive(Clone, Copy, Debug, PartialEq, Eq, Structural)]
pub enum MainStep {
    /// Nothing is queued: the loop returns to its caller, the queue as it was.
    NoTask,
    /// The task is still waiting; it went back to the tail of its level.
    Requeued(UserTask),
    /// The task must be polled.
    Poll(UserTask),
}

/// Takes the next task: a task the reactor knows as waiting goes back to the
/// tail of its own priority level; any other task is handed out for polling.
pub fn thread_main_next(queue: &mut UserTaskQueue, reactor: &Reactor) -> (r: MainStep)
    requires
        old(queue).wf(),
        forall|i: int, j: int| 0 <= i < PRIO_NUM && 0 <= j < old(queue).levels()[i].len()
            ==> #[trigger] old(queue).levels()[i][j].prio < PRIO_NUM,
    ensures
        final(queue).wf(),
        ({
            let lv = old(queue).levels();
            let p = first_nonempty(lv) as int;
            &&& p == PRIO_NUM ==> r == MainStep::NoTask && final(queue).levels() == lv
            &&& p < PRIO_NUM ==> {
                let task = lv[p][0];
                let waiting = reactor.states().contains_key(task.id.0)
                    && reactor.states()[task.id.0] == TaskState::NotReady;
                &&& waiting ==> r == MainStep::Requeued(task) && final(queue).levels() == pop_levels(lv).update(
                    task.prio as int,
                    pop_levels(lv)[task.prio as int].push(task),
                )
                &&& !waiting ==> r == MainStep::Poll(task) && final(queue).levels() == pop_levels(lv)
            }
        }),
{
    proof {
        queue.lemma_levels_len();
        crate::prio_queue::lemma_first_nonempty(queue.levels());
    }
    match queue.peek_task() {
        Some(task) => {
            proof {
                let lv = old(queue).levels();
                let p = first_nonempty(lv) as int;
                assert(lv[p][0].prio < PRIO_NUM);
            }
            if reactor.contains_task(task.id) && reactor.get_task(task.id) == Some(TaskState::NotReady) {
                queue.add_arc_task(task, task.prio);
                MainStep::Requeued(task)
            } else {
                MainStep::Poll(task)
            }
        },
        None => MainStep::NoTask,
    }
}

/// Whether a task handed out by `thread_main_next` is polled: when the
/// reactor marked it ready, or does not know it yet.
pub fn thread_main_should_poll(reactor: &Reactor, task: UserTask) -> (r: bool)
    ensures
        r == (!reactor.states().contains_key(task.id.0) || reactor.states()[task.id.0] == TaskState::Ready),
{
    reactor.is_ready(task.id) || !reactor.contains_task(task.id)
}

/// Records what became of `task` after `thread_main_next` handed it out;
/// `pending` tells whether its poll left it pending. A task the reactor
/// marked ready waits again and is re-queued when still pending, and is
/// finished when done. A task the reactor knows in another state was not
/// polled: it is marked waiting. An unknown task that is still pending is
/// registered as waiting and re-queued; one that finished leaves no trace.
pub fn thread_main_settle(queue: &mut UserTaskQueue, reactor: &mut Reactor, task: UserTask, pending: bool)
    requires
        old(queue).wf(),
        task.prio < PRIO_NUM,
    ensures
        final(queue).wf(),
        ({
            let s = old(reactor).states();
            let id = task.id.0;
            let requeued = old(queue).levels().update(task.prio as int, old(queue).levels()[task.prio as int].push(task));
            &&& s.contains_key(id) && s[id] == TaskState::Ready && pending ==>
                final(reactor).states() == s.insert(id, TaskState::NotReady) && final(queue).levels() == requeued
            &&& s.contains_key(id) && s[id] == TaskState::Ready && !pending ==>
                final(reactor).states() == s.insert(id, TaskState::Finish) && final(queue).levels() == old(queue).levels()
            &&& s.contains_key(id) && s[id] != TaskState::Ready ==>
                final(reactor).states() == s.insert(id, TaskState::NotReady) && final(queue).levels() == old(queue).levels()
            &&& !s.contains_key(id) && pending ==>
                final(reactor).states() == s.insert(id, TaskState::NotReady) && final(queue).levels() == requeued
            &&& !s.contains_key(id) && !pending ==>
                final(reactor).states() == s && final(queue).levels() == old(queue).levels()
        }),
{
    if reactor.is_ready(task.id) {
        if pending {
            reactor.add_task(task.id);
            queue.add_arc_task(task, task.prio);
        } else {
            reactor.finish_task(task.id);
        }
    } else if reactor.contains_task(task.id) {
        reactor.add_task(task.id);
    } else if pending {
        reactor.register(task.id);
        queue.add_arc_task(task, task.prio);
    }
}

/// Whether the address space gives the processor back after a poll: only
/// when the level below the one just emptied holds nothing, and the kernel's
/// bitmap shows a more urgent priority than this address space's own.
pub fn thread_main_should_yield(next_prio_not_empty: bool, sys_bitmap: BitMap, user_bitmap: BitMap) -> (r: bool)
    ensures
        r == (!next_prio_not_empty && highest_prio(sys_bitmap.0) < highest_prio(user_bitmap.0)),
{
    !next_prio_not_empty && check_bitmap_should_yield(sys_bitmap, user_bitmap)
}

} // verus!
