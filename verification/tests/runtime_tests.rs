use coroutine_os::bitmap::BitMap;
use coroutine_os::cbq::{check_callback, complete_on, wakeup_all, CBQueue, CBTid, CAP};
use coroutine_os::user_syscall::AsyncCall;
use coroutine_os::executor::{wakeup, Excutor, TaskWaker, WRMap};
use coroutine_os::prio_queue::TaskId;
use coroutine_os::reactor::{Reactor, TaskState};
use coroutine_os::runtime::{
    thread_main_next, thread_main_settle, thread_main_should_poll, thread_main_should_yield, MainStep,
};
use coroutine_os::user_queue::{UserTask, UserTaskQueue};

#[test]
fn reactor_register_wake_finish() {
    let mut r = Reactor::new();
    let id = TaskId(4);
    assert!(!r.contains_task(id));
    r.register(id);
    assert_eq!(r.get_task(id), Some(TaskState::NotReady));
    assert!(!r.is_ready(id));
    r.wake(id);
    assert!(r.is_ready(id));
    assert_eq!(r.add_task(id), Some(TaskState::Ready));
    r.park(id);
    assert_eq!(r.get_task(id), Some(TaskState::NotReady));
    r.finish_task(id);
    assert!(r.is_finish(id));
    assert_eq!(r.remove_task(id), Some(TaskState::Finish));
    assert_eq!(r.get_task(id), None);
    assert_eq!(r.remove_task(id), None);
}

#[test]
fn executor_runs_tasks_by_priority() {
    let mut ex = Excutor::new();
    assert!(ex.is_empty());
    ex.add_task(UserTask { id: TaskId(1), prio: 2 }, 2);
    ex.add_task(UserTask { id: TaskId(2), prio: 0 }, 0);
    assert!(!ex.is_empty());
    let mut cur = 99usize;
    let (t, w) = ex.thread_main_ex_next(&mut cur).unwrap();
    assert_eq!(t.id, TaskId(2));
    assert_eq!(cur, 2);
    assert_eq!(w, TaskWaker { tid: TaskId(2), prio: 0 });
    let (t2, _) = ex.thread_main_ex_next(&mut cur).unwrap();
    assert_eq!(t2.id, TaskId(1));
    assert_eq!(cur, 1);
    assert!(ex.thread_main_ex_next(&mut cur).is_none());
    assert_eq!(cur, 1);
    ex.thread_main_ex_settle(&TaskId(1), false);
    assert_eq!(ex.task_num, 2);
    ex.thread_main_ex_settle(&TaskId(2), true);
    ex.del_task(&TaskId(1));
    assert!(ex.is_empty());
    assert!(ex.thread_main_ex_next(&mut cur).is_none());
}

#[test]
fn park_sets_a_ready_or_waiting_coroutine_waiting() {
    let mut r = Reactor::new();
    let id = TaskId(8);
    r.register(id);
    r.park(id);
    assert_eq!(r.get_task(id), Some(TaskState::NotReady));
    r.wake(id);
    assert!(r.is_ready(id));
    r.park(id);
    assert_eq!(r.get_task(id), Some(TaskState::NotReady));
}

#[test]
fn completion_goes_to_the_reader_space_queue() {
    let mut queues = vec![CBQueue::init(), CBQueue::init(), CBQueue::init()];
    complete_on(&mut queues, 1, 42);
    complete_on(&mut queues, 1, 43);
    complete_on(&mut queues, 2, 7);
    assert!(queues[0].is_empty());
    assert_eq!(queues[1].pop(), vec![42, 43]);
    assert_eq!(queues[2].pop(), vec![7]);
}

#[test]
fn async_call_submits_once_and_reports_completion_once() {
    let mut cbtid = CBTid::new();
    assert_eq!(cbtid.len(), 2000);
    let mut call = AsyncCall::new(501, 3, 0x1000, 16, 5, 1, 9);
    let (req, ready) = call.poll(&mut cbtid);
    let req = req.unwrap();
    assert_eq!(req.id, 501);
    assert_eq!(req.args, [3, 0x1000, 16, 5, 1, 9]);
    assert!(!ready);
    cbtid.add(5);
    let (req, ready) = call.poll(&mut cbtid);
    assert!(req.is_none());
    assert!(ready);
    let (req, ready) = call.poll(&mut cbtid);
    assert!(req.is_none());
    assert!(!ready);
    let mut other = AsyncCall::new(7, 0, 0, 0, 6, 0, 0);
    assert!(other.poll(&mut cbtid).0.is_none());
}

#[test]
fn executor_waker_is_cached_and_requeues() {
    let mut ex = Excutor::new();
    ex.add_task(UserTask { id: TaskId(7), prio: 3 }, 3);
    let w = ex.get_waker(TaskId(7), 3);
    let again = ex.get_waker(TaskId(7), 5);
    assert_eq!(w, again);
    assert_eq!(ex.pop(), Some(TaskId(7)));
    assert_eq!(ex.pop(), None);
    ex.wake_coroutine(TaskId(7));
    assert_eq!(ex.pop(), Some(TaskId(7)));
    wakeup(&mut ex, 7);
    assert_eq!(ex.pop(), Some(TaskId(7)));
    wakeup(&mut ex, 99);
    assert_eq!(ex.pop(), None);
    assert_eq!(ex.get_task(&TaskId(7)), Some(UserTask { id: TaskId(7), prio: 3 }));
    assert_eq!(ex.get_task(&TaskId(8)), None);
}

#[test]
fn wrmap_pairs_once() {
    let mut m = WRMap::new();
    m.register(33, 4);
    assert_eq!(m.get_rid(33), Some(4));
    assert_eq!(m.get_rid(33), None);
    assert_eq!(m.get_rid(1), None);
}

#[test]
fn callback_queue_drains_in_order() {
    let mut q = CBQueue::init();
    assert!(q.is_empty());
    q._add(5);
    q._add(3);
    assert!(!q.is_empty());
    assert_eq!(q.pop(), vec![5, 3]);
    assert!(q.is_empty());
    q._add(8);
    assert_eq!(q.pop(), vec![8]);
    assert_eq!(q.pop(), Vec::<usize>::new());
    assert!(CAP >= 2);
}

#[test]
fn completion_flags_are_consumed() {
    let mut c = CBTid::new();
    assert!(!check_callback(&mut c, 10));
    c.add(10);
    assert!(check_callback(&mut c, 10));
    assert!(!check_callback(&mut c, 10));
    assert!(!c.contains_tid(11));
}

#[test]
fn wakeup_all_marks_and_requeues() {
    let mut ex = Excutor::new();
    let mut c = CBTid::new();
    ex.add_task(UserTask { id: TaskId(1), prio: 1 }, 1);
    ex.add_task(UserTask { id: TaskId(2), prio: 0 }, 0);
    ex.get_waker(TaskId(1), 1);
    ex.get_waker(TaskId(2), 0);
    assert_eq!(ex.pop(), Some(TaskId(2)));
    assert_eq!(ex.pop(), Some(TaskId(1)));
    wakeup_all(&vec![1, 2], &mut ex, &mut c);
    assert!(check_callback(&mut c, 1));
    assert!(check_callback(&mut c, 2));
    assert_eq!(ex.pop(), Some(TaskId(2)));
    assert_eq!(ex.pop(), Some(TaskId(1)));
}

#[test]
fn thread_main_requeues_waiting_tasks() {
    let mut q = UserTaskQueue::new();
    let mut r = Reactor::new();
    let t = UserTask { id: TaskId(1), prio: 1 };
    q.add_task(t, Some(1));
    r.register(t.id);
    assert_eq!(thread_main_next(&mut q, &r), MainStep::Requeued(t));
    r.wake(t.id);
    assert_eq!(thread_main_next(&mut q, &r), MainStep::Poll(t));
    thread_main_settle(&mut q, &mut r, t, true);
    assert_eq!(r.get_task(t.id), Some(TaskState::NotReady));
    assert_eq!(thread_main_next(&mut q, &r), MainStep::Requeued(t));
    r.wake(t.id);
    assert_eq!(thread_main_next(&mut q, &r), MainStep::Poll(t));
    thread_main_settle(&mut q, &mut r, t, false);
    assert!(r.is_finish(t.id));
    assert_eq!(thread_main_next(&mut q, &r), MainStep::NoTask);
}

#[test]
fn thread_main_fresh_task_that_finishes_leaves_no_trace() {
    let mut q = UserTaskQueue::new();
    let mut r = Reactor::new();
    let t = UserTask { id: TaskId(3), prio: 0 };
    q.add_task(t, None);
    assert_eq!(thread_main_next(&mut q, &r), MainStep::Poll(t));
    assert!(thread_main_should_poll(&r, t));
    thread_main_settle(&mut q, &mut r, t, false);
    assert!(!r.contains_task(t.id));
}

#[test]
fn thread_main_fresh_pending_task_waits_and_is_requeued() {
    let mut q = UserTaskQueue::new();
    let mut r = Reactor::new();
    let t = UserTask { id: TaskId(5), prio: 2 };
    q.add_task(t, Some(2));
    assert_eq!(thread_main_next(&mut q, &r), MainStep::Poll(t));
    thread_main_settle(&mut q, &mut r, t, true);
    assert_eq!(r.get_task(t.id), Some(TaskState::NotReady));
    assert_eq!(thread_main_next(&mut q, &r), MainStep::Requeued(t));
    r.wake(t.id);
    assert_eq!(thread_main_next(&mut q, &r), MainStep::Poll(t));
}

#[test]
fn thread_main_finished_task_is_not_polled_and_waits() {
    let mut q = UserTaskQueue::new();
    let mut r = Reactor::new();
    let t = UserTask { id: TaskId(6), prio: 0 };
    r.register(t.id);
    r.finish_task(t.id);
    q.add_task(t, None);
    assert_eq!(thread_main_next(&mut q, &r), MainStep::Poll(t));
    assert!(!thread_main_should_poll(&r, t));
    thread_main_settle(&mut q, &mut r, t, false);
    assert_eq!(r.get_task(t.id), Some(TaskState::NotReady));
    assert_eq!(thread_main_next(&mut q, &r), MainStep::NoTask);
}

#[test]
fn yield_decision() {
    assert!(thread_main_should_yield(false, BitMap(0b1), BitMap(0b10)));
    assert!(!thread_main_should_yield(true, BitMap(0b1), BitMap(0b10)));
    assert!(!thread_main_should_yield(false, BitMap(0b10), BitMap(0b1)));
}

#[test]
fn wrmap_peek_keeps_the_pairing() {
    let mut m = WRMap::new();
    assert_eq!(m.peek_rid(3), None);
    m.register(3, 11);
    assert_eq!(m.peek_rid(3), Some(11));
    assert_eq!(m.get_rid(3), Some(11));
    assert_eq!(m.peek_rid(3), None);
}

#[test]
fn callback_queue_fills_up_after_cap_writes() {
    let mut q = CBQueue::init();
    for i in 0..CAP {
        assert!(!q.is_full());
        q._add(i);
    }
    assert!(q.is_full());
    assert_eq!(q.pop().len(), CAP);
    assert!(q.is_full());
}
