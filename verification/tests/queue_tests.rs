use coroutine_os::prio_queue::{TaskId, TaskQueue};
use coroutine_os::user_queue::{UserTask, UserTaskQueue};

#[test]
fn task_id_generation_counts_up() {
    let mut c = 5usize;
    let a = TaskId::generate(&mut c);
    let b = TaskId::generate(&mut c);
    assert_eq!(a.get_val(), 5);
    assert_eq!(b.get_val(), 6);
    assert_eq!(c, 7);
    assert_eq!(TaskId::get_tid_by_usize(9).0, 9);
}

#[test]
fn task_queue_serves_urgent_levels_first_in_fifo_order() {
    let mut q = TaskQueue::new();
    q.add_tid(TaskId(10), 3);
    q.add_tid(TaskId(11), 1);
    q.add_tid(TaskId(12), 3);
    q.add_tid(TaskId(13), 1);
    assert_eq!(q.pop_tid(), Some(TaskId(11)));
    assert_eq!(q.pop_tid(), Some(TaskId(13)));
    assert_eq!(q.pop_tid(), Some(TaskId(10)));
    assert_eq!(q.pop_tid(), Some(TaskId(12)));
    assert_eq!(q.pop_tid(), None);
}

#[test]
fn user_queue_add_task_goes_to_front_add_arc_to_back() {
    let mut q = UserTaskQueue::new();
    let t1 = UserTask { id: TaskId(1), prio: 2 };
    let t2 = UserTask { id: TaskId(2), prio: 2 };
    let t3 = UserTask { id: TaskId(3), prio: 2 };
    q.add_task(t1, Some(2));
    q.add_task(t2, Some(2));
    q.add_arc_task(t3, 2);
    assert!(!q.is_all_empty());
    assert_eq!(q.peek_task(), Some(t2));
    assert_eq!(q.peek_task(), Some(t1));
    assert_eq!(q.peek_task(), Some(t3));
    assert_eq!(q.peek_task(), None);
    assert!(q.is_all_empty());
}

#[test]
fn user_queue_default_priority_is_zero() {
    let mut q = UserTaskQueue::new();
    let low = UserTask { id: TaskId(1), prio: 5 };
    let none = UserTask { id: TaskId(2), prio: 0 };
    q.add_task(low, Some(5));
    q.add_task(none, None);
    assert_eq!(q.peek_task(), Some(none));
    assert_eq!(q.peek_task(), Some(low));
}

#[test]
fn user_task_spawn_takes_next_id() {
    let mut c = 0usize;
    let a = UserTask::spawn(&mut c, 4);
    let b = UserTask::spawn(&mut c, 1);
    assert_eq!(a.id, TaskId(0));
    assert_eq!(a.prio, 4);
    assert_eq!(b.id, TaskId(1));
    assert_eq!(c, 2);
}
