use coroutine_os::user_queue::{UserTask, UserTaskQueue};
use coroutine_os::thread::{IdleStep, 
    new_vec_default, Context, ContextContent, Processor, Status, Thread, ThreadInfo, ThreadManager,
    ThreadPool, UserStack, STACK_SIZE,
};

fn th(space: usize) -> Thread {
    Thread { context: Context::null(), ustack: UserStack(0x1000 * space), space_id: space }
}

#[test]
fn stack_top_and_context() {
    let s = UserStack(0x4000_0000);
    assert_eq!(s.top(), 0x4000_0000 + STACK_SIZE);
    let c = ContextContent::new_thread_content(0x8000, 7, s.top());
    assert_eq!(c.ra, 0x8000);
    assert_eq!(c.s[0], 7);
    assert!(c.s[1..].iter().all(|x| *x == 0));
    let ctx = c.push_at(s.top());
    assert_eq!(ctx.content_addr, s.top() - 13 * std::mem::size_of::<usize>());
    assert_eq!(Context::null().content_addr, 0);
}

#[test]
fn vec_default_is_empty_slots() {
    let v: Vec<Option<u8>> = new_vec_default(4);
    assert_eq!(v, vec![None; 4]);
}

#[test]
fn pool_add_acquire_retrieve() {
    let mut p = ThreadPool::new(2);
    p.add(th(1));
    p.add(th(2));
    let (t0, a) = p.acquire().unwrap();
    assert_eq!((t0, a), (0, th(1)));
    let (t1, b) = p.acquire().unwrap();
    assert_eq!((t1, b), (1, th(2)));
    assert!(p.acquire().is_none());
    p.retrieve(0, a);
    assert_eq!(p.acquire(), Some((0, th(1))));
    p.exit(1);
    p.retrieve(1, b);
    p.add(th(3));
    assert_eq!(p.acquire(), Some((1, th(3))));
}

#[test]
fn pool_exit_drops_queued_id() {
    let mut p = ThreadPool::new(3);
    p.add(th(1));
    p.add(th(2));
    p.exit(0);
    assert_eq!(p.acquire(), Some((1, th(2))));
    assert!(p.acquire().is_none());
}

#[test]
fn processor_idle_loop_steps() {
    let mut cpu = Processor::new();
    assert!(cpu.inner.is_none());
    cpu.init(th(0), ThreadPool::new(2));
    cpu.add_thread(th(5));
    assert_eq!(cpu.idle_main_acquire(), Some(0));
    assert_eq!(cpu.inner.as_ref().unwrap().current, Some((0, th(5))));
    cpu.idle_main_retrieve();
    assert!(cpu.inner.as_ref().unwrap().current.is_none());
    assert_eq!(cpu.idle_main_acquire(), Some(0));
    assert_eq!(cpu.exit(0), 0);
    cpu.idle_main_retrieve();
    assert_eq!(cpu.idle_main_acquire(), None);
}

#[test]
fn thread_manager_fifo() {
    let mut m = ThreadManager::new();
    assert!(m.front().is_none());
    m.add(th(4));
    m.add(th(6));
    assert_eq!(m.thread_space_id(), 4);
    assert_eq!(m.front(), Some(th(4)));
    assert_eq!(m.fetch(), Some(th(4)));
    assert_eq!(m.fetch(), Some(th(6)));
    assert_eq!(m.fetch(), None);
    let info = ThreadInfo { status: Status::Sleeping, thread: None };
    assert_eq!(info.status, Status::Sleeping);
}

#[test]
fn thread_constructors_place_context_below_stack_top() {
    let w = std::mem::size_of::<usize>();
    let s = UserStack(0x10_0000);
    let t = Thread::new_thread(0x8020_0000, 3, s);
    assert_eq!(t.space_id, 3);
    assert_eq!(t.ustack, s);
    assert_eq!(t.context.content_addr, 0x10_0000 + STACK_SIZE - 13 * w);
    let b = Thread::new_box_thread(0x8020_0000, 3, s);
    assert_eq!(*b, t);
    let idle = Thread::new_idle(s);
    assert_eq!(idle.context.content_addr, 0);
    assert_eq!(idle.space_id, 0);
    assert_eq!(Context::new_thread_context(1, 2, 0x4000).content_addr, 0x4000 - 13 * w);
}

#[test]
fn idle_loop_exits_or_respawns_when_no_thread_is_queued() {
    let mut cpu = Processor::new();
    cpu.init(th(0), ThreadPool::new(2));
    let mut queue = UserTaskQueue::new();
    assert_eq!(cpu.idle_main_next(&queue), IdleStep::Exit);
    let mut next_id = 0usize;
    queue.add_task(UserTask::spawn(&mut next_id, 1), Some(1));
    assert_eq!(cpu.idle_main_next(&queue), IdleStep::Respawn);
    cpu.add_thread(th(1));
    assert_eq!(cpu.idle_main_next(&queue), IdleStep::Switch(0));
    assert_eq!(cpu.inner.as_ref().unwrap().current, Some((0, th(1))));
}

#[test]
fn new_thread_carries_its_entry_registers() {
    let t = Thread::new_thread(0x8020_1000, 4, UserStack(0x20_0000));
    assert_eq!(t.context.content.ra, 0x8020_1000);
    assert_eq!(t.context.content.s[0], 4);
    assert!(t.context.content.s[1..].iter().all(|x| *x == 0));
    let idle = Thread::new_idle(UserStack(0x20_0000));
    assert_eq!(idle.context.content.ra, 0);
    assert!(idle.context.content.s.iter().all(|x| *x == 0));
}

#[test]
fn respawn_adds_one_coroutine_loop_thread() {
    let mut cpu = Processor::new();
    cpu.init(th(0), ThreadPool::new(1));
    assert!(cpu.has_free_slot());
    cpu.add_thread_main(0x8040_0000, UserStack(0x30_0000));
    assert!(!cpu.has_free_slot());
    let queue = UserTaskQueue::new();
    assert_eq!(cpu.idle_main_next(&queue), IdleStep::Switch(0));
    let (_, t) = cpu.inner.as_ref().unwrap().current.unwrap();
    assert_eq!(t.context.content.ra, 0x8040_0000);
    assert_eq!(t.context.content.s[0], 1);
    assert_eq!(t.space_id, 1);
    assert_eq!(t.ustack, UserStack(0x30_0000));
}
