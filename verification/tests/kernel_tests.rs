use coroutine_os::executor::{Excutor, WRMap};
use coroutine_os::kernel_syscall::{
    async_sys_read, async_sys_write, sys_close, sys_dup, sys_open, sys_pipe, sys_read, sys_write,
    syscall, syscall_supported, SyscallCall,
};
use coroutine_os::memory_set::MemorySet;
use coroutine_os::process::{FileHandle, TaskControlBlockInner, TaskStatus};
use coroutine_os::prio_queue::TaskId;
use coroutine_os::task_manager::{TaskManager, TaskPool};
use coroutine_os::user_queue::UserTask;
use std::collections::BTreeSet;

fn stdin() -> FileHandle {
    FileHandle { id: 0, readable: true, writable: false }
}
fn stdout() -> FileHandle {
    FileHandle { id: 1, readable: false, writable: true }
}

fn fresh() -> TaskControlBlockInner {
    TaskControlBlockInner::new(0x1000, MemorySet::new_bare(), stdin(), stdout())
}

#[test]
fn new_process_has_standard_streams() {
    let t = fresh();
    assert_eq!(t.fd_table, vec![Some(stdin()), Some(stdout()), Some(stdout())]);
    assert_eq!(t.task_status, TaskStatus::Ready);
    assert!(!t.is_zombie());
    let mut z = fresh();
    z.task_status = TaskStatus::Zombie;
    assert!(z.is_zombie());
}

#[test]
fn alloc_fd_reuses_lowest_free() {
    let mut t = fresh();
    assert_eq!(t.alloc_fd(), 3);
    assert_eq!(t.fd_table.len(), 4);
    t.fd_table[3] = Some(stdin());
    assert_eq!(sys_close(&mut t, 1), 0);
    assert_eq!(t.alloc_fd(), 1);
    assert_eq!(t.fd_table.len(), 4);
}

#[test]
fn close_errors() {
    let mut t = fresh();
    assert_eq!(sys_close(&mut t, 9), -1);
    assert_eq!(sys_close(&mut t, 2), 0);
    assert_eq!(sys_close(&mut t, 2), -1);
}

#[test]
fn dup_copies_to_lowest_free() {
    let mut t = fresh();
    assert_eq!(sys_dup(&mut t, 0), 3);
    assert_eq!(t.fd_table[3], Some(stdin()));
    sys_close(&mut t, 1);
    assert_eq!(sys_dup(&mut t, 2), 1);
    assert_eq!(t.fd_table[1], Some(stdout()));
    assert_eq!(sys_dup(&mut t, 40), -1);
    sys_close(&mut t, 0);
    assert_eq!(sys_dup(&mut t, 0), -1);
}

#[test]
fn open_installs_or_fails() {
    let mut t = fresh();
    let f = FileHandle { id: 9, readable: true, writable: true };
    assert_eq!(sys_open(&mut t, Some(f)), 3);
    assert_eq!(t.fd_table[3], Some(f));
    assert_eq!(sys_open(&mut t, None), -1);
    assert_eq!(t.fd_table.len(), 4);
}

#[test]
fn read_write_permission_checks() {
    let t = fresh();
    assert_eq!(sys_write(&t, 1), Some(stdout()));
    assert_eq!(sys_write(&t, 0), None);
    assert_eq!(sys_write(&t, 7), None);
    assert_eq!(sys_read(&t, 0), Some(stdin()));
    assert_eq!(sys_read(&t, 1), None);
    assert_eq!(sys_read(&t, 100), None);
}

#[test]
fn pipe_takes_two_lowest_fds() {
    let mut t = fresh();
    sys_close(&mut t, 0);
    let r = FileHandle { id: 5, readable: true, writable: false };
    let w = FileHandle { id: 5, readable: false, writable: true };
    assert_eq!(sys_pipe(&mut t, r, w), (0, 3));
    assert_eq!(t.fd_table[0], Some(r));
    assert_eq!(t.fd_table[3], Some(w));
}

#[test]
fn async_read_spawns_kernel_coroutine() {
    let t = fresh();
    let mut ex = Excutor::new();
    let mut counter = 10usize;
    let (ret, spawned) = async_sys_read(&t, &mut ex, &mut counter, 0);
    assert_eq!(ret, 0);
    let (task, file) = spawned.unwrap();
    assert_eq!(task, UserTask { id: TaskId(10), prio: 0 });
    assert_eq!(file, stdin());
    assert_eq!(counter, 11);
    assert_eq!(ex.pop(), Some(TaskId(10)));
    let (ret2, none) = async_sys_read(&t, &mut ex, &mut counter, 1);
    assert_eq!(ret2, -1);
    assert!(none.is_none());
    assert_eq!(counter, 11);
}

#[test]
fn async_write_closes_and_wakes_reader() {
    let mut t = fresh();
    let mut ex = Excutor::new();
    let mut m = WRMap::new();
    ex.add_task(UserTask { id: TaskId(4), prio: 2 }, 2);
    ex.get_waker(TaskId(4), 2);
    assert_eq!(ex.pop(), Some(TaskId(4)));
    m.register(33, 4);
    assert_eq!(async_sys_write(&mut t, &mut m, &mut ex, 1, 33), 0);
    assert_eq!(t.fd_table[1], None);
    assert_eq!(m.get_rid(33), None);
    assert_eq!(ex.pop(), Some(TaskId(4)));
}

#[test]
fn syscall_decoding() {
    assert_eq!(syscall(24, [5, 0, 0, 0, 0, 0]), SyscallCall::Dup { fd: 5 });
    assert_eq!(syscall(64, [1, 0x1000, 12, 0, 0, 0]), SyscallCall::Write { fd: 1, buf: 0x1000, len: 12 });
    assert_eq!(syscall(93, [usize::MAX, 0, 0, 0, 0, 0]), SyscallCall::Exit { exit_code: -1 });
    assert_eq!(syscall(260, [usize::MAX, 8, 0, 0, 0, 0]), SyscallCall::WaitPid { pid: -1, exit_code_addr: 8 });
    assert_eq!(syscall(124, [0; 6]), SyscallCall::Yield);
    assert_eq!(
        syscall(501, [1, 2, 3, 4, 5, 6]),
        SyscallCall::AsyncRead { fd: 1, buf: 2, len: 3, tid: 4, space_id: 5, key: 6 }
    );
    assert_eq!(syscall(555, [0; 6]), SyscallCall::ShutDone);
    assert_eq!(syscall(301, [77, 0, 0, 0, 0, 0]), SyscallCall::GetSymbolAddr { name: 77 });
}

#[test]
fn task_manager_fifo_without_priorities() {
    let mut m = TaskManager::new();
    let mut prio = BTreeSet::new();
    assert_eq!(m.fetch(&mut prio), None);
    m.add(1);
    m.add(2);
    m.add(3);
    assert_eq!(m.fetch(&mut prio), Some(1));
    assert_eq!(m.fetch(&mut prio), Some(2));
}

#[test]
fn task_manager_serves_prioritised_pid_first() {
    let mut m = TaskManager::new();
    for p in [1, 2, 3, 4] {
        m.add(p);
    }
    let mut prio = BTreeSet::new();
    prio.insert(3);
    assert_eq!(m.fetch(&mut prio), Some(3));
    assert!(prio.is_empty());
    // passed-over processes went to the back in order
    assert_eq!(m.fetch(&mut prio), Some(4));
    assert_eq!(m.fetch(&mut prio), Some(1));
    assert_eq!(m.fetch(&mut prio), Some(2));
}

#[test]
fn task_manager_prioritised_pid_not_ready() {
    let mut m = TaskManager::new();
    m.add(1);
    m.add(2);
    let mut prio = BTreeSet::new();
    prio.insert(9);
    assert_eq!(m.fetch(&mut prio), Some(1));
    assert!(prio.contains(&9));
    assert_eq!(m.fetch(&mut prio), Some(2));
}

#[test]
fn task_manager_remove_and_prioritize() {
    let mut m = TaskManager::new();
    for p in [1, 2, 3, 4] {
        m.add(p);
    }
    m.remove(3);
    m.remove(8);
    m.prioritize(4);
    let mut prio = BTreeSet::new();
    assert_eq!(m.fetch(&mut prio), Some(4));
    assert_eq!(m.fetch(&mut prio), Some(1));
    assert_eq!(m.fetch(&mut prio), Some(2));
    assert_eq!(m.fetch(&mut prio), None);
}

#[test]
fn task_manager_prioritize_missing_pid_keeps_order() {
    let mut m = TaskManager::new();
    for p in [1, 2, 3] {
        m.add(p);
    }
    m.prioritize(7);
    m.prioritize(1);
    let mut prio = BTreeSet::new();
    assert_eq!(m.fetch(&mut prio), Some(1));
    assert_eq!(m.fetch(&mut prio), Some(2));
    assert_eq!(m.fetch(&mut prio), Some(3));
}

#[test]
fn task_pool_sleep_and_wake() {
    let mut p = TaskPool::new();
    p.add(1);
    p.add(2);
    p.sleep(1);
    assert!(p.sleeping_tasks.contains(&1));
    let mut prio = BTreeSet::new();
    assert_eq!(p.fetch(&mut prio), Some(2));
    p.wake(1);
    assert!(!p.sleeping_tasks.contains(&1));
    p.add(5);
    p.prioritize(5);
    assert_eq!(p.fetch(&mut prio), Some(5));
    p.remove(1);
    assert_eq!(p.fetch(&mut prio), None);
}

#[test]
fn supported_syscall_numbers() {
    for id in [24usize, 56, 57, 59, 63, 64, 93, 124, 169, 172, 220, 221, 260, 270, 301, 403, 501, 502, 555] {
        assert!(syscall_supported(id), "{}", id);
    }
    for id in [0usize, 25, 100, 402, 503, 9999] {
        assert!(!syscall_supported(id), "{}", id);
    }
}
