use coroutine_os::memory_set::{PageMapping, ProgramHeader, SpaceConfig, PAGE_SIZE};
use coroutine_os::task_manager::TaskManager;
use coroutine_os::task_processor::Processor;
use coroutine_os::process::{FileHandle, TaskControlBlock, TaskStatus};

fn cfg() -> SpaceConfig {
    let trampoline = usize::MAX - PAGE_SIZE + 1;
    SpaceConfig {
        trampoline,
        trap_context: trampoline - PAGE_SIZE,
        strampoline: 0x8020_5000,
        user_stack_size: 0x2000,
    }
}

fn load(va: u64, mem: u64) -> ProgramHeader {
    ProgramHeader {
        is_load: true,
        virtual_addr: va,
        mem_size: mem,
        offset: 0x1000,
        file_size: mem,
        readable: true,
        writable: false,
        executable: true,
    }
}

fn file(id: u64) -> FileHandle {
    FileHandle { id, readable: true, writable: true }
}

fn spawn(pid: usize) -> TaskControlBlock {
    let (tcb, shared_plans, user_plans) =
        TaskControlBlock::new(pid, &Vec::new(), &vec![load(0x1_0000, 0x1000)], &cfg(), file(0), file(1));
    assert!(shared_plans.is_empty());
    assert_eq!(user_plans.len(), 1);
    tcb
}

#[test]
fn new_process_is_ready_with_stdio_and_stack_top() {
    let mut tcb = spawn(4);
    assert_eq!(tcb.getpid(), 4);
    let inner = tcb.acquire_inner_lock();
    assert_eq!(inner.task_status, TaskStatus::Ready);
    assert_eq!(inner.base_size, 0x11 * PAGE_SIZE + PAGE_SIZE + 0x2000);
    assert_eq!(inner.fd_table, vec![Some(file(0)), Some(file(1)), Some(file(1))]);
    assert!(inner.parent.is_none());
    assert!(inner.children.is_empty());
    assert_eq!(inner.memory_set.areas().len(), 3);
    let pages = inner.memory_set.page_mappings();
    assert_eq!(pages[pages.len() - 2], PageMapping { vpn: 0x87420, ppn: 0x87404, flags: 30 });
}

#[test]
fn fork_copies_areas_descriptors_and_records_the_child() {
    let mut parent = spawn(2);
    parent.inner.fd_table.push(None);
    parent.inner.fd_table.push(Some(file(9)));
    let child = parent.fork(7, &cfg());
    assert_eq!(child.pid, 7);
    assert_eq!(child.inner.parent, Some(2));
    assert_eq!(child.inner.fd_table, parent.inner.fd_table);
    assert_eq!(child.inner.base_size, parent.inner.base_size);
    assert_eq!(child.inner.memory_set.areas(), parent.inner.memory_set.areas());
    assert_eq!(child.inner.memory_set.page_mappings().len(), 1);
    assert_eq!(parent.inner.children, vec![7]);
    let again = parent.fork(8, &cfg());
    assert_eq!(again.inner.parent, Some(2));
    assert_eq!(parent.inner.children, vec![7, 8]);
}

#[test]
fn exec_places_arguments_below_the_stack_top() {
    let mut tcb = spawn(3);
    let args = vec![b"ls".to_vec(), b"-l".to_vec(), Vec::new()];
    let (layout, _shared, user_plans) =
        tcb.exec(&Vec::new(), &vec![load(0x2_0000, 0x3000)], &cfg(), &args);
    assert_eq!(user_plans.len(), 1);
    let w = std::mem::size_of::<usize>();
    let top = 0x23 * PAGE_SIZE + PAGE_SIZE + 0x2000;
    assert_eq!(layout.argv_base, top - 4 * w);
    assert_eq!(layout.argv, vec![layout.argv_base - 3, layout.argv_base - 6, layout.argv_base - 7]);
    assert_eq!(layout.user_sp, layout.argv_base - 7);
    let b = layout.argv_base;
    assert_eq!(layout.words, vec![(b, b - 3), (b + w, b - 6), (b + 2 * w, b - 7), (b + 3 * w, 0)]);
    assert_eq!(
        layout.bytes,
        vec![
            (b - 3, b'l'),
            (b - 2, b's'),
            (b - 1, 0),
            (b - 6, b'-'),
            (b - 5, b'l'),
            (b - 4, 0),
            (b - 7, 0),
        ]
    );
    assert_eq!(tcb.inner.memory_set.areas()[0].start_vpn, 0x20);
    let pages = tcb.inner.memory_set.page_mappings();
    assert_eq!(pages[pages.len() - 2].ppn, 0x87401);
    assert_eq!(tcb.inner.fd_table.len(), 3);
}

#[test]
fn processor_runs_then_suspends_a_process() {
    let mut p = Processor::default();
    assert_eq!(p.current(), None);
    let mut tcb = spawn(5);
    let mut manager = TaskManager::new();
    assert_eq!(p.suspend_current(&mut tcb.inner, &mut manager), None);
    assert_eq!(tcb.inner.task_status, TaskStatus::Ready);
    p.run_next(5, &mut tcb.inner, 2);
    assert_eq!(tcb.inner.task_status, TaskStatus::Running(2));
    assert_eq!(p.current(), Some(5));
    assert_eq!(p.suspend_current(&mut tcb.inner, &mut manager), Some(5));
    assert_eq!(tcb.inner.task_status, TaskStatus::Ready);
    assert_eq!(p.current(), None);
    let mut set = std::collections::BTreeSet::new();
    assert_eq!(manager.fetch(&mut set), Some(5));
    p.run_next(6, &mut tcb.inner, 0);
    assert_eq!(p.take_current_mut(), Some(6));
    assert_eq!(p.take_current(), None);
}
