use coroutine_os::user_lib::{
    close, dup, exec, exit, fork, get_symbol_addr, get_time, getpid, open, pipe, read, satp_read,
    set_cnter_zero, sleep, wait, waitpid, write_cnt_without_wake, yield_, Counter, OpenFlags,
};
use coroutine_os::user_syscall::{
    async_sys_read, async_sys_write, sys_get_satp, sys_get_symbol_addr, sys_waitpid, AsyncCall,
    SyscallRequest, ASYNC_SYSCALL_READ, ASYNC_SYSCALL_WRITE,
};

#[test]
fn requests_carry_numbers_and_arguments() {
    assert_eq!(dup(3), SyscallRequest { id: 24, args: [3, 0, 0, 0, 0, 0] });
    assert_eq!(open(0x100, OpenFlags { bits: OpenFlags::CREATE | OpenFlags::WRONLY }).args, [0x100, 513, 0, 0, 0, 0]);
    assert_eq!(close(4).id, 57);
    assert_eq!(pipe(0x200).args[0], 0x200);
    assert_eq!(read(0, 0x300, 8), SyscallRequest { id: 63, args: [0, 0x300, 8, 0, 0, 0] });
    assert_eq!(coroutine_os::user_lib::write(1, 0x400, 9), SyscallRequest { id: 64, args: [1, 0x400, 9, 0, 0, 0] });
    assert_eq!(exit(-1), SyscallRequest { id: 93, args: [usize::MAX, 0, 0, 0, 0, 0] });
    assert_eq!(yield_().id, 124);
    assert_eq!(get_time().id, 169);
    assert_eq!(getpid().id, 172);
    assert_eq!(fork().id, 220);
    assert_eq!(exec(1, 2), SyscallRequest { id: 221, args: [1, 2, 0, 0, 0, 0] });
    assert_eq!(sys_waitpid(-1, 8), SyscallRequest { id: 260, args: [usize::MAX, 8, 0, 0, 0, 0] });
    assert_eq!(sys_get_symbol_addr(0x50).id, 301);
    assert_eq!(sys_get_satp().id, 403);
    assert_eq!(async_sys_read(1, 2, 3, 4, 5, 6), SyscallRequest { id: 501, args: [1, 2, 3, 4, 5, 6] });
    assert_eq!(async_sys_write(1, 2, 3, 4, 5, 6).id, 502);
}

#[test]
fn wait_retries_only_on_minus_two() {
    assert_eq!(wait(-2), None);
    assert_eq!(wait(-1), Some(-1));
    assert_eq!(wait(7), Some(7));
    assert_eq!(waitpid(-2), None);
    assert_eq!(waitpid(3), Some(3));
}

#[test]
fn sleep_keeps_yielding_until_period_passed() {
    assert!(sleep(100, 120, 50));
    assert!(!sleep(100, 150, 50));
    assert!(!sleep(100, 151, 50));
}

#[test]
fn answers_become_addresses() {
    assert_eq!(get_symbol_addr(0x8000), 0x8000);
    assert_eq!(satp_read(-1), usize::MAX);
}

#[test]
fn async_call_submits_once() {
    let mut c = AsyncCall::new(ASYNC_SYSCALL_READ, 3, 0x10, 128, 0, 1, 33);
    assert_eq!(c.poll_submit(), Some(SyscallRequest { id: 501, args: [3, 0x10, 128, 0, 1, 33] }));
    assert_eq!(c.poll_submit(), None);
    let mut w = AsyncCall::new(ASYNC_SYSCALL_WRITE, 4, 0x20, 10, 1, 1, 33);
    assert_eq!(w.poll_submit().unwrap().id, 502);
    let mut other = AsyncCall::new(7, 0, 0, 0, 0, 0, 0);
    assert_eq!(other.poll_submit(), None);
    assert_eq!(other.cnt, 1);
}

#[test]
fn counter_future() {
    let mut shared = 0usize;
    let mut c = Counter::new(2);
    assert!(!c.is_ready(shared));
    write_cnt_without_wake(&mut shared);
    write_cnt_without_wake(&mut shared);
    assert!(c.is_ready(shared));
    c.write();
    assert_eq!(c.cnt, 3);
    set_cnter_zero(&mut shared);
    assert_eq!(shared, 0);
}
