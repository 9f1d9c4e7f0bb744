//! The user library's calls: which request each one issues, and what each
//! makes of the kernel's answer.
use vstd::prelude::*;
use crate::user_syscall::{
    SyscallRequest, request, sys_dup, sys_open, sys_close, sys_pipe, sys_read, sys_write, sys_exit,
    sys_yield, sys_get_time, sys_getpid, sys_fork, sys_exec, SYSCALL_DUP, SYSCALL_OPEN,
    SYSCALL_CLOSE, SYSCALL_PIPE, SYSCALL_READ, SYSCALL_WRITE, SYSCALL_EXIT, SYSCALL_YIELD,
    SYSCALL_GET_TIME, SYSCALL_GETPID, SYSCALL_FORK, SYSCALL_EXEC,
};

verus! {

/// Flags of `open`.
#[derive(Clone, Copy, Debug, PartialEq, Eq, Structural)]
pub struct OpenFlags {
    pub bits: u32,
}

impl OpenFlags {
    pub const RDONLY: u32 = 0;
    pub const WRONLY: u32 = 1;
    pub const RDWR: u32 = 2;
    pub const CREATE: u32 = 512;
    pub const TRUNC: u32 = 1024;
}

pub fn dup(fd: usize) -> (r: SyscallRequest)
    ensures
        r@ == request(SYSCALL_DUP, seq![fd, 0, 0, 0, 0, 0]),
{
    sys_dup(fd)
}

/// Opens the NUL-terminated path at address `path`.
pub fn open(path: usize, flags: OpenFlags) -> (r: SyscallRequest)
    ensures
        r@ == request(SYSCALL_OPEN, seq![path, flags.bits as usize, 0, 0, 0, 0]),
{
    sys_open(path, flags.bits)
}

pub fn close(fd: usize) -> (r: SyscallRequest)
    ensures
        r@ == request(SYSCALL_CLOSE, seq![fd, 0, 0, 0, 0, 0]),
{
    sys_close(fd)
}

/// Creates a pipe whose two descriptors the kernel stores at `pipe_fd`.
pub fn pipe(pipe_fd: usize) -> (r: SyscallRequest)
    ensures
        r@ == request(SYSCALL_PIPE, seq![pipe_fd, 0, 0, 0, 0, 0]),
{
    sys_pipe(pipe_fd)
}

/// Reads into the `len` bytes at address `buf`.
pub fn read(fd: usize, buf: usize, len: usize) -> (r: SyscallRequest)
    ensures
        r@ == request(SYSCALL_READ, seq![fd, buf, len, 0, 0, 0]),
{
    sys_read(fd, buf, len)
}

/// Writes the `len` bytes at address `buf`.
pub fn write(fd: usize, buf: usize, len: usize) -> (r: SyscallRequest)
    ensures
        r@ == request(SYSCALL_WRITE, seq![fd, buf, len, 0, 0, 0]),
{
    sys_write(fd, buf, len)
}

pub fn exit(exit_code: i32) -> (r: SyscallRequest)
    ensures
        r@ == request(SYSCALL_EXIT, seq![exit_code as usize, 0, 0, 0, 0, 0]),
{
    sys_exit(exit_code)
}

pub fn yield_() -> (r: SyscallRequest)
    ensures
        r@ == request(SYSCALL_YIELD, seq![0, 0, 0, 0, 0, 0]),
{
    sys_yield()
}

pub fn get_time() -> (r: SyscallRequest)
    ensures
        r@ == request(SYSCALL_GET_TIME, seq![0, 0, 0, 0, 0, 0]),
{
    sys_get_time()
}

pub fn getpid() -> (r: SyscallRequest)
    ensures
        r@ == request(SYSCALL_GETPID, seq![0, 0, 0, 0, 0, 0]),
{
    sys_getpid()
}

pub fn fork() -> (r: SyscallRequest)
    ensures
        r@ == request(SYSCALL_FORK, seq![0, 0, 0, 0, 0, 0]),
{
    sys_fork()
}

/// Runs the program at path address `path` with the argument array at `args`.
pub fn exec(path: usize, args: usize) -> (r: SyscallRequest)
    ensures
        r@ == request(SYSCALL_EXEC, seq![path, args, 0, 0, 0, 0]),
{
    sys_exec(path, args)
}

/// What `wait` makes of one answer to `waitpid(-1, ..)`: -2 means no child
/// has exited yet (yield and ask again, `None`); any other answer, -1 or a
/// child's pid, is the result.
pub fn wait(answer: isize) -> (r: Option<isize>)
    ensures
        answer == -2 ==> r is None,
        answer != -2 ==> r == Some(answer),
{
    if answer == -2 { None } else { Some(answer) }
}

/// What `waitpid` makes of one answer to `waitpid(pid, ..)`, as `wait` does.
pub fn waitpid(answer: isize) -> (r: Option<isize>)
    ensures
        answer == -2 ==> r is None,
        answer != -2 ==> r == Some(answer),
{
    if answer == -2 { None } else { Some(answer) }
}

/// Whether a sleep of `period_ms` begun at time `start` must go on yielding
/// at time `now`.
pub fn sleep(start: isize, now: isize, period_ms: usize) -> (r: bool)
    requires
        isize::MIN <= start + (period_ms as isize) <= isize::MAX,
    ensures
        r == (now < start + (period_ms as isize)),
{
    now < start + period_ms as isize
}

/// The address the kernel answered for a symbol lookup.
pub fn get_symbol_addr(answer: isize) -> (r: usize)
    ensures
        r == answer as usize,
{
    answer as usize
}

/// The page-table token the kernel answered.
pub fn satp_read(answer: isize) -> (r: usize)
    ensures
        r == answer as usize,
{
    answer as usize
}

/// Counts one more completed write on the shared counter.
pub fn write_cnt_without_wake(counter: &mut usize)
    requires
        *old(counter) < usize::MAX,
    ensures
        *final(counter) == *old(counter) + 1,
{
    *counter = *counter + 1;
}

/// Resets the shared counter.
pub fn set_cnter_zero(counter: &mut usize)
    ensures
        *final(counter) == 0,
{
    *counter = 0;
}

/// A future that becomes ready once the shared counter reaches its value.
#[derive(Clone, Copy, Debug, PartialEq, Eq, Structural)]
pub struct Counter {
    pub cnt: usize,
}

impl Counter {
    pub fn new(v: usize) -> (r: Self)
        ensures
            r.cnt == v,
    {
        Counter { cnt: v }
    }

    pub fn write(&mut self)
        requires
            old(self).cnt < usize::MAX,
        ensures
            final(self).cnt == old(self).cnt + 1,
    {
        self.cnt = self.cnt + 1;
    }

    /// One poll against the shared counter's value: ready when they match.
    pub fn is_ready(&self, shared: usize) -> (r: bool)
        ensures
            r == (self.cnt == shared),
    {
        self.cnt == shared
    }
}

} // verus!
