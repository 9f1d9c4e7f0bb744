//! The kernel's system-call layer: decoding a trap into a call, and the
//! descriptor-table decisions of the file calls.
use vstd::prelude::*;
use crate::bitmap::PRIO_NUM;
use crate::executor::{Excutor, WRMap, wakeup};
use crate::process::{FileHandle, TaskControlBlockInner, first_free, table_after_alloc, same_but_fds};
use crate::prio_queue::TaskId;
use crate::user_queue::UserTask;

verus! {

pub const SYSCALL_DUP: usize = 24;
pub const SYSCALL_OPEN: usize = 56;
pub const SYSCALL_CLOSE: usize = 57;
pub const SYSCALL_PIPE: usize = 59;
pub const SYSCALL_READ: usize = 63;
pub const SYSCALL_WRITE: usize = 64;
pub const SYSCALL_EXIT: usize = 93;
pub const SYSCALL_YIELD: usize = 124;
pub const SYSCALL_GET_TIME: usize = 169;
pub const SYSCALL_GETPID: usize = 172;
pub const SYSCALL_FORK: usize = 220;
pub const SYSCALL_EXEC: usize = 221;
pub const SYSCALL_WAITPID: usize = 260;
pub const SYSCALL_DO_YIELD: usize = 270;
pub const SYSCALL_GET_SYMBOL_ADDR: usize = 301;
pub const SYSCALL_GET_SATP: usize = 403;
pub const ASYNC_SYSCALL_READ: usize = 501;
pub const ASYNC_SYSCALL_WRITE: usize = 502;
pub const SYSCALL_SHUT_DONE: usize = 555;

/// A decoded system call; addresses stay raw user addresses.
#[derive(Clone, Copy, Debug, PartialEq, Eq, Structural)]
pub enum SyscallCall {
    Dup { fd: usize },
    Open { path: usize, flags: u32 },
    Close { fd: usize },
    Pipe { pipe: usize },
    Read { fd: usize, buf: usize, len: usize },
    Write { fd: usize, buf: usize, len: usize },
    Exit { exit_code: i32 },
    Yield,
    GetTime,
    GetPid,
    Fork,
    Exec { path: usize, args: usize },
    WaitPid { pid: isize, exit_code_addr: usize },
    GetSatp,
    AsyncRead { fd: usize, buf: usize, len: usize, tid: usize, space_id: usize, key: usize },
    AsyncWrite { fd: usize, buf: usize, len: usize, tid: usize, space_id: usize, rtid: usize },
    ShutDone,
    DoYield { arg: usize },
    GetSymbolAddr { name: usize },
}

/// The call numbers the kernel serves.
pub open spec fn is_supported_syscall(id: usize) -> bool {
    id == SYSCALL_DUP || id == SYSCALL_OPEN || id == SYSCALL_CLOSE || id == SYSCALL_PIPE
        || id == SYSCALL_READ || id == SYSCALL_WRITE || id == SYSCALL_EXIT || id == SYSCALL_YIELD
        || id == SYSCALL_GET_TIME || id == SYSCALL_GETPID || id == SYSCALL_FORK || id == SYSCALL_EXEC
        || id == SYSCALL_WAITPID || id == SYSCALL_GET_SATP || id == ASYNC_SYSCALL_READ
        || id == ASYNC_SYSCALL_WRITE || id == SYSCALL_SHUT_DONE || id == SYSCALL_DO_YIELD
        || id == SYSCALL_GET_SYMBOL_ADDR
}

/// The call that number `id` with argument registers `a` stands for.
pub open spec fn decode_call(id: usize, a: Seq<usize>) -> SyscallCall {
    if id == SYSCALL_DUP {
        SyscallCall::Dup { fd: a[0] }
    } else if id == SYSCALL_OPEN {
        SyscallCall::Open { path: a[0], flags: a[1] as u32 }
    } else if id == SYSCALL_CLOSE {
        SyscallCall::Close { fd: a[0] }
    } else if id == SYSCALL_PIPE {
        SyscallCall::Pipe { pipe: a[0] }
    } else if id == SYSCALL_READ {
        SyscallCall::Read { fd: a[0], buf: a[1], len: a[2] }
    } else if id == SYSCALL_WRITE {
        SyscallCall::Write { fd: a[0], buf: a[1], len: a[2] }
    } else if id == SYSCALL_EXIT {
        SyscallCall::Exit { exit_code: a[0] as i32 }
    } else if id == SYSCALL_YIELD {
        SyscallCall::Yield
    } else if id == SYSCALL_GET_TIME {
        SyscallCall::GetTime
    } else if id == SYSCALL_GETPID {
        SyscallCall::GetPid
    } else if id == SYSCALL_FORK {
        SyscallCall::Fork
    } else if id == SYSCALL_EXEC {
        SyscallCall::Exec { path: a[0], args: a[1] }
    } else if id == SYSCALL_WAITPID {
        SyscallCall::WaitPid { pid: a[0] as isize, exit_code_addr: a[1] }
    } else if id == SYSCALL_GET_SATP {
        SyscallCall::GetSatp
    } else if id == ASYNC_SYSCALL_READ {
        SyscallCall::AsyncRead { fd: a[0], buf: a[1], len: a[2], tid: a[3], space_id: a[4], key: a[5] }
    } else if id == ASYNC_SYSCALL_WRITE {
        SyscallCall::AsyncWrite { fd: a[0], buf: a[1], len: a[2], tid: a[3], space_id: a[4], rtid: a[5] }
    } else if id == SYSCALL_SHUT_DONE {
        SyscallCall::ShutDone
    } else if id == SYSCALL_DO_YIELD {
        SyscallCall::DoYield { arg: a[0] }
    } else {
        SyscallCall::GetSymbolAddr { name: a[0] }
    }
}

/// Whether the kernel serves call number `syscall_id`.
pub fn syscall_supported(syscall_id: usize) -> (r: bool)
    ensures
        r == is_supported_syscall(syscall_id),
{
    syscall_id == SYSCALL_DUP || syscall_id == SYSCALL_OPEN || syscall_id == SYSCALL_CLOSE
        || syscall_id == SYSCALL_PIPE || syscall_id == SYSCALL_READ || syscall_id == SYSCALL_WRITE
        || syscall_id == SYSCALL_EXIT || syscall_id == SYSCALL_YIELD || syscall_id == SYSCALL_GET_TIME
        || syscall_id == SYSCALL_GETPID || syscall_id == SYSCALL_FORK || syscall_id == SYSCALL_EXEC
        || syscall_id == SYSCALL_WAITPID || syscall_id == SYSCALL_GET_SATP || syscall_id == ASYNC_SYSCALL_READ
        || syscall_id == ASYNC_SYSCALL_WRITE || syscall_id == SYSCALL_SHUT_DONE || syscall_id == SYSCALL_DO_YIELD
        || syscall_id == SYSCALL_GET_SYMBOL_ADDR
}

/// Decodes call number `syscall_id` with register arguments `args`; the
/// number must be one the kernel serves.
pub fn syscall(syscall_id: usize, args: [usize; 6]) -> (r: SyscallCall)
    requires
        is_supported_syscall(syscall_id),
    ensures
        r == decode_call(syscall_id, args@),
{
    match syscall_id {
        SYSCALL_DUP => SyscallCall::Dup { fd: args[0] },
        SYSCALL_OPEN => SyscallCall::Open { path: args[0], flags: args[1] as u32 },
        SYSCALL_CLOSE => SyscallCall::Close { fd: args[0] },
        SYSCALL_PIPE => SyscallCall::Pipe { pipe: args[0] },
        SYSCALL_READ => SyscallCall::Read { fd: args[0], buf: args[1], len: args[2] },
        SYSCALL_WRITE => SyscallCall::Write { fd: args[0], buf: args[1], len: args[2] },
        SYSCALL_EXIT => SyscallCall::Exit { exit_code: args[0] as i32 },
        SYSCALL_YIELD => SyscallCall::Yield,
        SYSCALL_GET_TIME => SyscallCall::GetTime,
        SYSCALL_GETPID => SyscallCall::GetPid,
        SYSCALL_FORK => SyscallCall::Fork,
        SYSCALL_EXEC => SyscallCall::Exec { path: args[0], args: args[1] },
        SYSCALL_WAITPID => SyscallCall::WaitPid { pid: args[0] as isize, exit_code_addr: args[1] },
        SYSCALL_GET_SATP => SyscallCall::GetSatp,
        ASYNC_SYSCALL_READ => SyscallCall::AsyncRead {
            fd: args[0], buf: args[1], len: args[2], tid: args[3], space_id: args[4], key: args[5],
        },
        ASYNC_SYSCALL_WRITE => SyscallCall::AsyncWrite {
            fd: args[0], buf: args[1], len: args[2], tid: args[3], space_id: args[4], rtid: args[5],
        },
        SYSCALL_SHUT_DONE => SyscallCall::ShutDone,
        SYSCALL_DO_YIELD => SyscallCall::DoYield { arg: args[0] },
        _ => SyscallCall::GetSymbolAddr { name: args[0] },
    }
}

/// The open file at `fd`, if `fd` is in the table and in use.
pub open spec fn open_file_at(t: Seq<Option<FileHandle>>, fd: usize) -> Option<FileHandle> {
    if fd < t.len() { t[fd as int] } else { None }
}

/// The file a `write` on `fd` goes to: `None` (the call fails with -1) when
/// `fd` is out of the table, unused, or not writable.
pub fn sys_write(inner: &TaskControlBlockInner, fd: usize) -> (r: Option<FileHandle>)
    ensures
        r == (match open_file_at(inner.fd_table@, fd) {
            Some(f) => if f.writable { Some(f) } else { None },
            None => None,
        }),
{
    if fd >= inner.fd_table.len() {
        return None;
    }
    match inner.fd_table[fd] {
        Some(file) => if !file.writable { None } else { Some(file) },
        None => None,
    }
}

/// The file a `read` on `fd` comes from: `None` (the call fails with -1)
/// when `fd` is out of the table, unused, or not readable.
pub fn sys_read(inner: &TaskControlBlockInner, fd: usize) -> (r: Option<FileHandle>)
    ensures
        r == (match open_file_at(inner.fd_table@, fd) {
            Some(f) => if f.readable { Some(f) } else { None },
            None => None,
        }),
{
    if fd >= inner.fd_table.len() {
        return None;
    }
    match inner.fd_table[fd] {
        Some(file) => if !file.readable { None } else { Some(file) },
        None => None,
    }
}

/// Installs the file that `open` found, at the lowest free descriptor, and
/// returns that descriptor; -1 when no file was found.
pub fn sys_open(inner: &mut TaskControlBlockInner, opened: Option<FileHandle>) -> (r: isize)
    requires
        old(inner).fd_table.len() < isize::MAX,
    ensures
        opened is None ==> r == -1 && final(inner).fd_table@ == old(inner).fd_table@,
        opened matches Some(f) ==> r == first_free(old(inner).fd_table@)
            && final(inner).fd_table@ == table_after_alloc(old(inner).fd_table@).update(r as int, Some(f)),
        same_but_fds(final(inner), old(inner)),
{
    match opened {
        Some(file) => {
            let fd = inner.alloc_fd();
            inner.fd_table.set(fd, Some(file));
            fd as isize
        },
        None => -1,
    }
}

/// Frees descriptor `fd`: 0 on success, -1 when it is out of the table or unused.
pub fn sys_close(inner: &mut TaskControlBlockInner, fd: usize) -> (r: isize)
    ensures
        open_file_at(old(inner).fd_table@, fd) is None ==> r == -1
            && final(inner).fd_table@ == old(inner).fd_table@,
        open_file_at(old(inner).fd_table@, fd) is Some ==> r == 0
            && final(inner).fd_table@ == old(inner).fd_table@.update(fd as int, None),
        same_but_fds(final(inner), old(inner)),
{
    if fd >= inner.fd_table.len() {
        return -1;
    }
    if inner.fd_table[fd].is_none() {
        return -1;
    }
    inner.fd_table.set(fd, None);
    0
}

/// Duplicates descriptor `fd` onto the lowest free descriptor, which it
/// returns; -1 when `fd` is out of the table or unused.
pub fn sys_dup(inner: &mut TaskControlBlockInner, fd: usize) -> (r: isize)
    requires
        old(inner).fd_table.len() < isize::MAX,
    ensures
        open_file_at(old(inner).fd_table@, fd) is None ==> r == -1
            && final(inner).fd_table@ == old(inner).fd_table@,
        open_file_at(old(inner).fd_table@, fd) is Some ==> r == first_free(old(inner).fd_table@)
            && final(inner).fd_table@ == table_after_alloc(old(inner).fd_table@).update(
                r as int,
                old(inner).fd_table@[fd as int],
            ),
        same_but_fds(final(inner), old(inner)),
{
    if fd >= inner.fd_table.len() {
        return -1;
    }
    if inner.fd_table[fd].is_none() {
        return -1;
    }
    let new_fd = inner.alloc_fd();
    let f = inner.fd_table[fd];
    inner.fd_table.set(new_fd, f);
    new_fd as isize
}

/// Installs the two ends of a new pipe on the two lowest free descriptors,
/// read end first, and returns (read descriptor, write descriptor).
pub fn sys_pipe(inner: &mut TaskControlBlockInner, pipe_read: FileHandle, pipe_write: FileHandle) -> (r: (usize, usize))
    requires
        old(inner).fd_table.len() < usize::MAX - 1,
    ensures
        ({
            let t0 = old(inner).fd_table@;
            let t1 = table_after_alloc(t0).update(first_free(t0), Some(pipe_read));
            &&& r.0 == first_free(t0)
            &&& r.1 == first_free(t1)
            &&& final(inner).fd_table@ == table_after_alloc(t1).update(first_free(t1), Some(pipe_write))
        }),
        same_but_fds(final(inner), old(inner)),
{
    let read_fd = inner.alloc_fd();
    inner.fd_table.set(read_fd, Some(pipe_read));
    let write_fd = inner.alloc_fd();
    inner.fd_table.set(write_fd, Some(pipe_write));
    (read_fd, write_fd)
}

/// Starts an asynchronous read on `fd`: when `fd` names a readable file, a
/// new kernel coroutine of priority 0 is filed and queued for it and 0 is
/// returned with that coroutine and the file; otherwise -1 and nothing changes.
pub fn async_sys_read(
    inner: &TaskControlBlockInner,
    ex: &mut Excutor,
    counter: &mut usize,
    fd: usize,
) -> (r: (isize, Option<(UserTask, FileHandle)>))
    requires
        old(ex).wf(),
        old(ex).task_num < usize::MAX,
        *old(counter) <= usize::MAX / 2,
    ensures
        final(ex).wf(),
        ({
            let f = open_file_at(inner.fd_table@, fd);
            &&& (f is None || !f.unwrap().readable) ==> r == (-1isize, None::<(UserTask, FileHandle)>)
                && *final(ex) == *old(ex) && *final(counter) == *old(counter)
            &&& (f is Some && f.unwrap().readable) ==> {
                let task = UserTask { id: TaskId(*old(counter)), prio: 0 };
                &&& r == (0isize, Some((task, f.unwrap())))
                &&& *final(counter) == *old(counter) + 1
                &&& final(ex).tasks@ == old(ex).tasks@.insert(task.id.0, task)
                &&& final(ex).task_queue.levels() == old(ex).task_queue.levels().update(
                    0,
                    old(ex).task_queue.levels()[0].push(task.id),
                )
                &&& final(ex).task_num == old(ex).task_num + 1
            }
        }),
{
    match sys_read(inner, fd) {
        Some(file) => {
            let task = UserTask::spawn(counter, 0);
            ex.add_task(task, 0);
            (0, Some((task, file)))
        },
        None => (-1, None),
    }
}

/// Completes an asynchronous write once its bytes are written: closes `fd`,
/// takes the reader paired with `rtid`, wakes that reader if the executor
/// holds it, and returns 0.
pub fn async_sys_write(
    inner: &mut TaskControlBlockInner,
    wrmap: &mut WRMap,
    ex: &mut Excutor,
    fd: usize,
    rtid: usize,
) -> (r: isize)
    requires
        old(ex).wf(),
        old(wrmap)@.contains_key(rtid) && old(ex).tasks@.contains_key(old(wrmap)@[rtid])
            ==> old(ex).waker_cache@.contains_key(old(wrmap)@[rtid]),
    ensures
        r == 0,
        final(ex).wf(),
        open_file_at(old(inner).fd_table@, fd) is None ==> final(inner).fd_table@ == old(inner).fd_table@,
        open_file_at(old(inner).fd_table@, fd) is Some ==> final(inner).fd_table@
            == old(inner).fd_table@.update(fd as int, None),
        same_but_fds(final(inner), old(inner)),
        final(wrmap)@ == old(wrmap)@.remove(rtid),
        final(ex).tasks == old(ex).tasks,
        final(ex).task_num == old(ex).task_num,
        !(old(wrmap)@.contains_key(rtid) && old(ex).tasks@.contains_key(old(wrmap)@[rtid]))
            ==> final(ex).task_queue == old(ex).task_queue,
        old(wrmap)@.contains_key(rtid) && old(ex).tasks@.contains_key(old(wrmap)@[rtid]) ==> ({
            let rid = old(wrmap)@[rtid];
            let w = old(ex).waker_cache@[rid];
            final(ex).task_queue.levels() == old(ex).task_queue.levels().update(
                w.prio as int,
                old(ex).task_queue.levels()[w.prio as int].push(TaskId(rid)),
            )
        }),
{
    sys_close(inner, fd);
    let rid = wrmap.get_rid(rtid);
    match rid {
        Some(rid) => wakeup(ex, rid),
        None => {},
    }
    0
}

} // verus!

verus! {

/// The calling convention is shared: every request the user library builds
/// carries a call number the kernel serves, and the kernel decodes it back
/// to the call the library meant, with the same arguments.
pub proof fn lemma_user_requests_decode(
    fd: usize,
    buf: usize,
    len: usize,
    path: usize,
    flags: u32,
    pipe: usize,
    exit_code: i32,
    pid: isize,
    addr: usize,
    tid: usize,
    space_id: usize,
    key: usize,
)
    ensures
        ({
            let (id, a) = crate::user_syscall::request(crate::user_syscall::SYSCALL_DUP, seq![fd, 0, 0, 0, 0, 0]);
            is_supported_syscall(id) && decode_call(id, a) == (SyscallCall::Dup { fd })
        }),
        ({
            let (id, a) = crate::user_syscall::request(crate::user_syscall::SYSCALL_OPEN, seq![path, flags as usize, 0, 0, 0, 0]);
            is_supported_syscall(id) && decode_call(id, a) == (SyscallCall::Open { path, flags })
        }),
        ({
            let (id, a) = crate::user_syscall::request(crate::user_syscall::SYSCALL_CLOSE, seq![fd, 0, 0, 0, 0, 0]);
            is_supported_syscall(id) && decode_call(id, a) == (SyscallCall::Close { fd })
        }),
        ({
            let (id, a) = crate::user_syscall::request(crate::user_syscall::SYSCALL_PIPE, seq![pipe, 0, 0, 0, 0, 0]);
            is_supported_syscall(id) && decode_call(id, a) == (SyscallCall::Pipe { pipe })
        }),
        ({
            let (id, a) = crate::user_syscall::request(crate::user_syscall::SYSCALL_READ, seq![fd, buf, len, 0, 0, 0]);
            is_supported_syscall(id) && decode_call(id, a) == (SyscallCall::Read { fd, buf, len })
        }),
        ({
            let (id, a) = crate::user_syscall::request(crate::user_syscall::SYSCALL_WRITE, seq![fd, buf, len, 0, 0, 0]);
            is_supported_syscall(id) && decode_call(id, a) == (SyscallCall::Write { fd, buf, len })
        }),
        ({
            let (id, a) = crate::user_syscall::request(crate::user_syscall::SYSCALL_EXIT, seq![exit_code as usize, 0, 0, 0, 0, 0]);
            is_supported_syscall(id) && decode_call(id, a) == (SyscallCall::Exit { exit_code })
        }),
        ({
            let (id, a) = crate::user_syscall::request(crate::user_syscall::SYSCALL_WAITPID, seq![pid as usize, addr, 0, 0, 0, 0]);
            is_supported_syscall(id) && decode_call(id, a) == (SyscallCall::WaitPid { pid, exit_code_addr: addr })
        }),
        ({
            let (id, a) = crate::user_syscall::request(crate::user_syscall::SYSCALL_EXEC, seq![path, addr, 0, 0, 0, 0]);
            is_supported_syscall(id) && decode_call(id, a) == (SyscallCall::Exec { path, args: addr })
        }),
        ({
            let (id, a) = crate::user_syscall::request(crate::user_syscall::ASYNC_SYSCALL_READ, seq![fd, buf, len, tid, space_id, key]);
            is_supported_syscall(id) && decode_call(id, a) == (SyscallCall::AsyncRead { fd, buf, len, tid, space_id, key })
        }),
        ({
            let (id, a) = crate::user_syscall::request(crate::user_syscall::ASYNC_SYSCALL_WRITE, seq![fd, buf, len, tid, space_id, key]);
            is_supported_syscall(id) && decode_call(id, a) == (SyscallCall::AsyncWrite { fd, buf, len, tid, space_id, rtid: key })
        }),
        ({
            let (id, a) = crate::user_syscall::request(crate::user_syscall::SYSCALL_GET_SYMBOL_ADDR, seq![addr, 0, 0, 0, 0, 0]);
            is_supported_syscall(id) && decode_call(id, a) == (SyscallCall::GetSymbolAddr { name: addr })
        }),
        ({
            let (id, a) = crate::user_syscall::request(crate::user_syscall::SYSCALL_YIELD, seq![0, 0, 0, 0, 0, 0]);
            is_supported_syscall(id) && decode_call(id, a) == SyscallCall::Yield
        }),
        ({
            let (id, a) = crate::user_syscall::request(crate::user_syscall::SYSCALL_GET_TIME, seq![0, 0, 0, 0, 0, 0]);
            is_supported_syscall(id) && decode_call(id, a) == SyscallCall::GetTime
        }),
        ({
            let (id, a) = crate::user_syscall::request(crate::user_syscall::SYSCALL_GETPID, seq![0, 0, 0, 0, 0, 0]);
            is_supported_syscall(id) && decode_call(id, a) == SyscallCall::GetPid
        }),
        ({
            let (id, a) = crate::user_syscall::request(crate::user_syscall::SYSCALL_FORK, seq![0, 0, 0, 0, 0, 0]);
            is_supported_syscall(id) && decode_call(id, a) == SyscallCall::Fork
        }),
        ({
            let (id, a) = crate::user_syscall::request(crate::user_syscall::SYSCALL_GET_SATP, seq![0, 0, 0, 0, 0, 0]);
            is_supported_syscall(id) && decode_call(id, a) == SyscallCall::GetSatp
        }),
{
    assert((exit_code as usize) as i32 == exit_code) by (bit_vector);
    assert((pid as usize) as isize == pid) by (bit_vector);
    assert((flags as usize) as u32 == flags) by (bit_vector);
}


/// The call number each kind of call is made with.
pub open spec fn call_number(c: SyscallCall) -> usize {
    match c {
        SyscallCall::Dup { .. } => SYSCALL_DUP,
        SyscallCall::Open { .. } => SYSCALL_OPEN,
        SyscallCall::Close { .. } => SYSCALL_CLOSE,
        SyscallCall::Pipe { .. } => SYSCALL_PIPE,
        SyscallCall::Read { .. } => SYSCALL_READ,
        SyscallCall::Write { .. } => SYSCALL_WRITE,
        SyscallCall::Exit { .. } => SYSCALL_EXIT,
        SyscallCall::Yield => SYSCALL_YIELD,
        SyscallCall::GetTime => SYSCALL_GET_TIME,
        SyscallCall::GetPid => SYSCALL_GETPID,
        SyscallCall::Fork => SYSCALL_FORK,
        SyscallCall::Exec { .. } => SYSCALL_EXEC,
        SyscallCall::WaitPid { .. } => SYSCALL_WAITPID,
        SyscallCall::GetSatp => SYSCALL_GET_SATP,
        SyscallCall::AsyncRead { .. } => ASYNC_SYSCALL_READ,
        SyscallCall::AsyncWrite { .. } => ASYNC_SYSCALL_WRITE,
        SyscallCall::ShutDone => SYSCALL_SHUT_DONE,
        SyscallCall::DoYield { .. } => SYSCALL_DO_YIELD,
        SyscallCall::GetSymbolAddr { .. } => SYSCALL_GET_SYMBOL_ADDR,
    }
}

/// The register each plain (untyped) argument of a call is passed in,
/// with its value: the calling convention puts the `k`-th argument in
/// register `a{k}`, the first in `a0`.
pub open spec fn argument_registers(c: SyscallCall) -> Seq<(int, usize)> {
    match c {
        SyscallCall::Dup { fd } => seq![(0int, fd)],
        SyscallCall::Open { path, flags: _ } => seq![(0int, path)],
        SyscallCall::Close { fd } => seq![(0int, fd)],
        SyscallCall::Pipe { pipe } => seq![(0int, pipe)],
        SyscallCall::Read { fd, buf, len } => seq![(0int, fd), (1int, buf), (2int, len)],
        SyscallCall::Write { fd, buf, len } => seq![(0int, fd), (1int, buf), (2int, len)],
        SyscallCall::Exec { path, args } => seq![(0int, path), (1int, args)],
        SyscallCall::WaitPid { pid: _, exit_code_addr } => seq![(1int, exit_code_addr)],
        SyscallCall::AsyncRead { fd, buf, len, tid, space_id, key } =>
            seq![(0int, fd), (1int, buf), (2int, len), (3int, tid), (4int, space_id), (5int, key)],
        SyscallCall::AsyncWrite { fd, buf, len, tid, space_id, rtid } =>
            seq![(0int, fd), (1int, buf), (2int, len), (3int, tid), (4int, space_id), (5int, rtid)],
        SyscallCall::DoYield { arg } => seq![(0int, arg)],
        SyscallCall::GetSymbolAddr { name } => seq![(0int, name)],
        _ => Seq::empty(),
    }
}

/// Decoding follows the calling convention: a served call number decodes
/// to the call made with that number, each plain argument is the register
/// of its position (the first in `a0`, so `do_yield`'s argument is
/// `args[0]`), and the typed ones are `a0` or `a1` converted: `open`'s
/// flags from `a1`, `exit`'s code and `waitpid`'s process number from `a0`.
pub proof fn lemma_decode_follows_registers(id: usize, a: Seq<usize>)
    requires
        is_supported_syscall(id),
        a.len() == 6,
    ensures
        call_number(decode_call(id, a)) == id,
        forall|k: int| 0 <= k < argument_registers(decode_call(id, a)).len() ==>
            a[(#[trigger] argument_registers(decode_call(id, a))[k]).0] == argument_registers(decode_call(id, a))[k].1,
        decode_call(id, a) matches SyscallCall::Open { flags, .. } ==> flags == a[1] as u32,
        decode_call(id, a) matches SyscallCall::Exit { exit_code } ==> exit_code == a[0] as i32,
        decode_call(id, a) matches SyscallCall::WaitPid { pid, .. } ==> pid == a[0] as isize,
        id == SYSCALL_DO_YIELD ==> decode_call(id, a) == (SyscallCall::DoYield { arg: a[0] }),
{
}

} // verus!
