//! The user library's system-call requests: the call number and the six
//! argument registers for each call. Addresses are passed as raw numbers.
use vstd::prelude::*;
use crate::cbq::{CBTid, CBTID_LEN, check_callback};

verus! {

pub const SYSCALL_DUP: usize = 24;
pub const SYSCALL_OPEN: usize = 56;
pub const SYSCALL_CLOSE: usize = 57;
pub const SYSCALL_PIPE: usize = 59;
pub const SYSCALL_READ: usize = 63;
pub const SYSCALL_WRITE: usize = 64;
pub const SYSCALL_EXIT: usize = 93;
pub const SYSCALL_YIELD: usize = 124;
pub const SYSCALL_GET_TIME: usize = 169;
pub const SYSCALL_GETPID: usize = 172;
pub const SYSCALL_FORK: usize = 220;
pub const SYSCALL_EXEC: usize = 221;
pub const SYSCALL_WAITPID: usize = 260;
pub const SYSCALL_GET_SYMBOL_ADDR: usize = 301;
pub const SYSCALL_GET_SATP: usize = 403;
pub const ASYNC_SYSCALL_READ: usize = 501;
pub const ASYNC_SYSCALL_WRITE: usize = 502;

/// A system call to issue: its number and its argument registers.
#[derive(Clone, Copy, Debug, PartialEq, Eq)]
pub struct SyscallRequest {
    pub id: usize,
    pub args: [usize; 6],
}

/// The request with call number `id` and arguments `a`.
pub open spec fn request(id: usize, a: Seq<usize>) -> (usize, Seq<usize>) {
    (id, a)
}

impl SyscallRequest {
    /// The request as a call number and an argument sequence.
    pub open spec fn view(&self) -> (usize, Seq<usize>) {
        (self.id, self.args@)
    }
}

pub fn sys_dup(fd: usize) -> (r: SyscallRequest)
    ensures
        r@ == request(SYSCALL_DUP, seq![fd, 0, 0, 0, 0, 0]),
{
    SyscallRequest { id: SYSCALL_DUP, args: [fd, 0, 0, 0, 0, 0] }
}

pub fn sys_open(path: usize, flags: u32) -> (r: SyscallRequest)
    ensures
        r@ == request(SYSCALL_OPEN, seq![path, flags as usize, 0, 0, 0, 0]),
{
    SyscallRequest { id: SYSCALL_OPEN, args: [path, flags as usize, 0, 0, 0, 0] }
}

pub fn sys_close(fd: usize) -> (r: SyscallRequest)
    ensures
        r@ == request(SYSCALL_CLOSE, seq![fd, 0, 0, 0, 0, 0]),
{
    SyscallRequest { id: SYSCALL_CLOSE, args: [fd, 0, 0, 0, 0, 0] }
}

pub fn sys_pipe(pipe: usize) -> (r: SyscallRequest)
    ensures
        r@ == request(SYSCALL_PIPE, seq![pipe, 0, 0, 0, 0, 0]),
{
    SyscallRequest { id: SYSCALL_PIPE, args: [pipe, 0, 0, 0, 0, 0] }
}

pub fn sys_read(fd: usize, buffer: usize, len: usize) -> (r: SyscallRequest)
    ensures
        r@ == request(SYSCALL_READ, seq![fd, buffer, len, 0, 0, 0]),
{
    SyscallRequest { id: SYSCALL_READ, args: [fd, buffer, len, 0, 0, 0] }
}

pub fn sys_write(fd: usize, buffer: usize, len: usize) -> (r: SyscallRequest)
    ensures
        r@ == request(SYSCALL_WRITE, seq![fd, buffer, len, 0, 0, 0]),
{
    SyscallRequest { id: SYSCALL_WRITE, args: [fd, buffer, len, 0, 0, 0] }
}

pub fn sys_exit(exit_code: i32) -> (r: SyscallRequest)
    ensures
        r@ == request(SYSCALL_EXIT, seq![exit_code as usize, 0, 0, 0, 0, 0]),
{
    SyscallRequest { id: SYSCALL_EXIT, args: [exit_code as usize, 0, 0, 0, 0, 0] }
}

pub fn sys_yield() -> (r: SyscallRequest)
    ensures
        r@ == request(SYSCALL_YIELD, seq![0, 0, 0, 0, 0, 0]),
{
    SyscallRequest { id: SYSCALL_YIELD, args: [0, 0, 0, 0, 0, 0] }
}

pub fn sys_get_time() -> (r: SyscallRequest)
    ensures
        r@ == request(SYSCALL_GET_TIME, seq![0, 0, 0, 0, 0, 0]),
{
    SyscallRequest { id: SYSCALL_GET_TIME, args: [0, 0, 0, 0, 0, 0] }
}

pub fn sys_getpid() -> (r: SyscallRequest)
    ensures
        r@ == request(SYSCALL_GETPID, seq![0, 0, 0, 0, 0, 0]),
{
    SyscallRequest { id: SYSCALL_GETPID, args: [0, 0, 0, 0, 0, 0] }
}

pub fn sys_fork() -> (r: SyscallRequest)
    ensures
        r@ == request(SYSCALL_FORK, seq![0, 0, 0, 0, 0, 0]),
{
    SyscallRequest { id: SYSCALL_FORK, args: [0, 0, 0, 0, 0, 0] }
}

pub fn sys_exec(path: usize, args: usize) -> (r: SyscallRequest)
    ensures
        r@ == request(SYSCALL_EXEC, seq![path, args, 0, 0, 0, 0]),
{
    SyscallRequest { id: SYSCALL_EXEC, args: [path, args, 0, 0, 0, 0] }
}

pub fn sys_waitpid(pid: isize, exit_code: usize) -> (r: SyscallRequest)
    ensures
        r@ == request(SYSCALL_WAITPID, seq![pid as usize, exit_code, 0, 0, 0, 0]),
{
    SyscallRequest { id: SYSCALL_WAITPID, args: [pid as usize, exit_code, 0, 0, 0, 0] }
}

pub fn sys_get_symbol_addr(name: usize) -> (r: SyscallRequest)
    ensures
        r@ == request(SYSCALL_GET_SYMBOL_ADDR, seq![name, 0, 0, 0, 0, 0]),
{
    SyscallRequest { id: SYSCALL_GET_SYMBOL_ADDR, args: [name, 0, 0, 0, 0, 0] }
}

pub fn sys_get_satp() -> (r: SyscallRequest)
    ensures
        r@ == request(SYSCALL_GET_SATP, seq![0, 0, 0, 0, 0, 0]),
{
    SyscallRequest { id: SYSCALL_GET_SATP, args: [0, 0, 0, 0, 0, 0] }
}

pub fn async_sys_read(fd: usize, buffer_ptr: usize, buffer_len: usize, tid: usize, space_id: usize, k: usize) -> (r: SyscallRequest)
    ensures
        r@ == request(ASYNC_SYSCALL_READ, seq![fd, buffer_ptr, buffer_len, tid, space_id, k]),
{
    SyscallRequest { id: ASYNC_SYSCALL_READ, args: [fd, buffer_ptr, buffer_len, tid, space_id, k] }
}

pub fn async_sys_write(fd: usize, buffer_ptr: usize, buffer_len: usize, tid: usize, space_id: usize, rtid: usize) -> (r: SyscallRequest)
    ensures
        r@ == request(ASYNC_SYSCALL_WRITE, seq![fd, buffer_ptr, buffer_len, tid, space_id, rtid]),
{
    SyscallRequest { id: ASYNC_SYSCALL_WRITE, args: [fd, buffer_ptr, buffer_len, tid, space_id, rtid] }
}

/// An asynchronous read or write submitted once, then polled for completion.
pub struct AsyncCall {
    pub call_type: usize,
    pub fd: usize,
    pub buffer_ptr: usize,
    pub buffer_len: usize,
    pub tid: usize,
    pub space_id: usize,
    pub rtid: usize,
    pub cnt: usize,
}

impl AsyncCall {
    /// A call not yet submitted.
    pub fn new(_type: usize, _fd: usize, _bt: usize, _bl: usize, _tid: usize, _sid: usize, _rtid: usize) -> (r: Self)
        ensures
            r.call_type == _type,
            r.fd == _fd,
            r.buffer_ptr == _bt,
            r.buffer_len == _bl,
            r.tid == _tid,
            r.space_id == _sid,
            r.rtid == _rtid,
            r.cnt == 0,
    {
        AsyncCall { call_type: _type, fd: _fd, buffer_ptr: _bt, buffer_len: _bl, tid: _tid, space_id: _sid, rtid: _rtid, cnt: 0 }
    }

    /// The submission part of a poll: on the first poll only, the request to
    /// issue (none for a call type that is neither read nor write), after
    /// which the call counts as submitted.
    pub fn poll_submit(&mut self) -> (r: Option<SyscallRequest>)
        ensures
            final(self).cnt == next_poll_count(old(self).cnt),
            r is Some ==> old(self).cnt == 0,
            old(self).cnt == 0 ==> final(self).cnt == 1,
            old(self).cnt != 0 ==> final(self).cnt == old(self).cnt && r is None,
            final(self).call_type == old(self).call_type && final(self).tid == old(self).tid,
            old(self).cnt == 0 && old(self).call_type == ASYNC_SYSCALL_READ ==> (r matches Some(q) && q@ == request(
                ASYNC_SYSCALL_READ,
                seq![old(self).fd, old(self).buffer_ptr, old(self).buffer_len, old(self).tid, old(self).space_id, old(self).rtid],
            )),
            old(self).cnt == 0 && old(self).call_type == ASYNC_SYSCALL_WRITE ==> (r matches Some(q) && q@ == request(
                ASYNC_SYSCALL_WRITE,
                seq![old(self).fd, old(self).buffer_ptr, old(self).buffer_len, old(self).tid, old(self).space_id, old(self).rtid],
            )),
            old(self).cnt == 0 && old(self).call_type != ASYNC_SYSCALL_READ && old(self).call_type != ASYNC_SYSCALL_WRITE ==> r is None,
    {
        if self.cnt == 0 {
            let req = if self.call_type == ASYNC_SYSCALL_READ {
                Some(async_sys_read(self.fd, self.buffer_ptr, self.buffer_len, self.tid, self.space_id, self.rtid))
            } else if self.call_type == ASYNC_SYSCALL_WRITE {
                Some(async_sys_write(self.fd, self.buffer_ptr, self.buffer_len, self.tid, self.space_id, self.rtid))
            } else {
                None
            };
            self.cnt = 1;
            return req;
        }
        None
    }
}


/// The submission count after one more poll: a call not yet submitted
/// counts as submitted, and the count stays once set.
pub open spec fn next_poll_count(cnt: usize) -> usize {
    if cnt == 0 { 1 } else { cnt }
}

/// The submission count after `k` polls starting from `cnt`.
pub open spec fn count_after_polls(cnt: usize, k: nat) -> usize
    decreases k,
{
    if k == 0 { cnt } else { count_after_polls(next_poll_count(cnt), (k - 1) as nat) }
}

impl AsyncCall {
    /// One poll of the call: submits it on the first poll (see
    /// `poll_submit`), then reports whether the kernel has marked coroutine
    /// `tid` complete, consuming that mark.
    pub fn poll(&mut self, cbtid: &mut CBTid) -> (r: (Option<SyscallRequest>, bool))
        requires
            old(self).tid < CBTID_LEN,
        ensures
            final(self).cnt == next_poll_count(old(self).cnt),
            final(self).call_type == old(self).call_type && final(self).tid == old(self).tid,
            old(self).cnt != 0 ==> r.0 is None,
            old(self).cnt == 0 && old(self).call_type == ASYNC_SYSCALL_READ ==> (r.0 matches Some(q) && q@ == request(
                ASYNC_SYSCALL_READ,
                seq![old(self).fd, old(self).buffer_ptr, old(self).buffer_len, old(self).tid, old(self).space_id, old(self).rtid],
            )),
            old(self).cnt == 0 && old(self).call_type == ASYNC_SYSCALL_WRITE ==> (r.0 matches Some(q) && q@ == request(
                ASYNC_SYSCALL_WRITE,
                seq![old(self).fd, old(self).buffer_ptr, old(self).buffer_len, old(self).tid, old(self).space_id, old(self).rtid],
            )),
            old(self).call_type != ASYNC_SYSCALL_READ && old(self).call_type != ASYNC_SYSCALL_WRITE ==> r.0 is None,
            r.1 == old(cbtid)@[old(self).tid as int],
            final(cbtid)@ == old(cbtid)@.update(old(self).tid as int, false),
    {
        let req = self.poll_submit();
        let ready = check_callback(cbtid, self.tid);
        (req, ready)
    }
}

/// A call is submitted exactly once however often it is polled: starting
/// unsubmitted, poll `i` submits (its count is still 0 before it) exactly
/// when it is the first, and after `k >= 1` polls the call counts as
/// submitted.
pub proof fn lemma_submitted_once(i: nat, k: nat)
    requires
        1 <= k,
    ensures
        (count_after_polls(0, i) == 0) <==> i == 0,
        count_after_polls(0, k) == 1,
{
    lemma_count_stays(1, i);
    lemma_count_stays(1, (k - 1) as nat);
    if i > 0 {
        assert(count_after_polls(0, i) == count_after_polls(1, (i - 1) as nat));
    }
}

/// Once set, the count no longer changes.
proof fn lemma_count_stays(cnt: usize, k: nat)
    requires
        cnt != 0,
    ensures
        count_after_polls(cnt, k) == cnt,
    decreases k,
{
    if k > 0 {
        lemma_count_stays(cnt, (k - 1) as nat);
    }
}

} // verus!
