//! Kernel-style threads of an address space: their saved contexts and
//! stacks, the thread pool that hands out thread ids, and the processor
//! that runs them from an idle loop.
use vstd::prelude::*;
use std::collections::VecDeque;
use crate::user_queue::UserTaskQueue;
use crate::bitmap::PRIO_NUM;

verus! {

/// Thread id: an index into the thread pool.
pub type Tid = usize;

/// Exit code of a thread.
pub type ExitCode = usize;

/// Size of a thread's stack in bytes.
pub const STACK_SIZE: usize = 0x8000;

/// Number of machine words in a saved context (`ra` and `s0`..`s11`).
pub const CONTEXT_WORDS: usize = 13;

/// A saved context: where its register contents are stored, and the
/// contents stored there (the runtime writes them at that address before
/// the first switch).
#[derive(Clone, Copy, Debug, PartialEq, Eq)]
pub struct Context {
    pub content_addr: usize,
    pub content: ContextContent,
}

/// The registers of a thread that enters `entry` with `arg` in `s0`, every
/// other register zero.
pub open spec fn entry_registers(c: ContextContent, entry: usize, arg: usize) -> bool {
    &&& c.ra == entry
    &&& c.s@[0] == arg
    &&& forall|i: int| 1 <= i < 12 ==> c.s@[i] == 0
}

impl Context {
    /// The context of a thread that has never been switched out: nothing
    /// saved, all registers zero.
    pub fn null() -> (r: Context)
        ensures
            r.content_addr == 0,
            entry_registers(r.content, 0, 0),
    {
        Context { content_addr: 0, content: ContextContent::default() }
    }

    /// The context of a new thread entering `entry` with argument `arg`
    /// on the stack ending at `ustack_top`: its registers are saved just
    /// below that top.
    pub fn new_thread_context(entry: usize, arg: usize, ustack_top: usize) -> (r: Context)
        requires
            ustack_top >= CONTEXT_WORDS * 8,
        ensures
            r.content_addr == ustack_top - CONTEXT_WORDS * (usize::BITS / 8) as usize,
            entry_registers(r.content, entry, arg),
    {
        ContextContent::new_thread_content(entry, arg, ustack_top).push_at(ustack_top)
    }
}

/// The callee-saved registers of a switched-out thread.
#[derive(Clone, Copy, Debug, PartialEq, Eq)]
pub struct ContextContent {
    pub ra: usize,
    pub s: [usize; 12],
}

impl ContextContent {
    /// All registers zero.
    pub fn default() -> (r: ContextContent)
        ensures
            r.ra == 0,
            forall|i: int| 0 <= i < 12 ==> r.s@[i] == 0,
    {
        ContextContent { ra: 0, s: [0usize; 12] }
    }

    /// The initial registers of a new thread: it returns into `entry` with
    /// `arg` in `s0`, every other register zero.
    pub fn new_thread_content(entry: usize, arg: usize, ustack_top: usize) -> (r: ContextContent)
        ensures
            r.ra == entry,
            r.s@[0] == arg,
            forall|i: int| 1 <= i < 12 ==> r.s@[i] == 0,
    {
        let mut content = ContextContent::default();
        content.ra = entry;
        content.s[0] = arg;
        content
    }

    /// The context that saves these registers just below `stack_top`: the
    /// address they go to and the registers themselves (the runtime writes
    /// them there).
    pub fn push_at(self, stack_top: usize) -> (r: Context)
        requires
            stack_top >= CONTEXT_WORDS * 8,
        ensures
            r.content_addr == stack_top - CONTEXT_WORDS * (usize::BITS / 8) as usize,
            r.content == self,
    {
        let word: usize = (usize::BITS / 8) as usize;
        assert(word <= 8);
        Context { content_addr: stack_top - CONTEXT_WORDS * word, content: self }
    }
}

/// A thread stack, identified by its lowest address.
#[derive(Clone, Copy, Debug, PartialEq, Eq, Structural)]
pub struct UserStack(pub usize);

impl UserStack {
    /// One past the highest address of the stack.
    pub fn top(&self) -> (r: usize)
        requires
            self.0 + STACK_SIZE <= usize::MAX,
        ensures
            r == self.0 + STACK_SIZE,
    {
        self.0 + STACK_SIZE
    }
}

/// A thread: its saved context, its stack and its address space.
#[derive(Clone, Copy, Debug, PartialEq, Eq)]
pub struct Thread {
    pub context: Context,
    pub ustack: UserStack,
    pub space_id: usize,
}

impl Thread {
    /// The idle thread, on stack `ustack`: no saved context, address space 0.
    pub fn new_idle(ustack: UserStack) -> (r: Thread)
        ensures
            r.context.content_addr == 0,
            entry_registers(r.context.content, 0, 0),
            r.ustack == ustack,
            r.space_id == 0,
    {
        Thread { context: Context::null(), ustack, space_id: 0 }
    }

    /// A thread that enters `entry` with argument `arg` on stack `ustack`,
    /// in address space `arg`.
    pub fn new_thread(entry: usize, arg: usize, ustack: UserStack) -> (r: Thread)
        requires
            ustack.0 + STACK_SIZE <= usize::MAX,
        ensures
            r.context.content_addr == ustack.0 + STACK_SIZE - CONTEXT_WORDS * (usize::BITS / 8) as usize,
            entry_registers(r.context.content, entry, arg),
            r.ustack == ustack,
            r.space_id == arg,
    {
        let top = ustack.top();
        Thread { context: Context::new_thread_context(entry, arg, top), ustack, space_id: arg }
    }

    /// The same thread as `new_thread`, boxed.
    pub fn new_box_thread(entry: usize, arg: usize, ustack: UserStack) -> (r: Box<Thread>)
        requires
            ustack.0 + STACK_SIZE <= usize::MAX,
        ensures
            r.context.content_addr == ustack.0 + STACK_SIZE - CONTEXT_WORDS * (usize::BITS / 8) as usize,
            entry_registers(r.context.content, entry, arg),
            r.ustack == ustack,
            r.space_id == arg,
    {
        Box::new(Thread::new_thread(entry, arg, ustack))
    }
}

/// The mutable part of a thread.
pub struct ThreadInner {
    pub context: Context,
}

/// Run state of a pool slot.
#[derive(Clone, Copy, Debug, PartialEq, Eq, Structural)]
pub enum Status {
    Ready,
    Running(Tid),
    Sleeping,
    Exited(ExitCode),
}

/// A pool slot: the thread's state, and the thread while it is not running.
#[derive(Clone, Copy, Debug, PartialEq, Eq)]
pub struct ThreadInfo {
    pub status: Status,
    pub thread: Option<Thread>,
}

/// `size` empty slots.
pub fn new_vec_default<T>(size: usize) -> (r: Vec<Option<T>>)
    ensures
        r.len() == size,
        forall|i: int| 0 <= i < size ==> #[trigger] r@[i] is None,
{
    let mut v: Vec<Option<T>> = Vec::new();
    let mut i: usize = 0;
    while i < size
        invariant
            i <= size,
            v.len() == i,
            forall|j: int| 0 <= j < i ==> #[trigger] v@[j] is None,
        decreases size - i,
    {
        v.push(None);
        i = i + 1;
    }
    v
}

/// Index of the first empty slot at or after `i`, or the slot count.
pub open spec fn first_empty_from(t: Seq<Option<ThreadInfo>>, i: int) -> int
    decreases t.len() - i,
{
    if i >= t.len() || i < 0 {
        t.len() as int
    } else if t[i] is None {
        i
    } else {
        first_empty_from(t, i + 1)
    }
}

proof fn lemma_first_empty_from(t: Seq<Option<ThreadInfo>>, i: int)
    requires
        0 <= i <= t.len(),
    ensures
        i <= first_empty_from(t, i) <= t.len(),
        first_empty_from(t, i) < t.len() ==> t[first_empty_from(t, i)] is None,
        forall|j: int| i <= j < first_empty_from(t, i) ==> #[trigger] t[j] is Some,
    decreases t.len() - i,
{
    if i < t.len() && t[i] is Some {
        lemma_first_empty_from(t, i + 1);
    }
}

proof fn lemma_first_empty_unique(t: Seq<Option<ThreadInfo>>, p: int)
    requires
        0 <= p <= t.len(),
        p < t.len() ==> t[p] is None,
        forall|j: int| 0 <= j < p ==> #[trigger] t[j] is Some,
    ensures
        first_empty_from(t, 0) == p,
{
    lemma_first_empty_from(t, 0);
    let f = first_empty_from(t, 0);
    if f < p {
        assert(t[f] is Some);
    } else if p < f {
        assert(t[p] is Some);
    }
}

/// The threads of an address space, each under the id of its slot, with a
/// first-in first-out queue of the ids ready to run.
pub struct ThreadPool {
    threads: Vec<Option<ThreadInfo>>,
    ready: VecDeque<Tid>,
}

impl ThreadPool {
    /// The slots.
    pub closed spec fn slots(&self) -> Seq<Option<ThreadInfo>> {
        self.threads@
    }

    /// The ids waiting to run, next first.
    pub closed spec fn ready_ids(&self) -> Seq<Tid> {
        self.ready@
    }

    /// Well-formedness: every queued id is queued once and names a ready
    /// slot holding its thread, and no running slot is queued.
    pub closed spec fn wf(&self) -> bool {
        &&& self.ready@.no_duplicates()
        &&& forall|i: int| 0 <= i < self.ready@.len() ==> {
            let tid = #[trigger] self.ready@[i];
            &&& tid < self.threads@.len()
            &&& self.threads@[tid as int] matches Some(info)
            &&& info.status == Status::Ready
            &&& info.thread is Some
        }
    }

    /// A pool of `size` empty slots.
    pub fn new(size: usize) -> (r: Self)
        ensures
            r.wf(),
            r.slots().len() == size,
            forall|i: int| 0 <= i < size ==> #[trigger] r.slots()[i] is None,
            r.ready_ids() == Seq::<Tid>::empty(),
    {
        ThreadPool { threads: new_vec_default(size), ready: VecDeque::new() }
    }

    /// Whether the pool has an empty slot.
    pub fn has_free_slot(&self) -> (r: bool)
        ensures
            r == exists|i: int| 0 <= i < self.slots().len() && #[trigger] self.slots()[i] is None,
    {
        let mut i: usize = 0;
        while i < self.threads.len()
            invariant
                i <= self.threads.len(),
                forall|j: int| 0 <= j < i ==> #[trigger] self.threads@[j] is Some,
            decreases self.threads.len() - i,
        {
            if self.threads[i].is_none() {
                proof {
                    assert(self.slots()[i as int] is None);
                }
                return true;
            }
            i = i + 1;
        }
        proof {
            assert forall|k: int| 0 <= k < self.slots().len() implies !(#[trigger] self.slots()[k] is None) by {
                assert(self.threads@[k] is Some);
            }
        }
        false
    }

    /// The lowest empty slot; the pool must have one.
    fn alloc_tid(&self) -> (r: Tid)
        requires
            exists|i: int| 0 <= i < self.slots().len() && #[trigger] self.slots()[i] is None,
        ensures
            r == first_empty_from(self.slots(), 0),
            r < self.slots().len(),
            self.slots()[r as int] is None,
    {
        let mut i: usize = 0;
        while i < self.threads.len()
            invariant
                i <= self.threads.len(),
                forall|j: int| 0 <= j < i ==> #[trigger] self.threads@[j] is Some,
            decreases self.threads.len() - i,
        {
            if self.threads[i].is_none() {
                proof {
                    lemma_first_empty_unique(self.threads@, i as int);
                }
                return i;
            }
            i = i + 1;
        }
        proof {
            let w = choose|w: int| 0 <= w < self.slots().len() && #[trigger] self.slots()[w] is None;
            assert(self.threads@[w] is Some);
        }
        0
    }

    /// Files a runnable thread in the lowest empty slot, which must exist,
    /// and queues its id.
    pub fn add(&mut self, thread: Thread)
        requires
            old(self).wf(),
            exists|i: int| 0 <= i < old(self).slots().len() && #[trigger] old(self).slots()[i] is None,
        ensures
            final(self).wf(),
            final(self).slots().len() == old(self).slots().len(),
            ({
                let tid = first_empty_from(old(self).slots(), 0);
                &&& final(self).slots() == old(self).slots().update(
                    tid,
                    Some(ThreadInfo { status: Status::Ready, thread: Some(thread) }),
                )
                &&& final(self).ready_ids() == old(self).ready_ids().push(tid as Tid)
            }),
    {
        let tid = self.alloc_tid();
        proof {
            assert(!self.ready@.contains(tid)) by {
                if self.ready@.contains(tid) {
                    let k = choose|k: int| 0 <= k < self.ready@.len() && self.ready@[k] == tid;
                    assert(self.ready@[k] == tid);
                }
            }
        }
        self.threads.set(tid, Some(ThreadInfo { status: Status::Ready, thread: Some(thread) }));
        self.ready.push_back(tid);
    }

    /// Takes the next queued thread to run, marking its slot running;
    /// `None` when no thread is queued.
    pub fn acquire(&mut self) -> (r: Option<(Tid, Thread)>)
        requires
            old(self).wf(),
        ensures
            final(self).wf(),
            final(self).slots().len() == old(self).slots().len(),
            r matches Some(p) ==> p.0 < old(self).slots().len(),
            old(self).ready_ids().len() == 0 ==> r is None && final(self).slots() == old(self).slots()
                && final(self).ready_ids() == old(self).ready_ids(),
            old(self).ready_ids().len() > 0 ==> {
                let tid = old(self).ready_ids()[0];
                &&& r == Some((tid, old(self).slots()[tid as int].unwrap().thread.unwrap()))
                &&& final(self).slots() == old(self).slots().update(
                    tid as int,
                    Some(ThreadInfo { status: Status::Running(tid), thread: None }),
                )
                &&& final(self).ready_ids() == old(self).ready_ids().drop_first()
            },
    {
        match self.ready.pop_front() {
            Some(tid) => {
                proof {
                    assert(old(self).ready@[0] == tid);
                }
                let info = self.threads[tid].unwrap();
                let thread = info.thread.unwrap();
                self.threads.set(tid, Some(ThreadInfo { status: Status::Running(tid), thread: None }));
                proof {
                    assert forall|i: int| 0 <= i < self.ready@.len() implies
                        #[trigger] self.ready@[i] != tid by {
                        assert(old(self).ready@[i + 1] == self.ready@[i]);
                    }
                    assert forall|i: int| 0 <= i < self.ready@.len() implies {
                        let t = #[trigger] self.ready@[i];
                        &&& t < self.threads@.len()
                        &&& self.threads@[t as int] matches Some(inf)
                        &&& inf.status == Status::Ready
                        &&& inf.thread is Some
                    } by {
                        assert(old(self).ready@[i + 1] == self.ready@[i]);
                    }
                }
                Some((tid, thread))
            },
            None => None,
        }
    }

    /// Hands a thread back after it ran. A freed slot ignores it; otherwise
    /// the slot holds the thread again, and a running slot becomes ready and
    /// is queued.
    pub fn retrieve(&mut self, tid: Tid, thread: Thread)
        requires
            old(self).wf(),
            tid < old(self).slots().len(),
        ensures
            final(self).wf(),
            final(self).slots().len() == old(self).slots().len(),
            old(self).slots()[tid as int] is None ==> final(self).slots() == old(self).slots()
                && final(self).ready_ids() == old(self).ready_ids(),
            old(self).slots()[tid as int] matches Some(info) ==> {
                &&& info.status is Running ==> final(self).slots() == old(self).slots().update(
                    tid as int,
                    Some(ThreadInfo { status: Status::Ready, thread: Some(thread) }),
                ) && final(self).ready_ids() == old(self).ready_ids().push(tid)
                &&& !(info.status is Running) ==> final(self).slots() == old(self).slots().update(
                    tid as int,
                    Some(ThreadInfo { status: info.status, thread: Some(thread) }),
                ) && final(self).ready_ids() == old(self).ready_ids()
            },
    {
        if self.threads[tid].is_none() {
            return;
        }
        let info = self.threads[tid].unwrap();
        match info.status {
            Status::Running(_) => {
                self.threads.set(tid, Some(ThreadInfo { status: Status::Ready, thread: Some(thread) }));
                self.ready.push_back(tid);
            },
            _ => {
                self.threads.set(tid, Some(ThreadInfo { status: info.status, thread: Some(thread) }));
            },
        }
    }

    /// Frees the slot of an exited thread and drops its id from the queue.
    pub fn exit(&mut self, tid: Tid)
        requires
            old(self).wf(),
            tid < old(self).slots().len(),
        ensures
            final(self).wf(),
            final(self).slots().len() == old(self).slots().len(),
            final(self).slots() == old(self).slots().update(tid as int, None),
            !old(self).ready_ids().contains(tid) ==> final(self).ready_ids() == old(self).ready_ids(),
            old(self).ready_ids().contains(tid) ==> final(self).ready_ids()
                == old(self).ready_ids().remove(old(self).ready_ids().index_of(tid)),
    {
        self.threads.set(tid, None);
        let ghost q = self.ready@;
        let n = self.ready.len();
        let mut i: usize = 0;
        while i < n
            invariant
                n == q.len(),
                q == old(self).ready@,
                self.ready@ == q,
                self.threads@ == old(self).threads@.update(tid as int, None),
                old(self).wf(),
                i <= n,
                forall|j: int| 0 <= j < i ==> #[trigger] q[j] != tid,
            decreases n - i,
        {
            if self.ready[i] == tid {
                self.ready.remove(i);
                proof {
                    assert(q.index_of(tid) == i as int) by {
                        assert(q[i as int] == tid);
                        let k = q.index_of(tid);
                        assert(0 <= k < q.len() && q[k] == tid);
                    }
                    assert forall|a: int, b: int| 0 <= a < b < self.ready@.len() implies
                        self.ready@[a] != self.ready@[b] by {
                        let a2 = if a < i { a } else { a + 1 };
                        let b2 = if b < i { b } else { b + 1 };
                        assert(self.ready@[a] == q[a2]);
                        assert(self.ready@[b] == q[b2]);
                    }
                    assert forall|k: int| 0 <= k < self.ready@.len() implies {
                        let t = #[trigger] self.ready@[k];
                        &&& t < self.threads@.len()
                        &&& self.threads@[t as int] matches Some(inf)
                        &&& inf.status == Status::Ready
                        &&& inf.thread is Some
                    } by {
                        let k2 = if k < i { k } else { k + 1 };
                        assert(self.ready@[k] == q[k2]);
                        assert(q[k2] != tid);
                    }
                }
                return;
            }
            i = i + 1;
        }
        proof {
            assert(!q.contains(tid)) by {
                if q.contains(tid) {
                    let k = choose|k: int| 0 <= k < q.len() && q[k] == tid;
                    assert(q[k] != tid);
                }
            }
            assert forall|k: int| 0 <= k < self.ready@.len() implies {
                let t = #[trigger] self.ready@[k];
                &&& t < self.threads@.len()
                &&& self.threads@[t as int] matches Some(inf)
                &&& inf.status == Status::Ready
                &&& inf.thread is Some
            } by {
                assert(q[k] != tid);
            }
        }
    }
}

/// A first-in first-out queue of threads waiting to start.
pub struct ThreadManager {
    ready_queue: VecDeque<Thread>,
}

impl ThreadManager {
    /// The waiting threads, next first.
    pub closed spec fn view(&self) -> Seq<Thread> {
        self.ready_queue@
    }

    pub fn new() -> (r: Self)
        ensures
            r@ == Seq::<Thread>::empty(),
    {
        ThreadManager { ready_queue: VecDeque::new() }
    }

    pub fn add(&mut self, thread: Thread)
        ensures
            final(self)@ == old(self)@.push(thread),
    {
        self.ready_queue.push_back(thread);
    }

    pub fn fetch(&mut self) -> (r: Option<Thread>)
        ensures
            old(self)@.len() == 0 ==> r is None && final(self)@ == old(self)@,
            old(self)@.len() > 0 ==> r == Some(old(self)@[0]) && final(self)@ == old(self)@.drop_first(),
    {
        self.ready_queue.pop_front()
    }

    pub fn front(&self) -> (r: Option<Thread>)
        ensures
            self@.len() == 0 ==> r is None,
            self@.len() > 0 ==> r == Some(self@[0]),
    {
        if self.ready_queue.len() == 0 {
            None
        } else {
            Some(self.ready_queue[0])
        }
    }

    /// The address space of the next waiting thread; one must be waiting.
    pub fn thread_space_id(&self) -> (r: usize)
        requires
            self@.len() > 0,
        ensures
            r == self@[0].space_id,
    {
        self.ready_queue[0].space_id
    }
}


/// What the idle loop does next.
#[derive(Clone, Copy, Debug, PartialEq, Eq, Structural)]
pub enum IdleStep {
    /// Switch to the thread with this id, now current.
    Switch(Tid),
    /// No thread and no coroutine is left: exit with code 0.
    Exit,
    /// No thread is queued but coroutines are: add one thread running the
    /// coroutine loop with argument 1 (`Processor::add_thread_main`).
    Respawn,
}

/// What a processor holds once initialised: its thread pool, its idle
/// thread, and the thread it currently runs.
pub struct ProcessorInner {
    pub pool: ThreadPool,
    pub idle: Thread,
    pub current: Option<(Tid, Thread)>,
}

impl ProcessorInner {
    /// Well-formedness: a well-formed pool, and the current thread's id
    /// names one of its slots.
    pub open spec fn wf(&self) -> bool {
        &&& self.pool.wf()
        &&& self.current matches Some(c) ==> c.0 < self.pool.slots().len()
    }
}

/// A processor running threads from its pool, switching through its idle
/// thread between them.
pub struct Processor {
    pub inner: Option<ProcessorInner>,
}

impl Processor {
    /// Well-formedness of an initialised processor.
    pub open spec fn wf(&self) -> bool {
        self.inner matches Some(i) && i.wf()
    }

    /// A processor that is not initialised yet.
    pub fn new() -> (r: Processor)
        ensures
            r.inner is None,
    {
        Processor { inner: None }
    }

    /// Initialises the processor with its idle thread and its pool.
    pub fn init(&mut self, idle: Thread, pool: ThreadPool)
        requires
            pool.wf(),
        ensures
            final(self).wf(),
            final(self).inner == Some(ProcessorInner { pool, idle, current: None }),
    {
        self.inner = Some(ProcessorInner { pool, idle, current: None });
    }

    /// Adds a runnable thread to the pool, which must have an empty slot.
    pub fn add_thread(&mut self, thread: Thread)
        requires
            old(self).wf(),
            exists|i: int| 0 <= i < old(self).inner.unwrap().pool.slots().len()
                && #[trigger] old(self).inner.unwrap().pool.slots()[i] is None,
        ensures
            final(self).wf(),
            ({
                let p0 = old(self).inner.unwrap().pool;
                let p1 = final(self).inner.unwrap().pool;
                let tid = first_empty_from(p0.slots(), 0);
                &&& p1.slots() == p0.slots().update(
                    tid,
                    Some(ThreadInfo { status: Status::Ready, thread: Some(thread) }),
                )
                &&& p1.ready_ids() == p0.ready_ids().push(tid as Tid)
                &&& final(self).inner.unwrap().current == old(self).inner.unwrap().current
                &&& final(self).inner.unwrap().idle == old(self).inner.unwrap().idle
            }),
    {
        let mut inner = self.inner.take().unwrap();
        inner.pool.add(thread);
        self.inner = Some(inner);
    }

    /// Whether the pool has an empty slot, so that a thread can be added.
    pub fn has_free_slot(&self) -> (r: bool)
        requires
            self.wf(),
        ensures
            r == exists|i: int| 0 <= i < self.inner.unwrap().pool.slots().len()
                && #[trigger] self.inner.unwrap().pool.slots()[i] is None,
    {
        match &self.inner {
            Some(inner) => inner.pool.has_free_slot(),
            None => false,
        }
    }

    /// What the idle loop does on `IdleStep::Respawn`: adds one thread
    /// running the coroutine loop at `thread_main_entry` with argument 1 (in
    /// address space 1), on stack `ustack`, to the pool, which must have an
    /// empty slot.
    pub fn add_thread_main(&mut self, thread_main_entry: usize, ustack: UserStack)
        requires
            old(self).wf(),
            exists|i: int| 0 <= i < old(self).inner.unwrap().pool.slots().len()
                && #[trigger] old(self).inner.unwrap().pool.slots()[i] is None,
            ustack.0 + STACK_SIZE <= usize::MAX,
        ensures
            final(self).wf(),
            ({
                let p0 = old(self).inner.unwrap().pool;
                let p1 = final(self).inner.unwrap().pool;
                let tid = first_empty_from(p0.slots(), 0);
                let info = p1.slots()[tid].unwrap();
                &&& 0 <= tid < p0.slots().len()
                &&& p1.slots() == p0.slots().update(tid, Some(info))
                &&& info.status == Status::Ready
                &&& info.thread matches Some(t) && {
                    &&& entry_registers(t.context.content, thread_main_entry, 1)
                    &&& t.context.content_addr == ustack.0 + STACK_SIZE - CONTEXT_WORDS * (usize::BITS / 8) as usize
                    &&& t.ustack == ustack
                    &&& t.space_id == 1
                }
                &&& p1.ready_ids() == p0.ready_ids().push(tid as Tid)
                &&& final(self).inner.unwrap().current == old(self).inner.unwrap().current
                &&& final(self).inner.unwrap().idle == old(self).inner.unwrap().idle
            }),
    {
        proof {
            lemma_first_empty_from(old(self).inner.unwrap().pool.slots(), 0);
        }
        let thread = Thread::new_thread(thread_main_entry, 1, ustack);
        self.add_thread(thread);
    }

    /// The scheduling half of one round of the idle loop: takes the next
    /// queued thread, makes it current and returns its id, to which the idle
    /// thread then switches; `None` when no thread is queued.
    pub fn idle_main_acquire(&mut self) -> (r: Option<Tid>)
        requires
            old(self).wf(),
        ensures
            final(self).wf(),
            ({
                let i0 = old(self).inner.unwrap();
                let i1 = final(self).inner.unwrap();
                &&& i0.pool.ready_ids().len() == 0 ==> r is None && i1.pool.slots() == i0.pool.slots()
                    && i1.pool.ready_ids() == i0.pool.ready_ids() && i1.current == i0.current && i1.idle == i0.idle
                &&& i0.pool.ready_ids().len() > 0 ==> {
                    let tid = i0.pool.ready_ids()[0];
                    &&& r == Some(tid)
                    &&& i1.current == Some((tid, i0.pool.slots()[tid as int].unwrap().thread.unwrap()))
                    &&& i1.pool.slots() == i0.pool.slots().update(
                        tid as int,
                        Some(ThreadInfo { status: Status::Running(tid), thread: None }),
                    )
                    &&& i1.pool.ready_ids() == i0.pool.ready_ids().drop_first()
                    &&& i1.idle == i0.idle
                }
            }),
    {
        let mut inner = self.inner.take().unwrap();
        let got = inner.pool.acquire();
        match got {
            Some((tid, thread)) => {
                inner.current = Some((tid, thread));
                self.inner = Some(inner);
                Some(tid)
            },
            None => {
                self.inner = Some(inner);
                None
            },
        }
    }

    /// One round of the idle loop up to the switch: the next queued thread
    /// becomes current and the idle thread switches to it; with no thread
    /// queued, the process exits when `queue` holds no coroutine, and
    /// otherwise a new thread running the coroutine loop is to be added.
    pub fn idle_main_next(&mut self, queue: &UserTaskQueue) -> (r: IdleStep)
        requires
            old(self).wf(),
            queue.wf(),
        ensures
            final(self).wf(),
            ({
                let i0 = old(self).inner.unwrap();
                let i1 = final(self).inner.unwrap();
                &&& i0.pool.ready_ids().len() == 0 ==> i1.pool.slots() == i0.pool.slots()
                    && i1.pool.ready_ids() == i0.pool.ready_ids() && i1.current == i0.current && i1.idle == i0.idle
                    && (r == IdleStep::Exit) == (forall|j: int| 0 <= j < PRIO_NUM ==> #[trigger] queue.levels()[j].len() == 0)
                    && (r == IdleStep::Exit || r == IdleStep::Respawn)
                &&& i0.pool.ready_ids().len() > 0 ==> {
                    let tid = i0.pool.ready_ids()[0];
                    &&& r == IdleStep::Switch(tid)
                    &&& i1.current == Some((tid, i0.pool.slots()[tid as int].unwrap().thread.unwrap()))
                    &&& i1.pool.slots() == i0.pool.slots().update(
                        tid as int,
                        Some(ThreadInfo { status: Status::Running(tid), thread: None }),
                    )
                    &&& i1.pool.ready_ids() == i0.pool.ready_ids().drop_first()
                    &&& i1.idle == i0.idle
                }
            }),
    {
        match self.idle_main_acquire() {
            Some(tid) => IdleStep::Switch(tid),
            None => {
                if queue.is_all_empty() {
                    IdleStep::Exit
                } else {
                    IdleStep::Respawn
                }
            },
        }
    }

    /// The other half, once the current thread switched back to idle: the
    /// thread is handed back to the pool and no thread is current.
    pub fn idle_main_retrieve(&mut self)
        requires
            old(self).wf(),
            old(self).inner.unwrap().current is Some,
        ensures
            final(self).wf(),
            ({
                let i0 = old(self).inner.unwrap();
                let i1 = final(self).inner.unwrap();
                let (tid, thread) = i0.current.unwrap();
                &&& i1.current is None
                &&& i1.idle == i0.idle
                &&& i0.pool.slots()[tid as int] is None ==> i1.pool.slots() == i0.pool.slots()
                    && i1.pool.ready_ids() == i0.pool.ready_ids()
                &&& i0.pool.slots()[tid as int] matches Some(info) ==> {
                    &&& info.status is Running ==> i1.pool.slots() == i0.pool.slots().update(
                        tid as int,
                        Some(ThreadInfo { status: Status::Ready, thread: Some(thread) }),
                    ) && i1.pool.ready_ids() == i0.pool.ready_ids().push(tid)
                    &&& !(info.status is Running) ==> i1.pool.slots() == i0.pool.slots().update(
                        tid as int,
                        Some(ThreadInfo { status: info.status, thread: Some(thread) }),
                    ) && i1.pool.ready_ids() == i0.pool.ready_ids()
                }
            }),
    {
        let mut inner = self.inner.take().unwrap();
        let (tid, thread) = inner.current.take().unwrap();
        inner.pool.retrieve(tid, thread);
        self.inner = Some(inner);
    }

    /// Ends the current thread: its slot is freed and its id dropped from
    /// the queue; the id is returned. It stays current until the idle thread
    /// takes over.
    pub fn exit(&mut self, code: usize) -> (r: Tid)
        requires
            old(self).wf(),
            old(self).inner.unwrap().current is Some,
        ensures
            final(self).wf(),
            ({
                let i0 = old(self).inner.unwrap();
                let i1 = final(self).inner.unwrap();
                &&& r == i0.current.unwrap().0
                &&& i1.current == i0.current
                &&& i1.idle == i0.idle
                &&& i1.pool.slots() == i0.pool.slots().update(r as int, None)
                &&& !i0.pool.ready_ids().contains(r) ==> i1.pool.ready_ids() == i0.pool.ready_ids()
                &&& i0.pool.ready_ids().contains(r) ==> i1.pool.ready_ids()
                    == i0.pool.ready_ids().remove(i0.pool.ready_ids().index_of(r))
            }),
    {
        let mut inner = self.inner.take().unwrap();
        let tid = inner.current.unwrap().0;
        inner.pool.exit(tid);
        self.inner = Some(inner);
        tid
    }
}

} // verus!
