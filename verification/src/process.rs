//! The per-process state the system calls read and change: the scheduling
//! status and the file descriptor table.
use vstd::prelude::*;
use crate::memory_set::{
    MemorySet, ProgramHeader, SegmentPlan, SpaceConfig, user_layout_ok, user_space_areas, user_space_pages,
    shared_plan, user_plan, user_stack_bottom, trampoline_page,
};

verus! {

/// An open file as the descriptor table sees it: which file it is (the
/// kernel keeps the file object under this id) and which directions it allows.
#[derive(Clone, Copy, Debug, PartialEq, Eq, Structural)]
pub struct FileHandle {
    pub id: u64,
    pub readable: bool,
    pub writable: bool,
}

/// Scheduling status of a process.
#[derive(Clone, Copy, Debug, PartialEq, Eq, Structural)]
pub enum TaskStatus {
    Ready,
    Running(usize),
    Zombie,
}

/// Index of the first free descriptor at or after `i`, or the table length.
pub open spec fn first_free_from(t: Seq<Option<FileHandle>>, i: int) -> int
    decreases t.len() - i,
{
    if i >= t.len() || i < 0 {
        t.len() as int
    } else if t[i] is None {
        i
    } else {
        first_free_from(t, i + 1)
    }
}

/// Index of the first free descriptor, or the table length when all are used.
pub open spec fn first_free(t: Seq<Option<FileHandle>>) -> int {
    first_free_from(t, 0)
}

/// The table after allocating a descriptor: unchanged when a free slot
/// exists, grown by one free slot otherwise.
pub open spec fn table_after_alloc(t: Seq<Option<FileHandle>>) -> Seq<Option<FileHandle>> {
    if first_free(t) < t.len() { t } else { t.push(None) }
}

proof fn lemma_first_free_from(t: Seq<Option<FileHandle>>, i: int)
    requires
        0 <= i <= t.len(),
    ensures
        i <= first_free_from(t, i) <= t.len(),
        first_free_from(t, i) < t.len() ==> t[first_free_from(t, i)] is None,
        forall|j: int| i <= j < first_free_from(t, i) ==> #[trigger] t[j] is Some,
    decreases t.len() - i,
{
    if i < t.len() && t[i] is Some {
        lemma_first_free_from(t, i + 1);
    }
}

proof fn lemma_first_free_unique(t: Seq<Option<FileHandle>>, p: int)
    requires
        0 <= p <= t.len(),
        p < t.len() ==> t[p] is None,
        forall|j: int| 0 <= j < p ==> #[trigger] t[j] is Some,
    ensures
        first_free(t) == p,
{
    lemma_first_free_from(t, 0);
    let f = first_free(t);
    if f < p {
        assert(t[f] is Some);
    } else if p < f {
        assert(t[p] is Some);
    }
}

/// The fields of `a` other than its descriptor table are those of `b`.
pub open spec fn same_but_fds(a: &TaskControlBlockInner, b: &TaskControlBlockInner) -> bool {
    &&& a.base_size == b.base_size
    &&& a.task_status == b.task_status
    &&& a.memory_set@ == b.memory_set@
    &&& a.memory_set.pages() == b.memory_set.pages()
    &&& a.parent == b.parent
    &&& a.children@ == b.children@
    &&& a.exit_code == b.exit_code
}

/// The mutable part of a process control block: the top of its user
/// stack, its status, its address space, its parent and children (by
/// process number), its exit code and its descriptor table.
pub struct TaskControlBlockInner {
    pub base_size: usize,
    pub task_status: TaskStatus,
    pub memory_set: MemorySet,
    pub parent: Option<usize>,
    pub children: Vec<usize>,
    pub exit_code: i32,
    pub fd_table: Vec<Option<FileHandle>>,
}

impl TaskControlBlockInner {
    /// A ready process in `memory_set`, with no parent or child, standard
    /// input on descriptor 0 and standard output on 1 and 2.
    pub fn new(base_size: usize, memory_set: MemorySet, stdin: FileHandle, stdout: FileHandle) -> (r: Self)
        ensures
            r.base_size == base_size,
            r.task_status == TaskStatus::Ready,
            r.memory_set@ == memory_set@,
            r.memory_set.pages() == memory_set.pages(),
            r.parent is None,
            r.children@ == Seq::<usize>::empty(),
            r.exit_code == 0,
            r.fd_table@ == seq![Some(stdin), Some(stdout), Some(stdout)],
    {
        let fd_table = vec![Some(stdin), Some(stdout), Some(stdout)];
        TaskControlBlockInner {
            base_size,
            task_status: TaskStatus::Ready,
            memory_set,
            parent: None,
            children: Vec::new(),
            exit_code: 0,
            fd_table,
        }
    }

    fn get_status(&self) -> (r: TaskStatus)
        ensures
            r == self.task_status,
    {
        self.task_status
    }

    /// Whether the process has exited and waits to be reaped.
    pub fn is_zombie(&self) -> (r: bool)
        ensures
            r == (self.task_status == TaskStatus::Zombie),
    {
        self.get_status() == TaskStatus::Zombie
    }

    /// The lowest free descriptor, the table growing by one slot when all
    /// are in use.
    pub fn alloc_fd(&mut self) -> (fd: usize)
        requires
            old(self).fd_table.len() < usize::MAX,
        ensures
            fd == first_free(old(self).fd_table@),
            final(self).fd_table@ == table_after_alloc(old(self).fd_table@),
            fd < final(self).fd_table.len(),
            final(self).fd_table@[fd as int] is None,
            same_but_fds(final(self), old(self)),
    {
        let ghost t = self.fd_table@;
        let mut fd: usize = 0;
        while fd < self.fd_table.len()
            invariant
                self.fd_table@ == t,
                t == old(self).fd_table@,
                same_but_fds(self, old(self)),
                fd <= t.len(),
                forall|j: int| 0 <= j < fd ==> #[trigger] t[j] is Some,
            decreases t.len() - fd,
        {
            if self.fd_table[fd].is_none() {
                proof {
                    lemma_first_free_unique(t, fd as int);
                }
                return fd;
            }
            fd = fd + 1;
        }
        proof {
            lemma_first_free_unique(t, fd as int);
        }
        self.fd_table.push(None);
        self.fd_table.len() - 1
    }
}


/// Descriptors are reused lowest first: after descriptor `fd` is freed, the
/// next allocation returns `fd` or a lower free descriptor, never a higher one.
pub proof fn lemma_freed_fd_reused(t: Seq<Option<FileHandle>>, fd: int)
    requires
        0 <= fd < t.len(),
    ensures
        first_free(t.update(fd, None)) <= fd,
        first_free(t.update(fd, None)) < t.len(),
{
    let u = t.update(fd, None);
    lemma_first_free_from(u, 0);
    if first_free(u) > fd {
        assert(u[fd] is Some);
    }
}


/// Bytes in a machine word.
pub open spec fn word() -> int {
    vstd::layout::size_of::<usize>() as int
}

/// Bytes that the first `i` arguments take on the stack, each with its
/// terminating NUL.
pub open spec fn strings_size(args: Seq<Vec<u8>>, i: int) -> int
    decreases i,
{
    if i <= 0 {
        0
    } else {
        strings_size(args, i - 1) + args[i - 1]@.len() + 1
    }
}

/// Where `exec` puts a program's arguments on its new stack: the stack
/// pointer left below them, the array of argument addresses (one word per
/// argument and a final zero word), the address of each argument's bytes,
/// which are followed by a NUL, and the writes that put them there: the
/// words `(address, value)` of the array and the bytes `(address, value)`
/// of the arguments.
pub struct ArgvLayout {
    pub user_sp: usize,
    pub argv_base: usize,
    pub argv: Vec<usize>,
    pub words: Vec<(usize, usize)>,
    pub bytes: Vec<(usize, u8)>,
}

/// The word writes of the argument array at `base`: entry `i` holds the
/// address of argument `i`, and the last entry holds 0.
pub open spec fn argv_words(base: int, argv: Seq<usize>) -> Seq<(usize, usize)> {
    Seq::new(
        (argv.len() + 1) as nat,
        |i: int| ((base + i * word()) as usize, if i < argv.len() { argv[i] } else { 0usize }),
    )
}

/// The byte writes of one argument at `addr`: its bytes, then a NUL.
pub open spec fn string_writes(addr: int, bytes: Seq<u8>) -> Seq<(usize, u8)> {
    Seq::new(
        (bytes.len() + 1) as nat,
        |j: int| ((addr + j) as usize, if j < bytes.len() { bytes[j] } else { 0u8 }),
    )
}

/// The byte writes of the first `k` arguments, each at its address in
/// `argv`, in order.
pub open spec fn args_writes(args: Seq<Vec<u8>>, argv: Seq<usize>, k: int) -> Seq<(usize, u8)>
    decreases k,
{
    if k <= 0 {
        Seq::empty()
    } else {
        args_writes(args, argv, k - 1) + string_writes(argv[k - 1] as int, args[k - 1]@)
    }
}

/// The word writes of the argument array at `base`.
fn argv_word_writes(base: usize, argv: &Vec<usize>, w: usize) -> (r: Vec<(usize, usize)>)
    requires
        w as int == word(),
        base + (argv.len() + 1) * word() <= usize::MAX,
    ensures
        r@ == argv_words(base as int, argv@),
{
    let mut out: Vec<(usize, usize)> = Vec::new();
    let mut addr: usize = base;
    let mut i: usize = 0;
    while i <= argv.len()
        invariant
            i <= argv.len() + 1,
            w as int == word(),
            base + (argv.len() + 1) * word() <= usize::MAX,
            addr == base + i * word(),
            out@ == argv_words(base as int, argv@).take(i as int),
        decreases argv.len() + 1 - i,
    {
        let value: usize = if i < argv.len() { argv[i] } else { 0 };
        out.push((addr, value));
        proof {
            assert(base + (i + 1) * word() == base + i * word() + word()) by (nonlinear_arith);
            assert((i + 1) * word() <= (argv.len() + 1) * word()) by (nonlinear_arith)
                requires i + 1 <= argv.len() + 1, word() >= 0;
            assert(out@ =~= argv_words(base as int, argv@).take(i + 1));
        }
        addr = addr + w;
        i = i + 1;
    }
    proof {
        assert(argv_words(base as int, argv@).take(i as int) =~= argv_words(base as int, argv@));
    }
    out
}

/// The byte writes of every argument, each at its address in `argv`.
fn arg_byte_writes(argv: &Vec<usize>, args: &Vec<Vec<u8>>) -> (r: Vec<(usize, u8)>)
    requires
        argv.len() == args.len(),
        forall|i: int| 0 <= i < args.len() ==> #[trigger] argv@[i] + args@[i]@.len() < usize::MAX,
    ensures
        r@ == args_writes(args@, argv@, args.len() as int),
{
    let mut out: Vec<(usize, u8)> = Vec::new();
    let mut i: usize = 0;
    while i < args.len()
        invariant
            i <= args.len(),
            argv.len() == args.len(),
            forall|k: int| 0 <= k < args.len() ==> #[trigger] argv@[k] + args@[k]@.len() < usize::MAX,
            out@ == args_writes(args@, argv@, i as int),
        decreases args.len() - i,
    {
        let addr = argv[i];
        let arg = &args[i];
        proof {
            assert(argv@[i as int] + args@[i as int]@.len() < usize::MAX);
        }
        let ghost head = out@;
        let mut j: usize = 0;
        while j < arg.len()
            invariant
                j <= arg.len(),
                addr + arg.len() < usize::MAX,
                out@ == head + string_writes(addr as int, arg@).take(j as int),
            decreases arg.len() - j,
        {
            out.push((addr + j, arg[j]));
            j = j + 1;
            proof {
                assert(out@ =~= head + string_writes(addr as int, arg@).take(j as int));
            }
        }
        out.push((addr + j, 0u8));
        proof {
            assert(string_writes(addr as int, arg@).take(j as int + 1) =~= string_writes(addr as int, arg@));
            assert(out@ =~= head + string_writes(addr as int, arg@));
            assert(args@[i as int] == *arg);
        }
        i = i + 1;
    }
    out
}

/// A process: its number and the state behind its lock.
pub struct TaskControlBlock {
    pub pid: usize,
    pub inner: TaskControlBlockInner,
}

impl TaskControlBlock {
    /// The inner state (the process's lock is the caller's).
    pub fn acquire_inner_lock(&mut self) -> (r: &mut TaskControlBlockInner)
        ensures
            *r == old(self).inner,
            *final(self) == (TaskControlBlock { pid: old(self).pid, inner: *final(r) }),
    {
        &mut self.inner
    }

    /// The process number.
    pub fn getpid(&self) -> (r: usize)
        ensures
            r == self.pid,
    {
        self.pid
    }

    /// A new ready process `pid` running the program with program headers
    /// `user`, beside the shared runtime with headers `shared`: its address
    /// space is laid out by `MemorySet::from_elf`, its stack top is kept as
    /// its base size, and descriptors 0, 1 and 2 are standard input,
    /// output and error. Returns the process and the runtime's and the
    /// program's segments, whose bytes the memory manager copies in.
    pub fn new(
        pid: usize,
        shared: &Vec<ProgramHeader>,
        user: &Vec<ProgramHeader>,
        cfg: &SpaceConfig,
        stdin: FileHandle,
        stdout: FileHandle,
    ) -> (r: (TaskControlBlock, Vec<SegmentPlan>, Vec<SegmentPlan>))
        requires
            user_layout_ok(shared@, user@, *cfg, pid as int),
        ensures
            r.0.pid == pid,
            r.0.inner.base_size == user_stack_bottom(user@) + cfg.user_stack_size,
            r.0.inner.task_status == TaskStatus::Ready,
            r.0.inner.memory_set@ == user_space_areas(shared@, user@, *cfg),
            r.0.inner.memory_set.pages() == user_space_pages(*cfg, pid as int),
            r.0.inner.parent is None,
            r.0.inner.children@ == Seq::<usize>::empty(),
            r.0.inner.exit_code == 0,
            r.0.inner.fd_table@ == seq![Some(stdin), Some(stdout), Some(stdout)],
            r.1@ == shared_plan(shared@),
            r.2@ == user_plan(user@),
    {
        let (memory_set, shared_plans, user_plans, user_sp) = MemorySet::from_elf(shared, user, cfg, pid);
        let inner = TaskControlBlockInner::new(user_sp, memory_set, stdin, stdout);
        (TaskControlBlock { pid, inner }, shared_plans, user_plans)
    }

    /// A ready child `child_pid` (a fresh process number, not this
    /// process's own) of this process: a copy of its areas (the
    /// memory manager copies their contents) with the trampoline page, the
    /// same base size and descriptor table, no child of its own; it is
    /// recorded among this process's children.
    pub fn fork(&mut self, child_pid: usize, cfg: &SpaceConfig) -> (child: TaskControlBlock)
        requires
            child_pid != old(self).pid,
        ensures
            child.pid == child_pid,
            child.pid != final(self).pid,
            child.inner.base_size == old(self).inner.base_size,
            child.inner.task_status == TaskStatus::Ready,
            child.inner.memory_set@ == old(self).inner.memory_set@,
            child.inner.memory_set.pages() == seq![trampoline_page(*cfg)],
            child.inner.parent == Some(old(self).pid),
            child.inner.children@ == Seq::<usize>::empty(),
            child.inner.exit_code == 0,
            child.inner.fd_table@ == old(self).inner.fd_table@,
            final(self).pid == old(self).pid,
            final(self).inner.children@ == old(self).inner.children@.push(child_pid),
            final(self).inner.fd_table@ == old(self).inner.fd_table@,
            final(self).inner.memory_set@ == old(self).inner.memory_set@,
            final(self).inner.base_size == old(self).inner.base_size,
            final(self).inner.task_status == old(self).inner.task_status,
            final(self).inner.parent == old(self).inner.parent,
            final(self).inner.exit_code == old(self).inner.exit_code,
    {
        let memory_set = MemorySet::from_existed_user(&self.inner.memory_set, cfg);
        let mut new_fd_table: Vec<Option<FileHandle>> = Vec::new();
        let mut i: usize = 0;
        while i < self.inner.fd_table.len()
            invariant
                i <= self.inner.fd_table.len(),
                new_fd_table@ == self.inner.fd_table@.take(i as int),
            decreases self.inner.fd_table.len() - i,
        {
            match self.inner.fd_table[i] {
                Some(file) => new_fd_table.push(Some(file)),
                None => new_fd_table.push(None),
            }
            i = i + 1;
            proof {
                assert(new_fd_table@ =~= self.inner.fd_table@.take(i as int));
            }
        }
        proof {
            assert(self.inner.fd_table@.take(i as int) =~= self.inner.fd_table@);
        }
        let child = TaskControlBlock {
            pid: child_pid,
            inner: TaskControlBlockInner {
                base_size: self.inner.base_size,
                task_status: TaskStatus::Ready,
                memory_set,
                parent: Some(self.pid),
                children: Vec::new(),
                exit_code: 0,
                fd_table: new_fd_table,
            },
        };
        self.inner.children.push(child_pid);
        child
    }

    /// Replaces this process's program: the address space is laid out anew
    /// for process 1 by `MemorySet::from_elf`, and the arguments are placed
    /// below the new stack's top: first the array of their addresses ending
    /// in a zero word, then each argument's bytes and a NUL, each below the
    /// one before. Returns where everything goes (the memory manager writes
    /// the words and bytes) and the segments to copy in.
    pub fn exec(
        &mut self,
        shared: &Vec<ProgramHeader>,
        user: &Vec<ProgramHeader>,
        cfg: &SpaceConfig,
        args: &Vec<Vec<u8>>,
    ) -> (r: (ArgvLayout, Vec<SegmentPlan>, Vec<SegmentPlan>))
        requires
            user_layout_ok(shared@, user@, *cfg, 1),
            (args.len() + 1) * word() + strings_size(args@, args.len() as int)
                <= user_stack_bottom(user@) + cfg.user_stack_size,
        ensures
            ({
                let top = user_stack_bottom(user@) + cfg.user_stack_size;
                let base = top - (args.len() + 1) * word();
                &&& r.0.argv_base == base
                &&& r.0.argv@.len() == args.len()
                &&& forall|i: int| 0 <= i < args.len() ==> #[trigger] r.0.argv@[i] == base - strings_size(args@, i + 1)
                &&& r.0.user_sp == base - strings_size(args@, args.len() as int)
                &&& r.0.words@ == argv_words(base, r.0.argv@)
                &&& r.0.bytes@ == args_writes(args@, r.0.argv@, args.len() as int)
            }),
            r.1@ == shared_plan(shared@),
            r.2@ == user_plan(user@),
            final(self).pid == old(self).pid,
            final(self).inner.memory_set@ == user_space_areas(shared@, user@, *cfg),
            final(self).inner.memory_set.pages() == user_space_pages(*cfg, 1),
            final(self).inner.fd_table@ == old(self).inner.fd_table@,
            final(self).inner.base_size == old(self).inner.base_size,
            final(self).inner.task_status == old(self).inner.task_status,
            final(self).inner.parent == old(self).inner.parent,
            final(self).inner.children@ == old(self).inner.children@,
            final(self).inner.exit_code == old(self).inner.exit_code,
    {
        let (memory_set, shared_plans, user_plans, top) = MemorySet::from_elf(shared, user, cfg, 1);
        let w = core::mem::size_of::<usize>();
        proof {
            broadcast use vstd::layout::layout_of_primitives;
            assert(w as int == word());
            assert(word() >= 1);
            lemma_strings_size_mono(args@, 0, args.len() as int);
            let n1 = args.len() + 1;
            assert(n1 <= n1 * word()) by (nonlinear_arith)
                requires word() >= 1, n1 >= 0;
        }
        let argv_base = top - (args.len() + 1) * w;
        let mut user_sp = argv_base;
        let mut argv: Vec<usize> = Vec::new();
        let mut i: usize = 0;
        while i < args.len()
            invariant
                i <= args.len(),
                (args.len() + 1) * word() + strings_size(args@, args.len() as int) <= top,
                argv_base == top - (args.len() + 1) * word(),
                user_sp == argv_base - strings_size(args@, i as int),
                argv@.len() == i,
                forall|k: int| 0 <= k < i ==> #[trigger] argv@[k] == argv_base - strings_size(args@, k + 1),
            decreases args.len() - i,
        {
            proof {
                lemma_strings_size_mono(args@, i as int + 1, args.len() as int);
            }
            user_sp = user_sp - (args[i].len() + 1);
            argv.push(user_sp);
            i = i + 1;
        }
        proof {
            assert forall|k: int| 0 <= k < args.len() implies #[trigger] argv@[k] + args@[k]@.len() < usize::MAX by {
                lemma_strings_size_mono(args@, 0, k);
                assert(strings_size(args@, k + 1) == strings_size(args@, k) + args@[k]@.len() + 1);
            }
        }
        let words = argv_word_writes(argv_base, &argv, w);
        let bytes = arg_byte_writes(&argv, args);
        self.inner.memory_set = memory_set;
        (ArgvLayout { user_sp, argv_base, argv, words, bytes }, shared_plans, user_plans)
    }
}

proof fn lemma_strings_size_mono(args: Seq<Vec<u8>>, i: int, j: int)
    requires
        0 <= i <= j,
    ensures
        strings_size(args, i) <= strings_size(args, j),
    decreases j - i,
{
    if i < j {
        lemma_strings_size_mono(args, i, j - 1);
    }
}

} // verus!
