//! The process ready queue: a FIFO of process ids that, when the kernel has
//! marked some processes as holding the most urgent coroutines, serves those
//! first.
use vstd::prelude::*;
use std::collections::{BTreeSet, VecDeque};
use vstd::multiset::Multiset;

verus! {

/// Index of the first element of `q` at or after `i` that belongs to `s`,
/// or `q.len()` when there is none.
pub open spec fn first_in_set_from(q: Seq<usize>, s: Set<usize>, i: int) -> int
    decreases q.len() - i,
{
    if i >= q.len() || i < 0 {
        q.len() as int
    } else if s.contains(q[i]) {
        i
    } else {
        first_in_set_from(q, s, i + 1)
    }
}

/// Index of the first element of `q` that belongs to `s`, or `q.len()`.
pub open spec fn first_in_set(q: Seq<usize>, s: Set<usize>) -> int {
    first_in_set_from(q, s, 0)
}

/// `q` rotated left by `k` places.
pub open spec fn rotate(q: Seq<usize>, k: int) -> Seq<usize> {
    q.skip(k) + q.take(k)
}

/// How far `prioritize` rotates: to the first later position holding `pid`
/// or the original front id, or a whole turn when there is none.
pub open spec fn prioritize_shift_from(q: Seq<usize>, pid: usize, k: int) -> int
    decreases q.len() - k,
{
    if k >= q.len() || k < 1 {
        q.len() as int
    } else if q[k] == pid || q[k] == q[0] {
        k
    } else {
        prioritize_shift_from(q, pid, k + 1)
    }
}

proof fn lemma_first_in_set_from(q: Seq<usize>, s: Set<usize>, i: int)
    requires
        0 <= i <= q.len(),
    ensures
        i <= first_in_set_from(q, s, i) <= q.len(),
        first_in_set_from(q, s, i) < q.len() ==> s.contains(q[first_in_set_from(q, s, i)]),
        forall|j: int| i <= j < first_in_set_from(q, s, i) ==> !s.contains(#[trigger] q[j]),
    decreases q.len() - i,
{
    if i < q.len() && !s.contains(q[i]) {
        lemma_first_in_set_from(q, s, i + 1);
    }
}

proof fn lemma_first_in_set_unique(q: Seq<usize>, s: Set<usize>, p: int)
    requires
        0 <= p <= q.len(),
        p < q.len() ==> s.contains(q[p]),
        forall|j: int| 0 <= j < p ==> !s.contains(#[trigger] q[j]),
    ensures
        first_in_set(q, s) == p,
{
    lemma_first_in_set_from(q, s, 0);
    let f = first_in_set(q, s);
    if f < p {
        assert(!s.contains(q[f]));
    } else if p < f {
        assert(!s.contains(q[p]));
    }
}

proof fn lemma_prioritize_shift_from(q: Seq<usize>, pid: usize, k: int)
    requires
        1 <= k <= q.len(),
    ensures
        k <= prioritize_shift_from(q, pid, k) <= q.len(),
        prioritize_shift_from(q, pid, k) < q.len() ==> (q[prioritize_shift_from(q, pid, k)] == pid
            || q[prioritize_shift_from(q, pid, k)] == q[0]),
        forall|j: int| k <= j < prioritize_shift_from(q, pid, k) ==> #[trigger] q[j] != pid && q[j] != q[0],
    decreases q.len() - k,
{
    if k < q.len() && !(q[k] == pid || q[k] == q[0]) {
        lemma_prioritize_shift_from(q, pid, k + 1);
    }
}

proof fn lemma_prioritize_shift_unique(q: Seq<usize>, pid: usize, p: int)
    requires
        1 <= p <= q.len(),
        p < q.len() ==> (q[p] == pid || q[p] == q[0]),
        forall|j: int| 1 <= j < p ==> #[trigger] q[j] != pid && q[j] != q[0],
    ensures
        prioritize_shift_from(q, pid, 1) == p,
{
    lemma_prioritize_shift_from(q, pid, 1);
    let f = prioritize_shift_from(q, pid, 1);
    if f < p {
        assert(q[f] != pid && q[f] != q[0]);
    } else if p < f {
        assert(q[p] != pid && q[p] != q[0]);
    }
}

/// Index of the first occurrence of `pid` in `q`, or `q.len()`.
pub open spec fn index_of_pid(q: Seq<usize>, pid: usize) -> int {
    first_in_set(q, set![pid])
}

/// A FIFO of ready process ids.
pub struct TaskManager {
    ready_queue: VecDeque<usize>,
}

impl TaskManager {
    /// The ready process ids, front first.
    pub closed spec fn view(&self) -> Seq<usize> {
        self.ready_queue@
    }

    /// An empty ready queue.
    pub fn new() -> (r: Self)
        ensures
            r@ == Seq::<usize>::empty(),
    {
        TaskManager { ready_queue: VecDeque::new() }
    }

    /// Appends a ready process.
    pub fn add(&mut self, pid: usize)
        ensures
            final(self)@ == old(self)@.push(pid),
    {
        self.ready_queue.push_back(pid);
    }

    /// Removes the first occurrence of `pid`, if any.
    pub fn remove(&mut self, pid: usize)
        ensures
            index_of_pid(old(self)@, pid) < old(self)@.len() ==> final(self)@ == old(self)@.remove(index_of_pid(old(self)@, pid)),
            index_of_pid(old(self)@, pid) == old(self)@.len() ==> final(self)@ == old(self)@,
    {
        let ghost q = self@;
        proof {
            lemma_first_in_set_from(q, set![pid], 0);
        }
        let mut idx: usize = 0;
        while idx < self.ready_queue.len()
            invariant
                self@ == q,
                q == old(self)@,
                idx <= q.len(),
                forall|j: int| 0 <= j < idx ==> !set![pid].contains(#[trigger] q[j]),
            decreases q.len() - idx,
        {
            if self.ready_queue[idx] == pid {
                proof {
                    assert(set![pid].contains(q[idx as int]));
                    lemma_first_in_set_unique(q, set![pid], idx as int);
                }
                self.ready_queue.remove(idx);
                return;
            }
            idx = idx + 1;
        }
        proof {
            lemma_first_in_set_unique(q, set![pid], idx as int);
        }
    }

    /// Takes the next process to run: the first one listed in `prio_pids`
    /// (which it leaves), the processes passed over going to the back in
    /// order; the front one when no listed process is ready or the list is
    /// empty; `None` when nothing is ready.
    pub fn fetch(&mut self, prio_pids: &mut BTreeSet<usize>) -> (r: Option<usize>)
        ensures
            ({
                let q = old(self)@;
                let s = old(prio_pids)@;
                let f = first_in_set(q, s);
                &&& q.len() == 0 ==> r is None && final(self)@ == q && final(prio_pids)@ == s
                &&& q.len() > 0 && s.len() == 0 ==> r == Some(q[0]) && final(self)@ == q.drop_first()
                    && final(prio_pids)@ == s
                &&& q.len() > 0 && s.len() > 0 && f < q.len() ==> r == Some(q[f])
                    && final(self)@ == q.skip(f + 1) + q.take(f) && final(prio_pids)@ == s.remove(q[f])
                &&& q.len() > 0 && s.len() > 0 && f == q.len() ==> r == Some(q[0])
                    && final(self)@ == q.drop_first() && final(prio_pids)@ == s
            }),
    {
        let ghost q = self@;
        let ghost s = prio_pids@;
        proof {
            lemma_first_in_set_from(q, s, 0);
        }
        let n = self.ready_queue.len();
        if n == 0 {
            return None;
        }
        if prio_pids.len() == 0 {
            return self.ready_queue.pop_front();
        }
        let mut cnt: usize = 0;
        while cnt < n
            invariant
                n == q.len(),
                q == old(self)@,
                s == old(prio_pids)@,
                n > 0,
                cnt <= n,
                prio_pids@ == s,
                s.len() > 0,
                self@ == rotate(q, cnt as int),
                forall|j: int| 0 <= j < cnt ==> !s.contains(#[trigger] q[j]),
            decreases n - cnt,
        {
            let peek = self.ready_queue.pop_front().unwrap();
            proof {
                assert(peek == q[cnt as int]);
            }
            if prio_pids.contains(&peek) {
                prio_pids.remove(&peek);
                proof {
                    lemma_first_in_set_unique(q, s, cnt as int);
                    assert(self@ =~= q.skip(cnt + 1) + q.take(cnt as int));
                }
                return Some(peek);
            }
            self.ready_queue.push_back(peek);
            cnt = cnt + 1;
            proof {
                assert(self@ =~= rotate(q, cnt as int));
            }
        }
        proof {
            lemma_first_in_set_unique(q, s, n as int);
            assert(self@ =~= q);
        }
        self.ready_queue.pop_front()
    }

    /// Rotates the queue so that the first later occurrence of `pid` comes to
    /// the front, stopping early at another occurrence of the original front
    /// id; a queue of fewer than two processes, or one already led by `pid`,
    /// is left alone.
    pub fn prioritize(&mut self, pid: usize)
        ensures
            ({
                let q = old(self)@;
                &&& (q.len() <= 1 || q[0] == pid) ==> final(self)@ == q
                &&& (q.len() > 1 && q[0] != pid) ==> final(self)@ == rotate(q, prioritize_shift_from(q, pid, 1))
            }),
    {
        let ghost q = self@;
        if self.ready_queue.len() <= 1 {
            return;
        }
        let n = self.ready_queue.len();
        let front_pid = self.ready_queue[0];
        if front_pid == pid {
            return;
        }
        proof {
            lemma_prioritize_shift_from(q, pid, 1);
        }
        let x = self.ready_queue.pop_front().unwrap();
        self.ready_queue.push_back(x);
        let mut k: usize = 1;
        proof {
            assert(self@ =~= rotate(q, 1));
        }
        loop
            invariant
                q.len() > 1,
                q == old(self)@,
                n == q.len(),
                front_pid == q[0],
                front_pid != pid,
                1 <= k < q.len(),
                self@ == rotate(q, k as int),
                forall|j: int| 1 <= j < k ==> #[trigger] q[j] != pid && q[j] != q[0],
            decreases q.len() - k,
        {
            let f_pid = self.ready_queue[0];
            proof {
                assert(f_pid == q[k as int]);
            }
            if !(f_pid != pid && f_pid != front_pid) {
                proof {
                    lemma_prioritize_shift_unique(q, pid, k as int);
                }
                return;
            }
            let y = self.ready_queue.pop_front().unwrap();
            self.ready_queue.push_back(y);
            k = k + 1;
            proof {
                assert(self@ =~= rotate(q, k as int));
            }
            if k == n {
                proof {
                    lemma_prioritize_shift_unique(q, pid, k as int);
                    assert(self@ =~= q);
                    assert(rotate(q, q.len() as int) =~= q);
                }
                return;
            }
        }
    }
}

/// The ready queue together with the set of sleeping processes.
pub struct TaskPool {
    pub scheduler: TaskManager,
    pub sleeping_tasks: BTreeSet<usize>,
}

impl TaskPool {
    /// An empty pool.
    pub fn new() -> (r: Self)
        ensures
            r.scheduler@ == Seq::<usize>::empty(),
            r.sleeping_tasks@ == Set::<usize>::empty(),
    {
        TaskPool { scheduler: TaskManager::new(), sleeping_tasks: BTreeSet::new() }
    }

    /// Makes a process ready.
    pub fn add(&mut self, pid: usize)
        ensures
            final(self).scheduler@ == old(self).scheduler@.push(pid),
            final(self).sleeping_tasks@ == old(self).sleeping_tasks@,
    {
        self.scheduler.add(pid);
    }

    /// Drops a process from the ready queue.
    pub fn remove(&mut self, pid: usize)
        ensures
            index_of_pid(old(self).scheduler@, pid) < old(self).scheduler@.len() ==> final(self).scheduler@
                == old(self).scheduler@.remove(index_of_pid(old(self).scheduler@, pid)),
            index_of_pid(old(self).scheduler@, pid) == old(self).scheduler@.len() ==> final(self).scheduler@
                == old(self).scheduler@,
            final(self).sleeping_tasks@ == old(self).sleeping_tasks@,
    {
        self.scheduler.remove(pid);
    }

    /// Moves a process from the sleeping set to the back of the ready queue.
    pub fn wake(&mut self, pid: usize)
        ensures
            final(self).sleeping_tasks@ == old(self).sleeping_tasks@.remove(pid),
            final(self).scheduler@ == old(self).scheduler@.push(pid),
    {
        self.sleeping_tasks.remove(&pid);
        self.scheduler.add(pid);
    }

    /// Moves a process from the ready queue to the sleeping set.
    pub fn sleep(&mut self, pid: usize)
        ensures
            final(self).sleeping_tasks@ == old(self).sleeping_tasks@.insert(pid),
            index_of_pid(old(self).scheduler@, pid) < old(self).scheduler@.len() ==> final(self).scheduler@
                == old(self).scheduler@.remove(index_of_pid(old(self).scheduler@, pid)),
            index_of_pid(old(self).scheduler@, pid) == old(self).scheduler@.len() ==> final(self).scheduler@
                == old(self).scheduler@,
    {
        self.scheduler.remove(pid);
        self.sleeping_tasks.insert(pid);
    }

    /// Takes the next process to run, as `TaskManager::fetch` does.
    pub fn fetch(&mut self, prio_pids: &mut BTreeSet<usize>) -> (r: Option<usize>)
        ensures
            ({
                let q = old(self).scheduler@;
                let s = old(prio_pids)@;
                let f = first_in_set(q, s);
                &&& q.len() == 0 ==> r is None && final(self).scheduler@ == q && final(prio_pids)@ == s
                &&& q.len() > 0 && s.len() == 0 ==> r == Some(q[0]) && final(self).scheduler@ == q.drop_first()
                    && final(prio_pids)@ == s
                &&& q.len() > 0 && s.len() > 0 && f < q.len() ==> r == Some(q[f])
                    && final(self).scheduler@ == q.skip(f + 1) + q.take(f) && final(prio_pids)@ == s.remove(q[f])
                &&& q.len() > 0 && s.len() > 0 && f == q.len() ==> r == Some(q[0])
                    && final(self).scheduler@ == q.drop_first() && final(prio_pids)@ == s
            }),
            final(self).sleeping_tasks@ == old(self).sleeping_tasks@,
    {
        self.scheduler.fetch(prio_pids)
    }

    /// Rotates the ready queue as `TaskManager::prioritize` does.
    pub fn prioritize(&mut self, pid: usize)
        ensures
            ({
                let q = old(self).scheduler@;
                &&& (q.len() <= 1 || q[0] == pid) ==> final(self).scheduler@ == q
                &&& (q.len() > 1 && q[0] != pid) ==> final(self).scheduler@ == rotate(q, prioritize_shift_from(q, pid, 1))
            }),
            final(self).sleeping_tasks@ == old(self).sleeping_tasks@,
    {
        self.scheduler.prioritize(pid);
    }
}


/// Serving a prioritised process never loses or invents a process: the
/// process taken plus the queue left behind are exactly the queue before.
pub proof fn lemma_fetch_keeps_processes(q: Seq<usize>, f: int)
    requires
        0 <= f < q.len(),
    ensures
        (q.skip(f + 1) + q.take(f)).to_multiset().insert(q[f]) == q.to_multiset(),
{
    broadcast use vstd::multiset::group_multiset_axioms;
    vstd::seq_lib::lemma_seq_union_to_multiset_commutative(q.skip(f + 1), q.take(f));
    assert(q =~= (q.take(f) + seq![q[f]]) + q.skip(f + 1));
    vstd::seq_lib::lemma_multiset_commutative(q.take(f) + seq![q[f]], q.skip(f + 1));
    vstd::seq_lib::lemma_multiset_commutative(q.take(f), seq![q[f]]);
    vstd::seq_lib::lemma_multiset_commutative(q.take(f), q.skip(f + 1));
    assert(seq![q[f]].to_multiset() =~= Multiset::empty().insert(q[f])) by {
        assert(seq![q[f]] =~= Seq::<usize>::empty().push(q[f]));
        vstd::seq_lib::to_multiset_build(Seq::<usize>::empty(), q[f]);
        assert(Seq::<usize>::empty().to_multiset() =~= Multiset::empty()) by {
            Seq::<usize>::empty().to_multiset_ensures();
        }
    }
    assert((q.skip(f + 1) + q.take(f)).to_multiset().insert(q[f]) =~= q.to_multiset());
}

/// Rotating the ready queue, as `prioritize` does, keeps every process.
pub proof fn lemma_rotate_keeps_processes(q: Seq<usize>, k: int)
    requires
        0 <= k <= q.len(),
    ensures
        rotate(q, k).to_multiset() == q.to_multiset(),
{
    vstd::seq_lib::lemma_seq_union_to_multiset_commutative(q.skip(k), q.take(k));
    assert(q.take(k) + q.skip(k) =~= q);
}

} // verus!
