//! Completion callbacks: the kernel appends the ids of coroutines whose
//! asynchronous system call finished, and the address space drains them.
use vstd::prelude::*;
use crate::executor::Excutor;
use crate::prio_queue::TaskId;

verus! {

/// User address of the callback queue header.
pub const CBQ_VA: usize = 0x8741_3000;
/// User address of the callback queue's entries.
pub const V_PTR: usize = 0x8741_4000;
/// Number of entries the callback queue holds.
pub const CAP: usize = 500;
/// Number of coroutine ids the completion table covers.
pub const CBTID_LEN: usize = 2000;

/// A queue of completed coroutine ids with a read index and a write index.
pub struct CBQueue {
    v_ptr: usize,
    head: usize,
    tail: usize,
    cap: usize,
    entries: Vec<usize>,
}

impl CBQueue {
    /// The ids written but not yet drained, oldest first.
    pub closed spec fn view(&self) -> Seq<usize> {
        self.entries@.subrange(self.head as int, self.tail as int)
    }

    /// Number of entries written since the queue was cleared.
    pub closed spec fn written(&self) -> nat {
        self.tail as nat
    }

    /// Entry capacity.
    pub closed spec fn capacity(&self) -> nat {
        self.cap as nat
    }

    /// The user address of the entry storage, which the user runtime reads.
    pub closed spec fn entries_addr(&self) -> usize {
        self.v_ptr
    }

    /// Well-formedness: the read index never passes the write index, which
    /// stays within the entry storage.
    pub closed spec fn wf(&self) -> bool {
        &&& self.head <= self.tail <= self.cap
        &&& self.entries.len() == self.cap
    }

    /// A cleared queue of `CAP` entries at the fixed user address.
    pub fn init() -> (r: Self)
        ensures
            r.wf(),
            r@ == Seq::<usize>::empty(),
            r.written() == 0,
            r.capacity() == CAP,
            r.entries_addr() == V_PTR,
    {
        CBQueue { v_ptr: V_PTR, head: 0, tail: 0, cap: CAP, entries: vec![0usize; CAP] }
    }

    /// Whether no id is waiting to be drained.
    pub fn is_empty(&self) -> (r: bool)
        requires
            self.wf(),
        ensures
            r == (self@.len() == 0),
    {
        self.tail - self.head == 0
    }

    /// Whether every entry has been written since the queue was cleared, so
    /// that no id can be added.
    pub fn is_full(&self) -> (r: bool)
        requires
            self.wf(),
        ensures
            r == (self.written() >= self.capacity()),
    {
        self.tail >= self.cap
    }

    /// Appends a completed coroutine id; there must be room for it.
    pub fn _add(&mut self, tid: usize)
        requires
            old(self).wf(),
            old(self).written() < old(self).capacity(),
        ensures
            final(self).wf(),
            final(self)@ == old(self)@.push(tid),
            final(self).written() == old(self).written() + 1,
            final(self).capacity() == old(self).capacity(),
            final(self).entries_addr() == old(self).entries_addr(),
    {
        self.entries.set(self.tail, tid);
        self.tail = self.tail + 1;
        proof {
            assert(self@ =~= old(self)@.push(tid));
        }
    }

    /// Drains every waiting id, oldest first.
    pub fn pop(&mut self) -> (r: Vec<usize>)
        requires
            old(self).wf(),
        ensures
            final(self).wf(),
            r@ == old(self)@,
            final(self)@ == Seq::<usize>::empty(),
            final(self).written() == old(self).written(),
            final(self).capacity() == old(self).capacity(),
            final(self).entries_addr() == old(self).entries_addr(),
    {
        let mut ret: Vec<usize> = Vec::new();
        let tail = self.tail;
        let mut i = self.head;
        while i < tail
            invariant
                self == old(self),
                self.wf(),
                tail == self.tail,
                self.head <= i <= tail,
                ret@ == self.entries@.subrange(self.head as int, i as int),
            decreases tail - i,
        {
            ret.push(self.entries[i]);
            i = i + 1;
            proof {
                assert(ret@ =~= self.entries@.subrange(self.head as int, i as int));
            }
        }
        self.head = tail;
        proof {
            assert(self@ =~= Seq::<usize>::empty());
        }
        ret
    }
}

/// Reports user coroutine `tid` done to address space `space_id`: its id is
/// appended to that space's completion queue, which must have room; every
/// other space's queue is left alone.
pub fn complete_on(queues: &mut Vec<CBQueue>, space_id: usize, tid: usize)
    requires
        space_id < old(queues).len(),
        old(queues)[space_id as int].wf(),
        old(queues)[space_id as int].written() < old(queues)[space_id as int].capacity(),
    ensures
        final(queues).len() == old(queues).len(),
        final(queues)[space_id as int].wf(),
        final(queues)[space_id as int]@ == old(queues)[space_id as int]@.push(tid),
        final(queues)[space_id as int].written() == old(queues)[space_id as int].written() + 1,
        final(queues)[space_id as int].capacity() == old(queues)[space_id as int].capacity(),
        final(queues)[space_id as int].entries_addr() == old(queues)[space_id as int].entries_addr(),
        forall|i: int| 0 <= i < old(queues).len() && i != space_id ==> final(queues)[i] == old(queues)[i],
{
    let mut q = queues.remove(space_id);
    q._add(tid);
    queues.insert(space_id, q);
    proof {
        assert forall|i: int| 0 <= i < old(queues).len() && i != space_id implies final(queues)[i] == old(queues)[i] by {
            if i < space_id {
                assert(final(queues)[i] == old(queues)[i]);
            } else {
                assert(final(queues)[i] == old(queues)[i]);
            }
        }
    }
}

/// One completion flag per coroutine id.
pub struct CBTid {
    tids: Vec<bool>,
}

impl CBTid {
    /// The completion flags, indexed by coroutine id.
    pub closed spec fn view(&self) -> Seq<bool> {
        self.tids@
    }

    /// The table always covers exactly `CBTID_LEN` ids.
    #[verifier::type_invariant]
    spec fn covers_all_ids(&self) -> bool {
        self.tids.len() == CBTID_LEN
    }

    /// The number of ids the table covers: always `CBTID_LEN`.
    pub fn len(&self) -> (r: usize)
        ensures
            r == self@.len(),
            r == CBTID_LEN,
    {
        proof {
            use_type_invariant(self);
        }
        self.tids.len()
    }

    /// A table covering `CBTID_LEN` ids, none completed.
    pub fn new() -> (r: Self)
        ensures
            r@ == Seq::new(CBTID_LEN as nat, |i: int| false),
    {
        let r = CBTid { tids: vec![false; CBTID_LEN] };
        proof {
            assert(r@ =~= Seq::new(CBTID_LEN as nat, |i: int| false));
        }
        r
    }

    /// Marks coroutine `t` completed.
    pub fn add(&mut self, t: usize)
        requires
            t < CBTID_LEN,
        ensures
            old(self)@.len() == CBTID_LEN,
            final(self)@ == old(self)@.update(t as int, true),
    {
        proof {
            use_type_invariant(&*self);
        }
        self.tids[t] = true;
    }

    /// Whether coroutine `t` completed; the flag is consumed.
    pub fn contains_tid(&mut self, t: usize) -> (r: bool)
        requires
            t < CBTID_LEN,
        ensures
            old(self)@.len() == CBTID_LEN,
            r == old(self)@[t as int],
            final(self)@ == old(self)@.update(t as int, false),
    {
        proof {
            use_type_invariant(&*self);
        }
        if self.tids[t] {
            self.tids[t] = false;
            return true;
        }
        proof {
            assert(self@ =~= old(self)@.update(t as int, false));
        }
        false
    }
}

/// Whether coroutine `t`'s asynchronous call completed, consuming the flag.
pub fn check_callback(cbtid: &mut CBTid, t: usize) -> (r: bool)
    requires
        t < CBTID_LEN,
    ensures
        old(cbtid)@.len() == CBTID_LEN,
        r == old(cbtid)@[t as int],
        final(cbtid)@ == old(cbtid)@.update(t as int, false),
{
    cbtid.contains_tid(t)
}

/// Marks every id of `tids` completed and wakes its coroutine, in order.
pub fn wakeup_all(tids: &Vec<usize>, ex: &mut Excutor, cbtid: &mut CBTid)
    requires
        old(ex).wf(),
        forall|i: int| 0 <= i < tids.len() ==> #[trigger] tids@[i] < CBTID_LEN
            && old(ex).waker_cache@.contains_key(tids@[i]),
    ensures
        final(ex).wf(),
        final(ex).tasks == old(ex).tasks,
        final(ex).waker_cache == old(ex).waker_cache,
        final(ex).task_num == old(ex).task_num,
        final(cbtid)@.len() == old(cbtid)@.len(),
        forall|j: usize| j < old(cbtid)@.len() ==>
            #[trigger] final(cbtid)@[j as int] == (old(cbtid)@[j as int] || tids@.contains(j)),
{
    let len = tids.len();
    let mut i: usize = 0;
    while i < len
        invariant
            len == tids.len(),
            i <= len,
            ex.wf(),
            ex.tasks == old(ex).tasks,
            ex.waker_cache == old(ex).waker_cache,
            ex.task_num == old(ex).task_num,
            forall|k: int| 0 <= k < tids.len() ==> #[trigger] tids@[k] < CBTID_LEN
                && old(ex).waker_cache@.contains_key(tids@[k]),
            cbtid@.len() == old(cbtid)@.len(),
            forall|j: usize| j < old(cbtid)@.len() ==>
                #[trigger] cbtid@[j as int] == (old(cbtid)@[j as int] || tids@.take(i as int).contains(j)),
        decreases len - i,
    {
        let t = tids[i];
        cbtid.add(t);
        ex.wake_coroutine(TaskId::get_tid_by_usize(t));
        proof {
            assert forall|j: usize| j < old(cbtid)@.len() implies
                #[trigger] cbtid@[j as int] == (old(cbtid)@[j as int] || tids@.take(i as int + 1).contains(j)) by {
                assert(tids@.take(i as int + 1) =~= tids@.take(i as int).push(t));
                if tids@.take(i as int).contains(j) {
                    let w = choose|w: int| 0 <= w < i && #[trigger] tids@.take(i as int)[w] == j;
                    assert(tids@.take(i as int + 1)[w] == j);
                }
                if j == t {
                    assert(tids@.take(i as int + 1)[i as int] == t);
                }
                if tids@.take(i as int + 1).contains(j) && j != t {
                    let w = choose|w: int| 0 <= w < i + 1 && #[trigger] tids@.take(i as int + 1)[w] == j;
                    assert(w < i);
                    assert(tids@.take(i as int)[w] == j);
                }
            }
        }
        i = i + 1;
    }
    proof {
        assert(tids@.take(len as int) =~= tids@);
    }
}

/// A completion is reported at most once per marking: of two checks of
/// coroutine `t < CBTID_LEN` on a table (which always covers `CBTID_LEN`
/// ids) with no marking in between, the first says what the flag held, the
/// second says false, and the second leaves the table as the first did.
pub proof fn lemma_check_twice(flags: Seq<bool>, t: usize)
    requires
        flags.len() == CBTID_LEN,
        t < CBTID_LEN,
    ensures
        !flags.update(t as int, false)[t as int],
        flags.update(t as int, false).update(t as int, false) == flags.update(t as int, false),
        flags.update(t as int, false).len() == CBTID_LEN,
{
    assert(flags.update(t as int, false).update(t as int, false) =~= flags.update(t as int, false));
}


/// A completion is reported once: after marking `t`, the first check says
/// true and consumes the flag, so a second check says false.
pub proof fn lemma_completion_reported_once(flags: Seq<bool>, t: int)
    requires
        0 <= t < flags.len(),
    ensures
        flags.update(t, true)[t],
        !flags.update(t, true).update(t, false)[t],
{
}

/// The callback queue hands the completed ids back in the order they were
/// added: after adding `xs` to a queue holding `pending`, a drain returns
/// `pending + xs`.
pub proof fn lemma_cbq_order(pending: Seq<usize>, xs: Seq<usize>)
    ensures
        xs.fold_left(pending, |acc: Seq<usize>, x: usize| acc.push(x)) == pending + xs,
    decreases xs.len(),
{
    if xs.len() == 0 {
        assert(pending + xs =~= pending);
    } else {
        lemma_cbq_order(pending, xs.drop_last());
        assert(xs.drop_last() + seq![xs.last()] =~= xs);
        assert((pending + xs.drop_last()).push(xs.last()) =~= pending + xs);
    }
}

} // verus!
