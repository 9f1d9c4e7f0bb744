//! Priority-levelled FIFO queues of coroutine ids, each kept in step with the
//! priority bitmap that the kernel reads to decide which address space runs.
use vstd::prelude::*;
use std::collections::VecDeque;
use crate::bits::{bit_is_set, with_bit, lemma_with_bit, lemma_zero_no_bits};
use crate::bitmap::{BitMap, PRIO_NUM, highest_prio, lemma_highest_prio, lemma_highest_prio_unique};

verus! {

/// Identifier of a coroutine.
#[derive(Clone, Copy, Debug, PartialEq, Eq, Structural)]
pub struct TaskId(pub usize);

impl TaskId {
    /// Hands out the next id from `counter`, which then moves on by one.
    ///
    /// Ids above half the `usize` range are refused, as the runtime treats
    /// that many tasks as a fault.
    pub fn generate(counter: &mut usize) -> (r: TaskId)
        requires
            *old(counter) <= usize::MAX / 2,
        ensures
            r.0 == *old(counter),
            *final(counter) == *old(counter) + 1,
    {
        let id = *counter;
        *counter = id + 1;
        TaskId(id)
    }

    /// The raw number of this id.
    pub fn get_val(&self) -> (r: usize)
        ensures
            r == self.0,
    {
        self.0
    }

    /// The id with raw number `t`.
    pub fn get_tid_by_usize(t: usize) -> (r: TaskId)
        ensures
            r.0 == t,
    {
        TaskId(t)
    }
}

/// Index of the first non-empty level at or after `from`, or `PRIO_NUM`.
pub open spec fn first_nonempty_from<T>(levels: Seq<Seq<T>>, from: nat) -> nat
    decreases PRIO_NUM - from,
{
    if from >= PRIO_NUM {
        PRIO_NUM as nat
    } else if levels[from as int].len() > 0 {
        from
    } else {
        first_nonempty_from(levels, from + 1)
    }
}

/// Index of the most urgent non-empty level, or `PRIO_NUM` when all are empty.
pub open spec fn first_nonempty<T>(levels: Seq<Seq<T>>) -> nat {
    first_nonempty_from(levels, 0)
}

/// The bitmap mirrors the levels: a bit is set exactly for the non-empty
/// levels, and no bit outside the levels is set.
pub open spec fn bitmap_mirrors<T>(levels: Seq<Seq<T>>, bitmap: usize) -> bool {
    forall|b: usize| b < usize::BITS ==>
        (#[trigger] bit_is_set(bitmap, b) <==> (b < PRIO_NUM && levels[b as int].len() > 0))
}

/// Dequeues the head of the most urgent non-empty level.
pub open spec fn pop_levels<T>(levels: Seq<Seq<T>>) -> Seq<Seq<T>> {
    let p = first_nonempty(levels) as int;
    levels.update(p, levels[p].drop_first())
}

/// The total number of queued ids.
pub open spec fn total_len<T>(levels: Seq<Seq<T>>) -> nat
    decreases levels.len(),
{
    if levels.len() == 0 {
        0
    } else {
        total_len(levels.drop_last()) + levels.last().len()
    }
}

proof fn lemma_first_nonempty_from<T>(levels: Seq<Seq<T>>, from: nat)
    requires
        levels.len() == PRIO_NUM,
        from <= PRIO_NUM,
    ensures
        from <= first_nonempty_from(levels, from) <= PRIO_NUM,
        first_nonempty_from(levels, from) < PRIO_NUM
            ==> levels[first_nonempty_from(levels, from) as int].len() > 0,
        forall|j: int| from <= j < first_nonempty_from(levels, from) ==> #[trigger] levels[j].len() == 0,
    decreases PRIO_NUM - from,
{
    if from < PRIO_NUM && levels[from as int].len() == 0 {
        lemma_first_nonempty_from(levels, from + 1);
    }
}

/// The most urgent non-empty level is non-empty and every more urgent one is empty.
pub proof fn lemma_first_nonempty<T>(levels: Seq<Seq<T>>)
    requires
        levels.len() == PRIO_NUM,
    ensures
        first_nonempty(levels) <= PRIO_NUM,
        first_nonempty(levels) < PRIO_NUM ==> levels[first_nonempty(levels) as int].len() > 0,
        forall|j: int| 0 <= j < first_nonempty(levels) ==> #[trigger] levels[j].len() == 0,
{
    lemma_first_nonempty_from(levels, 0);
}

pub proof fn lemma_first_nonempty_unique<T>(levels: Seq<Seq<T>>, p: nat)
    requires
        levels.len() == PRIO_NUM,
        p <= PRIO_NUM,
        p < PRIO_NUM ==> levels[p as int].len() > 0,
        forall|j: int| 0 <= j < p ==> #[trigger] levels[j].len() == 0,
    ensures
        first_nonempty(levels) == p,
{
    lemma_first_nonempty(levels);
    if first_nonempty(levels) < p {
        assert(levels[first_nonempty(levels) as int].len() == 0);
    } else if p < first_nonempty(levels) {
        assert(levels[p as int].len() == 0);
    }
}

/// When a bitmap mirrors the levels, its most urgent priority is the most
/// urgent non-empty level.
pub proof fn lemma_mirror_priority<T>(levels: Seq<Seq<T>>, bitmap: usize)
    requires
        levels.len() == PRIO_NUM,
        bitmap_mirrors(levels, bitmap),
    ensures
        highest_prio(bitmap) == first_nonempty(levels),
{
    lemma_first_nonempty(levels);
    let p = first_nonempty(levels);
    assert forall|j: usize| j < p implies !#[trigger] bit_is_set(bitmap, j) by {
        assert(levels[j as int].len() == 0);
    }
    if p < PRIO_NUM {
        assert(bit_is_set(bitmap, p as usize));
    }
    lemma_highest_prio_unique(bitmap, p);
}

/// The kernel-side coroutine ready queue: one FIFO per priority level.
pub struct TaskQueue {
    queue: Vec<VecDeque<TaskId>>,
    bitmap: BitMap,
}

impl TaskQueue {
    /// The ids queued at each level.
    pub closed spec fn levels(&self) -> Seq<Seq<TaskId>> {
        self.queue@.map_values(|q: VecDeque<TaskId>| q@)
    }

    /// The priority bitmap kept in step with the levels.
    pub closed spec fn bitmap_word(&self) -> usize {
        self.bitmap.0
    }

    /// Well-formedness: `PRIO_NUM` levels, mirrored by the bitmap.
    pub closed spec fn wf(&self) -> bool {
        &&& self.queue.len() == PRIO_NUM
        &&& bitmap_mirrors(self.levels(), self.bitmap.0)
    }

    /// The bitmap tells the most urgent non-empty level: its most urgent set
    /// priority is that level, and it is `PRIO_NUM` exactly when all are empty.
    pub proof fn lemma_bitmap_tracks_queue(&self)
        requires
            self.wf(),
        ensures
            self.levels().len() == PRIO_NUM,
            highest_prio(self.bitmap_word()) == first_nonempty(self.levels()),
    {
        lemma_mirror_priority(self.levels(), self.bitmap.0);
    }

    /// An empty queue with an empty bitmap.
    pub fn new() -> (r: Self)
        ensures
            r.wf(),
            r.levels() == Seq::new(PRIO_NUM as nat, |i: int| Seq::<TaskId>::empty()),
            r.bitmap_word() == 0,
    {
        let mut q: Vec<VecDeque<TaskId>> = Vec::new();
        let mut i: usize = 0;
        while i < PRIO_NUM
            invariant
                i <= PRIO_NUM,
                q.len() == i,
                forall|j: int| 0 <= j < i ==> (#[trigger] q@[j])@.len() == 0,
            decreases PRIO_NUM - i,
        {
            q.push(VecDeque::new());
            i = i + 1;
        }
        let r = TaskQueue { queue: q, bitmap: BitMap(0) };
        proof {
            assert forall|b: usize| b < usize::BITS implies
                (#[trigger] bit_is_set(r.bitmap.0, b) <==> (b < PRIO_NUM && r.levels()[b as int].len() > 0)) by {
                lemma_zero_no_bits(b);
            }
            assert forall|j: int| 0 <= j < PRIO_NUM implies #[trigger] r.levels()[j] =~= Seq::<TaskId>::empty() by {
                assert(r.levels()[j] == q@[j]@);
            }
            assert(r.levels() =~= Seq::new(PRIO_NUM as nat, |i: int| Seq::<TaskId>::empty()));
        }
        r
    }

    /// Appends `tid` to level `prio` and marks the level in the bitmap.
    pub fn add_tid(&mut self, tid: TaskId, prio: usize)
        requires
            old(self).wf(),
            prio < PRIO_NUM,
        ensures
            final(self).wf(),
            final(self).levels() == old(self).levels().update(
                prio as int,
                old(self).levels()[prio as int].push(tid),
            ),
            final(self).bitmap_word() == with_bit(old(self).bitmap_word(), prio, true),
    {
        self.queue[prio].push_back(tid);
        self.bitmap.set(prio, true);
        proof {
            assert(self.levels() == old(self).levels().update(
                prio as int,
                old(self).levels()[prio as int].push(tid),
            ));
            assert forall|b: usize| b < usize::BITS implies
                (#[trigger] bit_is_set(self.bitmap.0, b) <==> (b < PRIO_NUM && self.levels()[b as int].len() > 0)) by {
                lemma_with_bit(old(self).bitmap.0, prio, true, b);
            }
        }
    }

    /// Takes the head of the most urgent non-empty level, clearing that
    /// level's bit when it becomes empty; `None` when every level is empty.
    pub fn pop_tid(&mut self) -> (r: Option<TaskId>)
        requires
            old(self).wf(),
        ensures
            final(self).wf(),
            first_nonempty(old(self).levels()) == PRIO_NUM ==> r is None && final(self).levels() == old(self).levels(),
            first_nonempty(old(self).levels()) < PRIO_NUM ==> r == Some(old(self).levels()[first_nonempty(old(self).levels()) as int][0])
                && final(self).levels() == pop_levels(old(self).levels()),
    {
        proof {
            lemma_first_nonempty(self.levels());
        }
        let mut i: usize = 0;
        while i < PRIO_NUM
            invariant
                i <= PRIO_NUM,
                self == old(self),
                self.wf(),
                forall|j: int| 0 <= j < i ==> #[trigger] self.levels()[j].len() == 0,
            decreases PRIO_NUM - i,
        {
            if self.queue[i].len() != 0 {
                proof {
                    assert(self.levels()[i as int] == self.queue@[i as int]@);
                    lemma_first_nonempty_unique(self.levels(), i as nat);
                }
                let ret = self.queue[i].pop_front();
                if self.queue[i].len() == 0 {
                    self.bitmap.set(i, false);
                }
                proof {
                    assert(self.levels() == pop_levels(old(self).levels()));
                    assert forall|b: usize| b < usize::BITS implies
                        (#[trigger] bit_is_set(self.bitmap.0, b) <==> (b < PRIO_NUM && self.levels()[b as int].len() > 0)) by {
                        lemma_with_bit(old(self).bitmap.0, i, false, b);
                        assert(bit_is_set(old(self).bitmap.0, b) <==> (b < PRIO_NUM && old(self).levels()[b as int].len() > 0));
                    }
                }
                return ret;
            }
            proof {
                assert(self.levels()[i as int] == self.queue@[i as int]@);
            }
            i = i + 1;
        }
        proof {
            lemma_first_nonempty_unique(self.levels(), PRIO_NUM as nat);
        }
        None
    }
}

} // verus!
