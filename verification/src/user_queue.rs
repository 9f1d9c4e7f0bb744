//! The user-side coroutine queue: one FIFO of tasks per priority level, kept
//! in step with the address space's priority bitmap.
use vstd::prelude::*;
use std::collections::VecDeque;
use crate::bits::{bit_is_set, with_bit, lemma_with_bit, lemma_zero_no_bits};
use crate::bitmap::{BitMap, PRIO_NUM, highest_prio};
use crate::prio_queue::{
    TaskId, first_nonempty, bitmap_mirrors, pop_levels, lemma_first_nonempty, lemma_first_nonempty_unique, lemma_mirror_priority,
};

verus! {

/// A coroutine as the scheduler sees it: its id and its priority. The
/// future it runs is held by the runtime under the same id.
#[derive(Clone, Copy, Debug, PartialEq, Eq, Structural)]
pub struct UserTask {
    pub id: TaskId,
    pub prio: usize,
}

impl UserTask {
    /// A new task at priority `p`, with the next id from `counter`.
    pub fn spawn(counter: &mut usize, p: usize) -> (r: UserTask)
        requires
            *old(counter) <= usize::MAX / 2,
        ensures
            r.id.0 == *old(counter),
            r.prio == p,
            *final(counter) == *old(counter) + 1,
    {
        UserTask { id: TaskId::generate(counter), prio: p }
    }
}

/// The coroutine queue of one address space.
pub struct UserTaskQueue {
    queue: Vec<VecDeque<UserTask>>,
    bitmap: BitMap,
    next_prio_not_empty: bool,
}

impl UserTaskQueue {
    /// The tasks queued at each level, head first.
    pub closed spec fn levels(&self) -> Seq<Seq<UserTask>> {
        self.queue@.map_values(|q: VecDeque<UserTask>| q@)
    }

    /// The address space's priority bitmap.
    pub closed spec fn bitmap_word(&self) -> usize {
        self.bitmap.0
    }

    /// Whether, when a level was last emptied, the next level still held work.
    pub closed spec fn next_flag(&self) -> bool {
        self.next_prio_not_empty
    }

    /// This address space's priority bitmap: bit `i` set exactly when level
    /// `i` holds a task (see `lemma_bitmap_tracks_queue`).
    pub fn bitmap(&self) -> (r: BitMap)
        ensures
            r.0 == self.bitmap_word(),
    {
        self.bitmap
    }

    /// Whether, when a level was last emptied, the next level still held work.
    pub fn next_prio_not_empty(&self) -> (r: bool)
        ensures
            r == self.next_flag(),
    {
        self.next_prio_not_empty
    }

    /// Well-formedness: `PRIO_NUM` levels, mirrored by the bitmap.
    pub closed spec fn wf(&self) -> bool {
        &&& self.queue.len() == PRIO_NUM
        &&& bitmap_mirrors(self.levels(), self.bitmap.0)
    }

    /// A well-formed queue has one level per priority.
    pub proof fn lemma_levels_len(&self)
        requires
            self.wf(),
        ensures
            self.levels().len() == PRIO_NUM,
    {
    }

    /// The address space's bitmap tells the most urgent non-empty level: its
    /// most urgent set priority is that level, and it is `PRIO_NUM` exactly
    /// when the queue is empty.
    pub proof fn lemma_bitmap_tracks_queue(&self)
        requires
            self.wf(),
        ensures
            highest_prio(self.bitmap_word()) == first_nonempty(self.levels()),
    {
        lemma_mirror_priority(self.levels(), self.bitmap.0);
    }

    /// An empty queue; the "next level not empty" flag starts set.
    pub fn new() -> (r: Self)
        ensures
            r.wf(),
            r.levels() == Seq::new(PRIO_NUM as nat, |i: int| Seq::<UserTask>::empty()),
            r.bitmap_word() == 0,
            r.next_flag(),
    {
        let mut q: Vec<VecDeque<UserTask>> = Vec::new();
        let mut i: usize = 0;
        while i < PRIO_NUM
            invariant
                i <= PRIO_NUM,
                q.len() == i,
                forall|j: int| 0 <= j < i ==> (#[trigger] q@[j])@.len() == 0,
            decreases PRIO_NUM - i,
        {
            q.push(VecDeque::new());
            i = i + 1;
        }
        let r = UserTaskQueue { queue: q, bitmap: BitMap(0), next_prio_not_empty: true };
        proof {
            assert forall|b: usize| b < usize::BITS implies
                (#[trigger] bit_is_set(r.bitmap.0, b) <==> (b < PRIO_NUM && r.levels()[b as int].len() > 0)) by {
                lemma_zero_no_bits(b);
            }
            assert forall|j: int| 0 <= j < PRIO_NUM implies #[trigger] r.levels()[j] =~= Seq::<UserTask>::empty() by {
                assert(r.levels()[j] == r.queue@[j]@);
            }
            assert(r.levels() =~= Seq::new(PRIO_NUM as nat, |i: int| Seq::<UserTask>::empty()));
        }
        r
    }

    /// Puts `task` at the head of level `priority` (level 0 when `None`) and
    /// marks that level in the bitmap.
    pub fn add_task(&mut self, task: UserTask, priority: Option<usize>)
        requires
            old(self).wf(),
            priority matches Some(p) ==> p < PRIO_NUM,
        ensures
            final(self).wf(),
            ({
                let p = match priority { Some(p) => p, None => 0 };
                &&& final(self).levels() == old(self).levels().update(
                    p as int,
                    seq![task] + old(self).levels()[p as int],
                )
                &&& final(self).bitmap_word() == with_bit(old(self).bitmap_word(), p, true)
            }),
            final(self).next_flag() == old(self).next_flag(),
    {
        let p = match priority { Some(p) => p, None => 0 };
        self.queue[p].push_front(task);
        self.bitmap.set(p, true);
        proof {
            assert(self.levels() =~= old(self).levels().update(
                p as int,
                seq![task] + old(self).levels()[p as int],
            ));
            assert forall|b: usize| b < usize::BITS implies
                (#[trigger] bit_is_set(self.bitmap.0, b) <==> (b < PRIO_NUM && self.levels()[b as int].len() > 0)) by {
                lemma_with_bit(old(self).bitmap.0, p, true, b);
            }
        }
    }

    /// Puts `task` at the tail of level `priority` and marks that level.
    pub fn add_arc_task(&mut self, task: UserTask, priority: usize)
        requires
            old(self).wf(),
            priority < PRIO_NUM,
        ensures
            final(self).wf(),
            final(self).levels() == old(self).levels().update(
                priority as int,
                old(self).levels()[priority as int].push(task),
            ),
            final(self).bitmap_word() == with_bit(old(self).bitmap_word(), priority, true),
            final(self).next_flag() == old(self).next_flag(),
    {
        self.queue[priority].push_back(task);
        self.bitmap.set(priority, true);
        proof {
            assert(self.levels() =~= old(self).levels().update(
                priority as int,
                old(self).levels()[priority as int].push(task),
            ));
            assert forall|b: usize| b < usize::BITS implies
                (#[trigger] bit_is_set(self.bitmap.0, b) <==> (b < PRIO_NUM && self.levels()[b as int].len() > 0)) by {
                lemma_with_bit(old(self).bitmap.0, priority, true, b);
            }
        }
    }

    /// Takes the head of the most urgent non-empty level. When that empties
    /// the level, its bit is cleared and the flag records whether the next
    /// level still holds work. `None` when every level is empty.
    pub fn peek_task(&mut self) -> (r: Option<UserTask>)
        requires
            old(self).wf(),
        ensures
            final(self).wf(),
            ({
                let lv = old(self).levels();
                let p = first_nonempty(lv) as int;
                &&& p == PRIO_NUM ==> r is None && final(self).levels() == lv
                    && final(self).next_flag() == old(self).next_flag()
                &&& p < PRIO_NUM ==> {
                    &&& r == Some(lv[p][0])
                    &&& final(self).levels() == pop_levels(lv)
                    &&& final(self).next_flag() == if lv[p].len() == 1 {
                        p + 1 < PRIO_NUM && lv[p + 1].len() != 0
                    } else {
                        old(self).next_flag()
                    }
                }
            }),
    {
        proof {
            lemma_first_nonempty(self.levels());
        }
        let mut i: usize = 0;
        while i < PRIO_NUM
            invariant
                i <= PRIO_NUM,
                self == old(self),
                self.wf(),
                forall|j: int| 0 <= j < i ==> #[trigger] self.levels()[j].len() == 0,
            decreases PRIO_NUM - i,
        {
            if self.queue[i].len() != 0 {
                proof {
                    assert(self.levels()[i as int] == self.queue@[i as int]@);
                    lemma_first_nonempty_unique(self.levels(), i as nat);
                }
                let x = self.queue[i].pop_front();
                if self.queue[i].len() == 0 {
                    self.bitmap.set(i, false);
                    if i < PRIO_NUM - 1 && self.queue[i + 1].len() != 0 {
                        self.next_prio_not_empty = true;
                    } else {
                        self.next_prio_not_empty = false;
                    }
                }
                proof {
                    assert(self.levels() =~= pop_levels(old(self).levels()));
                    if i + 1 < PRIO_NUM {
                        assert(old(self).levels()[i as int + 1] == old(self).queue@[i as int + 1]@);
                    }
                    assert forall|b: usize| b < usize::BITS implies
                        (#[trigger] bit_is_set(self.bitmap.0, b) <==> (b < PRIO_NUM && self.levels()[b as int].len() > 0)) by {
                        lemma_with_bit(old(self).bitmap.0, i, false, b);
                        assert(bit_is_set(old(self).bitmap.0, b) <==> (b < PRIO_NUM && old(self).levels()[b as int].len() > 0));
                    }
                }
                return x;
            }
            proof {
                assert(self.levels()[i as int] == self.queue@[i as int]@);
            }
            i = i + 1;
        }
        None
    }

    /// Whether every level is empty.
    pub fn is_all_empty(&self) -> (r: bool)
        requires
            self.wf(),
        ensures
            r == forall|j: int| 0 <= j < PRIO_NUM ==> #[trigger] self.levels()[j].len() == 0,
    {
        let mut i: usize = 0;
        while i < self.queue.len()
            invariant
                i <= self.queue.len(),
                self.wf(),
                forall|j: int| 0 <= j < i ==> #[trigger] self.levels()[j].len() == 0,
            decreases self.queue.len() - i,
        {
            proof {
                assert(self.levels()[i as int] == self.queue@[i as int]@);
            }
            if self.queue[i].len() != 0 {
                return false;
            }
            i = i + 1;
        }
        true
    }
}

} // verus!
