//! Priority bitmaps: bit `i` set means "something runnable at priority `i`",
//! where a smaller index is a more urgent priority.
use vstd::prelude::*;
use std::collections::BTreeSet;
use crate::bits::{bit_is_set, with_bit, get_bit, set_bit};

verus! {

/// Number of coroutine priority levels.
pub const PRIO_NUM: usize = 8;

/// Number of user address spaces whose bitmaps the kernel merges.
pub const PROCESS_NUM: usize = 8;

/// A word of priority bits.
#[derive(Clone, Copy)]
pub struct BitMap(pub usize);

/// The most urgent priority at or after `from` whose bit is set in `x`,
/// or `PRIO_NUM` when none of the bits `from..PRIO_NUM` is set.
pub open spec fn first_prio_from(x: usize, from: nat) -> nat
    decreases PRIO_NUM - from,
{
    if from >= PRIO_NUM {
        PRIO_NUM as nat
    } else if bit_is_set(x, from as usize) {
        from
    } else {
        first_prio_from(x, from + 1)
    }
}

/// The most urgent priority present in `x` (`PRIO_NUM` when none).
pub open spec fn highest_prio(x: usize) -> nat {
    first_prio_from(x, 0)
}

/// The mask holding only the most urgent priority bit of `x`, or zero.
pub open spec fn right_one_mask(x: usize) -> usize {
    if highest_prio(x) < PRIO_NUM {
        1usize << highest_prio(x)
    } else {
        0
    }
}

/// Bitwise OR of all words of `s`.
pub open spec fn or_all(s: Seq<usize>) -> usize
    decreases s.len(),
{
    if s.len() == 0 {
        0
    } else {
        or_all(s.drop_last()) | s.last()
    }
}

/// The address spaces (numbered from 1) whose bitmap shares a bit with `mask`.
pub open spec fn pids_matching(user_bitmaps: Seq<usize>, mask: usize) -> Set<usize> {
    Set::new(|pid: usize| 1 <= pid <= user_bitmaps.len() && user_bitmaps[pid - 1] & mask != 0)
}

/// `first_prio_from` is the least set priority at or after `from`.
pub proof fn lemma_first_prio_from(x: usize, from: nat)
    requires
        from <= PRIO_NUM,
    ensures
        from <= first_prio_from(x, from) <= PRIO_NUM,
        first_prio_from(x, from) < PRIO_NUM ==> bit_is_set(x, first_prio_from(x, from) as usize),
        forall|j: usize| from <= j < first_prio_from(x, from) ==> !#[trigger] bit_is_set(x, j),
    decreases PRIO_NUM - from,
{
    if from < PRIO_NUM && !bit_is_set(x, from as usize) {
        lemma_first_prio_from(x, from + 1);
    }
}

/// The characterisation of `highest_prio` used by the contracts below.
pub proof fn lemma_highest_prio(x: usize)
    ensures
        highest_prio(x) <= PRIO_NUM,
        highest_prio(x) < PRIO_NUM ==> bit_is_set(x, highest_prio(x) as usize),
        forall|j: usize| j < highest_prio(x) ==> !#[trigger] bit_is_set(x, j),
{
    lemma_first_prio_from(x, 0);
}

/// A value is the most urgent set priority exactly when it satisfies the
/// "set, and nothing more urgent set" description.
pub proof fn lemma_highest_prio_unique(x: usize, p: nat)
    requires
        p <= PRIO_NUM,
        p < PRIO_NUM ==> bit_is_set(x, p as usize),
        forall|j: usize| j < p ==> !#[trigger] bit_is_set(x, j),
    ensures
        highest_prio(x) == p,
{
    lemma_highest_prio(x);
    if highest_prio(x) < p {
        assert(!bit_is_set(x, highest_prio(x) as usize));
    } else if p < highest_prio(x) {
        assert(!bit_is_set(x, p as usize));
    }
}

proof fn lemma_shift_step(i: usize)
    requires
        i < 8,
    ensures
        (1usize << i) << 1usize == 1usize << ((i + 1) as usize),
{
    assert((1usize << i) << 1usize == 1usize << ((i + 1) as usize)) by (bit_vector)
        requires i < 8;
}

impl BitMap {
    /// A bitmap with no priority present.
    pub fn new() -> (r: BitMap)
        ensures
            r.0 == 0,
    {
        BitMap(0)
    }

    /// Sets priority bit `id` to `value`, leaving every other bit alone.
    pub fn set(&mut self, id: usize, value: bool)
        requires
            id < usize::BITS,
        ensures
            final(self).0 == with_bit(old(self).0, id, value),
    {
        set_bit(&mut self.0, id, value);
    }

    /// Whether priority bit `id` is set.
    pub fn get(&mut self, id: usize) -> (r: bool)
        requires
            id < usize::BITS,
        ensures
            r == bit_is_set(old(self).0, id),
            final(self).0 == old(self).0,
    {
        get_bit(self.0, id)
    }

    /// The most urgent priority present, or `PRIO_NUM` when the bitmap holds
    /// none of the `PRIO_NUM` priority bits.
    pub fn get_priority(&self) -> (r: usize)
        ensures
            r == highest_prio(self.0),
            r <= PRIO_NUM,
            r < PRIO_NUM ==> bit_is_set(self.0, r),
            forall|j: usize| j < r ==> !#[trigger] bit_is_set(self.0, j),
    {
        let mut i: usize = 0;
        while i < PRIO_NUM
            invariant
                i <= PRIO_NUM,
                forall|j: usize| j < i ==> !#[trigger] bit_is_set(self.0, j),
            decreases PRIO_NUM - i,
        {
            if get_bit(self.0, i) {
                proof {
                    lemma_highest_prio_unique(self.0, i as nat);
                }
                return i;
            }
            i = i + 1;
        }
        proof {
            lemma_highest_prio_unique(self.0, PRIO_NUM as nat);
        }
        PRIO_NUM
    }

    /// Mutable access to the raw word.
    pub fn inner(&mut self) -> (r: &mut usize)
        ensures
            *r == old(self).0,
            final(self).0 == *final(r),
    {
        &mut self.0
    }
}

/// The mask of the most urgent priority bit present in `num` among the
/// `PRIO_NUM` priority bits, or zero when none is present.
pub fn get_right_one_mask(num: usize) -> (r: usize)
    ensures
        r == right_one_mask(num),
{
    let mut pos: usize = 1;
    let mut i: usize = 0;
    proof {
        assert(1usize << 0usize == 1usize) by (bit_vector);
    }
    while i < PRIO_NUM
        invariant
            i <= PRIO_NUM,
            pos == 1usize << i,
            forall|j: usize| j < i ==> !#[trigger] bit_is_set(num, j),
        decreases PRIO_NUM - i,
    {
        if (num & pos) != 0 {
            proof {
                lemma_highest_prio_unique(num, i as nat);
            }
            return pos;
        }
        proof {
            lemma_shift_step(i);
        }
        pos = pos << 1;
        i = i + 1;
    }
    proof {
        lemma_highest_prio_unique(num, PRIO_NUM as nat);
    }
    0
}

/// Whether the kernel's merged bitmap holds a more urgent priority than this
/// address space's own bitmap, in which case the address space should yield.
pub fn check_bitmap_should_yield(sys_bitmap: BitMap, user_bitmap: BitMap) -> (r: bool)
    ensures
        r == (highest_prio(sys_bitmap.0) < highest_prio(user_bitmap.0)),
{
    sys_bitmap.get_priority() < user_bitmap.get_priority()
}


/// Merges the address spaces' bitmaps into the kernel's bitmap and selects
/// the address spaces to run first.
///
/// `user_bitmaps[i]` is the bitmap of address space `i + 1`. The result is
/// the OR of all of them; `prio_pids` is refilled with exactly the address
/// spaces that hold the most urgent priority present anywhere.
pub fn update_bitmap(user_bitmaps: &Vec<usize>, prio_pids: &mut BTreeSet<usize>) -> (sys: BitMap)
    requires
        user_bitmaps.len() == PROCESS_NUM,
    ensures
        sys.0 == or_all(user_bitmaps@),
        final(prio_pids)@ == pids_matching(user_bitmaps@, right_one_mask(sys.0)),
{
    let mut ans: usize = 0;
    let mut i: usize = 0;
    while i < user_bitmaps.len()
        invariant
            i <= user_bitmaps.len(),
            ans == or_all(user_bitmaps@.take(i as int)),
        decreases user_bitmaps.len() - i,
    {
        proof {
            assert(user_bitmaps@.take(i as int + 1).drop_last() == user_bitmaps@.take(i as int));
        }
        ans = ans | user_bitmaps[i];
        i = i + 1;
    }
    proof {
        assert(user_bitmaps@.take(i as int) == user_bitmaps@);
    }
    let mask = get_right_one_mask(ans);
    prio_pids.clear();
    let mut pid: usize = 1;
    while pid <= PROCESS_NUM
        invariant
            1 <= pid <= PROCESS_NUM + 1,
            user_bitmaps.len() == PROCESS_NUM,
            mask == right_one_mask(ans),
            prio_pids@ == Set::new(|p: usize| 1 <= p < pid && user_bitmaps@[p - 1] & mask != 0),
        decreases PROCESS_NUM + 1 - pid,
    {
        if (user_bitmaps[pid - 1] & mask) != 0 {
            prio_pids.insert(pid);
        }
        proof {
            assert(prio_pids@ == Set::new(|p: usize| 1 <= p < pid + 1 && user_bitmaps@[p - 1] & mask != 0));
        }
        pid = pid + 1;
    }
    proof {
        assert(prio_pids@ == pids_matching(user_bitmaps@, mask));
    }
    BitMap(ans)
}


/// Reading a priority bit back gives what was last written to it, and
/// writing one bit leaves the others alone.
pub proof fn lemma_set_then_get(x: usize, p: usize, value: bool, b: usize)
    requires
        p < usize::BITS,
        b < usize::BITS,
    ensures
        bit_is_set(with_bit(x, p, value), p) == value,
        b != p ==> bit_is_set(with_bit(x, p, value), b) == bit_is_set(x, b),
{
    crate::bits::lemma_with_bit(x, p, value, p);
    crate::bits::lemma_with_bit(x, p, value, b);
}

} // verus!
