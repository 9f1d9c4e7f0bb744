//! Pipes: a fixed-size byte ring buffer shared by a read end and a write end.
use vstd::prelude::*;
use std::sync::Arc;

verus! {

/// Capacity of a pipe's ring buffer, in bytes.
pub const RING_BUFFER_SIZE: usize = 4096;

/// Declares `spin::Mutex`, which guards a ring buffer shared by two ends.
#[verifier::external_type_specification]
#[verifier::external_body]
#[verifier::reject_recursive_types(T)]
pub struct ExSpinMutex<T: ?Sized>(spin::Mutex<T>);

/// Whether the ring is empty, full, or neither.
#[derive(Clone, Copy, Debug, PartialEq, Eq, Structural)]
pub enum RingBufferStatus {
    FULL,
    EMPTY,
    NORMAL,
}

/// A byte FIFO of `RING_BUFFER_SIZE` bytes stored in a circular array.
pub struct PipeRingBuffer {
    arr: Vec<u8>,
    head: usize,
    tail: usize,
    status: RingBufferStatus,
    contents: Ghost<Seq<u8>>,
}

impl PipeRingBuffer {
    /// The buffered bytes, oldest first.
    pub closed spec fn view(&self) -> Seq<u8> {
        self.contents@
    }

    /// Well-formedness: `head` is the oldest byte, `tail` the next free slot,
    /// and the status tells an empty ring from a full one.
    pub closed spec fn wf(&self) -> bool {
        &&& self.arr.len() == RING_BUFFER_SIZE
        &&& self.head < RING_BUFFER_SIZE
        &&& self.tail < RING_BUFFER_SIZE
        &&& self.contents@.len() <= RING_BUFFER_SIZE
        &&& self.tail == (self.head + self.contents@.len()) % (RING_BUFFER_SIZE as int)
        &&& (self.status == RingBufferStatus::EMPTY <==> self.contents@.len() == 0)
        &&& (self.status == RingBufferStatus::FULL <==> self.contents@.len() == RING_BUFFER_SIZE)
        &&& forall|k: int| 0 <= k < self.contents@.len() ==>
            #[trigger] self.contents@[k] == self.arr@[(self.head + k) % (RING_BUFFER_SIZE as int)]
    }

    /// An empty ring.
    pub fn new() -> (r: Self)
        ensures
            r.wf(),
            r@ == Seq::<u8>::empty(),
    {
        PipeRingBuffer {
            arr: vec![0u8; RING_BUFFER_SIZE],
            head: 0,
            tail: 0,
            status: RingBufferStatus::EMPTY,
            contents: Ghost(Seq::empty()),
        }
    }

    /// Appends one byte; the ring must have room for it.
    pub fn write_byte(&mut self, byte: u8)
        requires
            old(self).wf(),
            old(self)@.len() < RING_BUFFER_SIZE,
        ensures
            final(self).wf(),
            final(self)@ == old(self)@.push(byte),
    {
        self.status = RingBufferStatus::NORMAL;
        self.arr.set(self.tail, byte);
        self.tail = (self.tail + 1) % RING_BUFFER_SIZE;
        if self.tail == self.head {
            self.status = RingBufferStatus::FULL;
        }
        self.contents = Ghost(self.contents@.push(byte));
        proof {
            let n = RING_BUFFER_SIZE as int;
            let old_len = old(self).contents@.len();
            assert forall|k: int| 0 <= k < self.contents@.len() implies
                #[trigger] self.contents@[k] == self.arr@[(self.head + k) % n] by {
                if k < old_len {
                    assert((self.head + k) % n != old(self).tail);
                }
            }
        }
    }

    /// Removes and returns the oldest byte; the ring must not be empty.
    pub fn read_byte(&mut self) -> (c: u8)
        requires
            old(self).wf(),
            old(self)@.len() > 0,
        ensures
            final(self).wf(),
            c == old(self)@[0],
            final(self)@ == old(self)@.drop_first(),
    {
        self.status = RingBufferStatus::NORMAL;
        let c = self.arr[self.head];
        proof {
            assert(self.contents@[0] == self.arr@[(self.head + 0) % (RING_BUFFER_SIZE as int)]);
        }
        self.head = (self.head + 1) % RING_BUFFER_SIZE;
        if self.head == self.tail {
            self.status = RingBufferStatus::EMPTY;
        }
        self.contents = Ghost(self.contents@.drop_first());
        proof {
            let n = RING_BUFFER_SIZE as int;
            assert forall|k: int| 0 <= k < self.contents@.len() implies
                #[trigger] self.contents@[k] == self.arr@[(self.head + k) % n] by {
                assert(old(self).contents@[k + 1] == self.arr@[(old(self).head + (k + 1)) % n]);
                assert((old(self).head + (k + 1)) % n == (self.head + k) % n);
            }
        }
        c
    }

    /// Number of buffered bytes.
    pub fn available_read(&self) -> (r: usize)
        requires
            self.wf(),
        ensures
            r == self@.len(),
    {
        if self.status == RingBufferStatus::EMPTY {
            0
        } else {
            if self.tail > self.head {
                self.tail - self.head
            } else {
                self.tail + RING_BUFFER_SIZE - self.head
            }
        }
    }

    /// Number of bytes that can still be written.
    pub fn available_write(&self) -> (r: usize)
        requires
            self.wf(),
        ensures
            r == RING_BUFFER_SIZE - self@.len(),
    {
        if self.status == RingBufferStatus::FULL {
            0
        } else {
            RING_BUFFER_SIZE - self.available_read()
        }
    }
}

/// What a pipe transfer pass tells its caller to do next.
#[derive(Clone, Copy, Debug, PartialEq, Eq, Structural)]
pub enum PipeStep {
    /// The transfer is over: report the bytes moved so far.
    Done,
    /// Nothing can move now: let other work run, then try again.
    Suspend,
    /// Bytes moved and the caller's buffer is not used up: pass again.
    Continue,
}

/// One pass of a pipe read into `out`, which may grow to `len` bytes.
///
/// When nothing is buffered the read is over if every write end is closed,
/// and must wait otherwise. Else up to the buffered count of bytes move, in
/// order; the read is over as soon as `out` would need to grow past `len`.
pub fn pipe_read_step(ring: &mut PipeRingBuffer, out: &mut Vec<u8>, len: usize, write_ends_closed: bool) -> (r: PipeStep)
    requires
        old(ring).wf(),
        old(out).len() <= len,
    ensures
        final(ring).wf(),
        ({
            let avail = old(ring)@.len() as int;
            let room = len - old(out).len();
            let moved = if avail <= room { avail } else { room };
            &&& avail == 0 ==> r == (if write_ends_closed { PipeStep::Done } else { PipeStep::Suspend })
            &&& avail > 0 ==> r == (if room < avail { PipeStep::Done } else { PipeStep::Continue })
            &&& final(out)@ == old(out)@ + old(ring)@.take(moved)
            &&& final(ring)@ == old(ring)@.skip(moved)
        }),
{
    let loop_read = ring.available_read();
    if loop_read == 0 {
        proof {
            assert(out@ == old(out)@ + old(ring)@.take(0));
            assert(ring@ == old(ring)@.skip(0));
        }
        if write_ends_closed {
            return PipeStep::Done;
        }
        return PipeStep::Suspend;
    }
    let mut i: usize = 0;
    while i < loop_read
        invariant
            i <= loop_read,
            loop_read == old(ring)@.len(),
            ring.wf(),
            out.len() <= len,
            old(out).len() + i == out.len(),
            out@ == old(out)@ + old(ring)@.take(i as int),
            ring@ == old(ring)@.skip(i as int),
        decreases loop_read - i,
    {
        if out.len() < len {
            let b = ring.read_byte();
            out.push(b);
            i = i + 1;
            proof {
                assert(out@ =~= old(out)@ + old(ring)@.take(i as int));
                assert(ring@ =~= old(ring)@.skip(i as int));
            }
        } else {
            return PipeStep::Done;
        }
    }
    PipeStep::Continue
}

/// One pass of an asynchronous pipe read into `out`, which may grow to
/// `len` bytes.
///
/// When nothing is buffered the read is over if every write end is closed,
/// and must wait otherwise. Else up to the buffered count of bytes move, in
/// order, as far as `out` has room, and the reader passes again: only an
/// empty ring with every write end closed ends the read, so a full `out`
/// facing buffered bytes keeps it passing.
pub fn pipe_aread_step(ring: &mut PipeRingBuffer, out: &mut Vec<u8>, len: usize, write_ends_closed: bool) -> (r: PipeStep)
    requires
        old(ring).wf(),
        old(out).len() <= len,
    ensures
        final(ring).wf(),
        final(out).len() <= len,
        ({
            let avail = old(ring)@.len() as int;
            let room = len - old(out).len();
            let moved = if avail <= room { avail } else { room };
            &&& avail == 0 ==> r == (if write_ends_closed { PipeStep::Done } else { PipeStep::Suspend })
            &&& avail > 0 ==> r == PipeStep::Continue
            &&& final(out)@ == old(out)@ + old(ring)@.take(moved)
            &&& final(ring)@ == old(ring)@.skip(moved)
        }),
{
    let loop_read = ring.available_read();
    if loop_read == 0 {
        proof {
            assert(out@ == old(out)@ + old(ring)@.take(0));
            assert(ring@ == old(ring)@.skip(0));
        }
        if write_ends_closed {
            return PipeStep::Done;
        }
        return PipeStep::Suspend;
    }
    let mut i: usize = 0;
    while i < loop_read
        invariant
            i <= loop_read,
            loop_read == old(ring)@.len(),
            ring.wf(),
            out.len() <= len,
            old(out).len() + i == out.len(),
            out@ == old(out)@ + old(ring)@.take(i as int),
            ring@ == old(ring)@.skip(i as int),
        decreases loop_read - i,
    {
        if out.len() < len {
            let b = ring.read_byte();
            out.push(b);
            i = i + 1;
            proof {
                assert(out@ =~= old(out)@ + old(ring)@.take(i as int));
                assert(ring@ =~= old(ring)@.skip(i as int));
            }
        } else {
            return PipeStep::Continue;
        }
    }
    PipeStep::Continue
}

/// One pass of a pipe write of `src[*done..]`, advancing `*done`.
///
/// When the ring is full the write must wait. Else up to the free count of
/// bytes move, in order; the write is over as soon as `src` is used up.
pub fn pipe_write_step(ring: &mut PipeRingBuffer, src: &Vec<u8>, done: &mut usize) -> (r: PipeStep)
    requires
        old(ring).wf(),
        *old(done) <= src.len(),
    ensures
        final(ring).wf(),
        ({
            let free = RING_BUFFER_SIZE - old(ring)@.len();
            let rest = src.len() - *old(done);
            let moved = if free <= rest { free } else { rest };
            &&& free == 0 ==> r == PipeStep::Suspend
            &&& free > 0 ==> r == (if rest < free { PipeStep::Done } else { PipeStep::Continue })
            &&& *final(done) == *old(done) + moved
            &&& final(ring)@ == old(ring)@ + src@.subrange(*old(done) as int, *old(done) + moved)
        }),
{
    let loop_write = ring.available_write();
    if loop_write == 0 {
        proof {
            assert(ring@ =~= old(ring)@ + src@.subrange(*old(done) as int, *old(done) as int));
        }
        return PipeStep::Suspend;
    }
    let mut i: usize = 0;
    while i < loop_write
        invariant
            i <= loop_write,
            loop_write == RING_BUFFER_SIZE - old(ring)@.len(),
            ring.wf(),
            *done <= src.len(),
            *done == *old(done) + i,
            ring@ == old(ring)@ + src@.subrange(*old(done) as int, *done as int),
        decreases loop_write - i,
    {
        if *done < src.len() {
            ring.write_byte(src[*done]);
            *done = *done + 1;
            i = i + 1;
            proof {
                assert(ring@ =~= old(ring)@ + src@.subrange(*old(done) as int, *done as int));
            }
        } else {
            return PipeStep::Done;
        }
    }
    PipeStep::Continue
}

/// One end of a pipe.
pub struct Pipe {
    readable: bool,
    writable: bool,
    buffer: Arc<spin::Mutex<PipeRingBuffer>>,
}

impl Pipe {
    /// The read end over `buffer`.
    pub fn read_end_with_buffer(buffer: Arc<spin::Mutex<PipeRingBuffer>>) -> (r: Self)
        ensures
            r.is_readable(),
            !r.is_writable(),
            r.shared_buffer() == buffer,
    {
        Pipe { readable: true, writable: false, buffer }
    }

    /// The write end over `buffer`.
    pub fn write_end_with_buffer(buffer: Arc<spin::Mutex<PipeRingBuffer>>) -> (r: Self)
        ensures
            !r.is_readable(),
            r.is_writable(),
            r.shared_buffer() == buffer,
    {
        Pipe { readable: false, writable: true, buffer }
    }

    /// Whether this end reads.
    pub closed spec fn is_readable(&self) -> bool {
        self.readable
    }

    /// Whether this end writes.
    pub closed spec fn is_writable(&self) -> bool {
        self.writable
    }

    /// The handle of the ring buffer this end works on.
    pub closed spec fn shared_buffer(&self) -> Arc<spin::Mutex<PipeRingBuffer>> {
        self.buffer
    }

    /// The ring buffer shared by both ends.
    pub fn buffer(&self) -> (r: &Arc<spin::Mutex<PipeRingBuffer>>)
        ensures
            *r == self.shared_buffer(),
    {
        &self.buffer
    }
}

/// What the kernel needs of every open file: which directions it allows.
pub trait File {
    fn readable(&self) -> bool;
    fn writable(&self) -> bool;
}

impl File for Pipe {
    fn readable(&self) -> (r: bool)
        ensures
            r == self.is_readable(),
    {
        self.readable
    }

    fn writable(&self) -> (r: bool)
        ensures
            r == self.is_writable(),
    {
        self.writable
    }
}

/// A future that is pending on every odd poll and ready on every even one.
pub struct ReadHelper(pub usize);

impl ReadHelper {
    /// A helper that has not been polled yet.
    pub fn new() -> (r: Self)
        ensures
            r.0 == 0,
    {
        ReadHelper(0)
    }

    /// One poll: counts it, and is ready when the count is even.
    pub fn poll_step(&mut self) -> (ready: bool)
        requires
            old(self).0 < usize::MAX,
        ensures
            final(self).0 == old(self).0 + 1,
            ready == (final(self).0 % 2 == 0),
    {
        let n = self.0 + 1;
        self.0 = n;
        proof {
            assert((n & 1) == n % 2) by (bit_vector);
        }
        (n & 1) != 1
    }
}


/// A pipe delivers bytes in the order they were written, none lost and none
/// repeated: if everything written so far is everything read so far followed
/// by the buffered bytes, that stays so across a write pass (which appends
/// what it moves to both the written bytes and the buffer) and across a read
/// pass (which moves a prefix of the buffer to the bytes read).
pub proof fn lemma_pipe_keeps_order(
    written: Seq<u8>,
    read: Seq<u8>,
    buffered: Seq<u8>,
    incoming: Seq<u8>,
    k: int,
)
    requires
        written == read + buffered,
        0 <= k <= buffered.len() + incoming.len(),
    ensures
        written + incoming == read + (buffered + incoming),
        written + incoming == (read + (buffered + incoming).take(k)) + (buffered + incoming).skip(k),
{
    assert(written + incoming =~= read + (buffered + incoming));
    assert((buffered + incoming) =~= (buffered + incoming).take(k) + (buffered + incoming).skip(k));
    assert(read + (buffered + incoming) =~= (read + (buffered + incoming).take(k)) + (buffered + incoming).skip(k));
}



/// One operation on a ring: writing a byte, or reading the oldest one.
#[derive(Clone, Copy, Debug, PartialEq, Eq, Structural)]
pub enum RingOp {
    Write(u8),
    Read,
}

/// The bytes a run of operations writes, in order.
pub open spec fn bytes_written(ops: Seq<RingOp>) -> Seq<u8>
    decreases ops.len(),
{
    if ops.len() == 0 {
        Seq::empty()
    } else {
        match ops.last() {
            RingOp::Write(b) => bytes_written(ops.drop_last()).push(b),
            RingOp::Read => bytes_written(ops.drop_last()),
        }
    }
}

/// How many reads a run of operations makes.
pub open spec fn reads_made(ops: Seq<RingOp>) -> nat
    decreases ops.len(),
{
    if ops.len() == 0 {
        0
    } else {
        match ops.last() {
            RingOp::Write(_) => reads_made(ops.drop_last()),
            RingOp::Read => reads_made(ops.drop_last()) + 1,
        }
    }
}

/// The buffered bytes after a run of operations on an empty ring, each
/// write appending (`write_byte`) and each read removing the oldest byte
/// (`read_byte`).
pub open spec fn ring_after(ops: Seq<RingOp>) -> Seq<u8>
    decreases ops.len(),
{
    if ops.len() == 0 {
        Seq::empty()
    } else {
        match ops.last() {
            RingOp::Write(b) => ring_after(ops.drop_last()).push(b),
            RingOp::Read => ring_after(ops.drop_last()).drop_first(),
        }
    }
}

/// Whether every operation of the run is allowed when it comes: a write
/// only while the ring has room, a read only while it holds a byte.
pub open spec fn ring_ops_allowed(ops: Seq<RingOp>) -> bool
    decreases ops.len(),
{
    ops.len() == 0 || (ring_ops_allowed(ops.drop_last()) && match ops.last() {
        RingOp::Write(_) => ring_after(ops.drop_last()).len() < RING_BUFFER_SIZE,
        RingOp::Read => ring_after(ops.drop_last()).len() > 0,
    })
}

/// Whatever the interleaving of writes and reads on a new ring, the ring
/// holds exactly the bytes written and not yet read, oldest first: its
/// count to read (`available_read`) is the writes less the reads, and its
/// room (`available_write`) the size less that.
pub proof fn lemma_ring_counts(ops: Seq<RingOp>)
    requires
        ring_ops_allowed(ops),
    ensures
        reads_made(ops) <= bytes_written(ops).len(),
        ring_after(ops) == bytes_written(ops).skip(reads_made(ops) as int),
        ring_after(ops).len() == bytes_written(ops).len() - reads_made(ops),
        RING_BUFFER_SIZE - ring_after(ops).len() == RING_BUFFER_SIZE - (bytes_written(ops).len() - reads_made(ops)),
        ring_after(ops).len() <= RING_BUFFER_SIZE,
    decreases ops.len(),
{
    if ops.len() == 0 {
        assert(bytes_written(ops).skip(0) =~= Seq::<u8>::empty());
    } else {
        let pre = ops.drop_last();
        lemma_ring_counts(pre);
        let w = bytes_written(pre);
        let r = reads_made(pre) as int;
        match ops.last() {
            RingOp::Write(b) => {
                assert(w.push(b).skip(r) =~= w.skip(r).push(b));
            },
            RingOp::Read => {
                assert(w.skip(r + 1) =~= w.skip(r).drop_first());
            },
        }
    }
}

} // verus!
