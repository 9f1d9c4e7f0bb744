use coroutine_os::pipe::{
    pipe_aread_step, pipe_read_step, pipe_write_step, File, Pipe, PipeRingBuffer, PipeStep, ReadHelper,
    RING_BUFFER_SIZE,
};
use std::sync::Arc;

#[test]
fn ring_buffer_fifo_order() {
    let mut r = PipeRingBuffer::new();
    assert_eq!(r.available_read(), 0);
    assert_eq!(r.available_write(), RING_BUFFER_SIZE);
    for b in [1u8, 2, 3] {
        r.write_byte(b);
    }
    assert_eq!(r.available_read(), 3);
    assert_eq!(r.available_write(), RING_BUFFER_SIZE - 3);
    assert_eq!(r.read_byte(), 1);
    assert_eq!(r.read_byte(), 2);
    r.write_byte(4);
    assert_eq!(r.read_byte(), 3);
    assert_eq!(r.read_byte(), 4);
    assert_eq!(r.available_read(), 0);
}

#[test]
fn ring_buffer_full_and_wraps() {
    let mut r = PipeRingBuffer::new();
    for i in 0..RING_BUFFER_SIZE {
        r.write_byte((i % 251) as u8);
    }
    assert_eq!(r.available_read(), RING_BUFFER_SIZE);
    assert_eq!(r.available_write(), 0);
    for i in 0..10 {
        assert_eq!(r.read_byte(), (i % 251) as u8);
    }
    for i in 0..10 {
        r.write_byte(200 + i as u8);
    }
    assert_eq!(r.available_write(), 0);
    for i in 10..RING_BUFFER_SIZE {
        assert_eq!(r.read_byte(), (i % 251) as u8);
    }
    for i in 0..10 {
        assert_eq!(r.read_byte(), 200 + i as u8);
    }
    assert_eq!(r.available_read(), 0);
}

#[test]
fn pipe_read_step_outcomes() {
    let mut r = PipeRingBuffer::new();
    let mut out = Vec::new();
    assert_eq!(pipe_read_step(&mut r, &mut out, 4, false), PipeStep::Suspend);
    assert_eq!(pipe_read_step(&mut r, &mut out, 4, true), PipeStep::Done);
    for b in [9u8, 8, 7] {
        r.write_byte(b);
    }
    assert_eq!(pipe_read_step(&mut r, &mut out, 4, false), PipeStep::Continue);
    assert_eq!(out, vec![9, 8, 7]);
    for b in [6u8, 5] {
        r.write_byte(b);
    }
    assert_eq!(pipe_read_step(&mut r, &mut out, 4, false), PipeStep::Done);
    assert_eq!(out, vec![9, 8, 7, 6]);
    assert_eq!(r.available_read(), 1);
    assert_eq!(r.read_byte(), 5);
}

#[test]
fn pipe_write_step_outcomes() {
    let mut r = PipeRingBuffer::new();
    let src: Vec<u8> = (0..5).collect();
    let mut done = 0usize;
    assert_eq!(pipe_write_step(&mut r, &src, &mut done), PipeStep::Done);
    assert_eq!(done, 5);
    assert_eq!(r.available_read(), 5);
    let big: Vec<u8> = vec![1u8; RING_BUFFER_SIZE];
    let mut done2 = 0usize;
    assert_eq!(pipe_write_step(&mut r, &big, &mut done2), PipeStep::Continue);
    assert_eq!(done2, RING_BUFFER_SIZE - 5);
    assert_eq!(pipe_write_step(&mut r, &big, &mut done2), PipeStep::Suspend);
    assert_eq!(done2, RING_BUFFER_SIZE - 5);
}

#[test]
fn pipe_round_trip_through_steps() {
    let mut r = PipeRingBuffer::new();
    let msg: Vec<u8> = b"hello pipe".to_vec();
    let mut done = 0;
    pipe_write_step(&mut r, &msg, &mut done);
    let mut out = Vec::new();
    pipe_read_step(&mut r, &mut out, 64, true);
    assert_eq!(out, msg);
}

#[test]
fn pipe_ends_have_one_direction() {
    let buf = Arc::new(spin::Mutex::new(PipeRingBuffer::new()));
    let rd = Pipe::read_end_with_buffer(buf.clone());
    let wr = Pipe::write_end_with_buffer(buf.clone());
    assert!(rd.readable() && !rd.writable());
    assert!(!wr.readable() && wr.writable());
    assert!(Arc::ptr_eq(rd.buffer(), wr.buffer()));
}

#[test]
fn read_helper_alternates() {
    let mut h = ReadHelper::new();
    assert_eq!(h.0, 0);
    assert!(!h.poll_step());
    assert!(h.poll_step());
    assert!(!h.poll_step());
    assert_eq!(h.0, 3);
}

#[test]
fn both_ends_share_the_buffer_they_were_made_with() {
    let buffer = std::sync::Arc::new(spin::Mutex::new(PipeRingBuffer::new()));
    let r = Pipe::read_end_with_buffer(buffer.clone());
    let w = Pipe::write_end_with_buffer(buffer.clone());
    assert!(std::sync::Arc::ptr_eq(r.buffer(), &buffer));
    assert!(std::sync::Arc::ptr_eq(w.buffer(), &buffer));
    w.buffer().lock().write_byte(7);
    assert_eq!(r.buffer().lock().read_byte(), 7);
}

#[test]
fn ring_counts_follow_writes_less_reads() {
    let mut r = PipeRingBuffer::new();
    let (mut w, mut n) = (0usize, 0usize);
    for i in 0..10u8 {
        r.write_byte(i);
        w += 1;
        if i % 3 == 0 {
            assert_eq!(r.read_byte(), (n as u8));
            n += 1;
        }
        assert_eq!(r.available_read(), w - n);
        assert_eq!(r.available_write(), 4096 - (w - n));
    }
}

#[test]
fn async_read_ends_only_on_an_empty_closed_ring() {
    let mut r = PipeRingBuffer::new();
    for b in [1u8, 2, 3, 4, 5] {
        r.write_byte(b);
    }
    let mut out = Vec::new();
    assert_eq!(pipe_aread_step(&mut r, &mut out, 3, false), PipeStep::Continue);
    assert_eq!(out, vec![1, 2, 3]);
    assert_eq!(r.available_read(), 2);
    // `out` is full and bytes remain: the reader passes again, moving nothing
    assert_eq!(pipe_aread_step(&mut r, &mut out, 3, true), PipeStep::Continue);
    assert_eq!(out, vec![1, 2, 3]);
    assert_eq!(r.available_read(), 2);
    let mut out2 = Vec::new();
    assert_eq!(pipe_aread_step(&mut r, &mut out2, 8, false), PipeStep::Continue);
    assert_eq!(out2, vec![4, 5]);
    assert_eq!(pipe_aread_step(&mut r, &mut out2, 8, false), PipeStep::Suspend);
    assert_eq!(pipe_aread_step(&mut r, &mut out2, 8, true), PipeStep::Done);
}
