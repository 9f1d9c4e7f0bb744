//! Verified core of a coroutine-scheduling teaching kernel: priority bitmaps,
//! coroutine queues and executor state, the pipe ring buffer, process
//! control blocks and file descriptor tables, the process ready queue and
//! per-hart processor, the thread pool, address-space layout and module
//! loading, and the system-call encoding shared by the kernel and its user
//! library.
#![allow(unused_imports)]

pub mod bits;
pub mod bitmap;
pub mod prio_queue;
pub mod user_queue;
pub mod pipe;
pub mod reactor;
pub mod executor;
pub mod cbq;
pub mod task_manager;
pub mod process;
pub mod kernel_syscall;
pub mod user_syscall;
pub mod user_lib;
pub mod thread;
pub mod runtime;
pub mod memory_set;
pub mod console;
pub mod task_processor;
pub mod lkm;
