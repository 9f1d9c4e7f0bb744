# coroutine_os

The verified core of a small RISC-V teaching kernel that schedules
coroutines as well as processes. `src/` holds the logic, each function with
a Verus contract:

- `bits`, `bitmap`: priority bitmaps (bit `i` set: work at priority `i`) and
  their merge across address spaces.
- `prio_queue`, `user_queue`, `reactor`, `runtime`: the coroutine queues of an
  address space, the reactor's task states and the decisions of the
  coroutine loop.
- `executor`, `cbq`: the kernel's coroutine executor and the completion
  queue through which user coroutines learn that their calls are done.
- `pipe`: the pipe ring buffer and the read and write passes over it.
- `process`, `task_manager`, `task_processor`, `kernel_syscall`: process
  control blocks, the ready queue, the per-hart processor and system-call
  decoding with the descriptor-table decisions.
- `user_syscall`, `user_lib`, `console`: the requests the user library
  issues and what it makes of the answers.
- `thread`: the user runtime's thread pool and processor.
- `memory_set`, `lkm`: address-space layout (ELF segments, module images,
  stacks, shared pages) and symbol lookup.

`app/` is the unverified driver around it: ELF parsing, the futures and
wakers, pipes as files, the heap and the machine registers.
