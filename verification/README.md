# os

The logic of a small RISC-V teaching kernel, with each function's contract
proved.

- `src/fs/inode.rs`: link counts of inodes, open flags, the decisions of the
  open, link and unlink calls, and the position bookkeeping of open inodes.
- `src/task/manager.rs`: the ready queue (first in, first out) and stride
  scheduling, with the laws that the queue is FIFO and that, when every
  priority is at least 2 and the strides are already within `BIG_STRIDE / 2`
  of each other (and the step does not overflow), one scheduling step with
  the task put back keeps them so.
- `src/syscall/process.rs`: argument validation and address computations of
  `mmap`, `munmap`, `sbrk`, `get_time` and `trace`.
- `src/user.rs`: register values of the `exit`, `write` and `shutdown` calls of
  a bare user program.
- `app/`: the glue to the file system, the kernel services and the `ecall`
  trap, in plain Rust.
