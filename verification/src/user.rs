//! The system call side of a bare user program: the register values of the
//! calls it makes.
use vstd::prelude::*;

verus! {

/// System call number of `exit`.
pub const SYSCALL_EXIT: usize = 93;

/// System call number of `write`.
pub const SYSCALL_WRITE: usize = 64;

/// Supervisor binary interface call number of `shutdown`.
pub const SBI_SHUTDOWN: usize = 8;

/// A system call as it goes into the registers: the call number and three
/// arguments.
#[derive(Clone, Copy, Debug, PartialEq, Eq)]
pub struct SyscallRequest {
    pub id: usize,
    pub args: [usize; 3],
}

/// A supervisor call as it goes into the registers.
#[derive(Clone, Copy, Debug, PartialEq, Eq, Structural)]
pub struct SbiRequest {
    pub which: usize,
    pub arg1: usize,
    pub arg2: usize,
    pub arg3: usize,
}

/// `sys_exit`: the exit call with the exit state, sign extended, as its
/// first argument.
pub fn sys_exit(xstate: i32) -> (res: SyscallRequest)
    ensures
        res.id == SYSCALL_EXIT,
        res.args@ == seq![xstate as usize, 0usize, 0usize],
{
    SyscallRequest { id: SYSCALL_EXIT, args: [xstate as usize, 0, 0] }
}

/// `sys_write`: the write call of `buffer_len` bytes at address
/// `buffer_addr` to file descriptor `fd`.
pub fn sys_write(fd: usize, buffer_addr: usize, buffer_len: usize) -> (res: SyscallRequest)
    ensures
        res.id == SYSCALL_WRITE,
        res.args@ == seq![fd, buffer_addr, buffer_len],
{
    SyscallRequest { id: SYSCALL_WRITE, args: [fd, buffer_addr, buffer_len] }
}

/// `shutdown`: the supervisor call that powers the machine off.
pub fn shutdown() -> (res: SbiRequest)
    ensures
        res == (SbiRequest { which: SBI_SHUTDOWN, arg1: 0, arg2: 0, arg3: 0 }),
{
    SbiRequest { which: SBI_SHUTDOWN, arg1: 0, arg2: 0, arg3: 0 }
}

} // verus!
