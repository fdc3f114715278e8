//! Verified core of a small teaching kernel: link counting and open flags of
//! the file layer, the stride scheduler's ready queue, the argument validation of
//! the process system calls, and the register layouts of the user-side calls.

pub mod fs;
pub mod syscall;
pub mod task;
pub mod user;
