//! System calls: argument validation and computations of the process calls.

pub mod process;
