//! A process-tracing library: it models a traced child process, drives the
//! syscall-stop state machine over a live tracee, normalizes raw register
//! values into small per-syscall identifiers, and reconstructs typed records
//! out of the tracee's address space word by word.

pub mod memtable;
pub mod normalized_regs;
pub mod process;
pub mod remote;
pub mod syscall_table;
pub mod sys;
pub mod trace;
