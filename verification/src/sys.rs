//! Trusted wrappers around the kernel tracing interface.
//!
//! Each function here makes exactly one call into the `nix` crate and
//! converts its arguments and result to plain values.  What a call returns
//! depends on the tracee and the kernel, not on the arguments alone, so the
//! wrappers promise nothing of their outcomes; the verified engine states
//! what holds whatever came back.  Errors are carried as the raw errno.

use crate::normalized_regs::Regs;
use nix::sys::wait::WaitStatus;
use vstd::prelude::*;

verus! {

/// What one wait on the tracee reported, variant for variant as the kernel
/// classifies it: a normal exit with its code, a death by signal, a stop by
/// signal delivery, a ptrace event or syscall stop, a resumption, or no
/// change at all.
#[derive(Debug, Clone, Copy, PartialEq, Eq, Structural)]
pub enum WaitOutcome {
    Exited { code: i32 },
    Signaled { signal: i32, core_dump: bool },
    Stopped { signal: i32 },
    PtraceEvent { signal: i32, event: i32 },
    PtraceSyscall,
    Continued,
    StillAlive,
}

/// Relies on nix::sys::ptrace::syscall: resumes the stopped tracee and
/// arranges for it to stop at its next entry to or exit from a system call,
/// delivering no signal.
#[verifier::external_body]
pub(crate) fn resume_to_syscall(pid: i32) -> (r: Result<(), i32>) {
    let p = nix::unistd::Pid::from_raw(pid);
    match nix::sys::ptrace::syscall(p, None::<nix::sys::signal::Signal>) {
        Ok(()) => Ok(()),
        Err(e) => Err(e as i32),
    }
}

/// Relies on nix::sys::wait::waitpid: blocks until the tracee's next state
/// change and reports it, variant for variant.
#[verifier::external_body]
pub(crate) fn wait_for_stop(pid: i32) -> (r: Result<WaitOutcome, i32>) {
    match nix::sys::wait::waitpid(nix::unistd::Pid::from_raw(pid), None) {
        Ok(WaitStatus::Exited(_, code)) => Ok(WaitOutcome::Exited { code }),
        Ok(WaitStatus::Signaled(_, s, core_dump)) => Ok(WaitOutcome::Signaled { signal: s as i32, core_dump }),
        Ok(WaitStatus::Stopped(_, s)) => Ok(WaitOutcome::Stopped { signal: s as i32 }),
        Ok(WaitStatus::PtraceEvent(_, s, event)) => Ok(WaitOutcome::PtraceEvent { signal: s as i32, event }),
        Ok(WaitStatus::PtraceSyscall(_)) => Ok(WaitOutcome::PtraceSyscall),
        Ok(WaitStatus::Continued(_)) => Ok(WaitOutcome::Continued),
        Ok(WaitStatus::StillAlive) => Ok(WaitOutcome::StillAlive),
        Err(e) => Err(e as i32),
    }
}

/// Relies on nix::sys::ptrace::getregs: reads the stopped tracee's register
/// set and picks out the syscall number, the three leading argument
/// registers of the 64-bit calling convention, and the return register.
#[verifier::external_body]
pub(crate) fn read_regs(pid: i32) -> (r: Result<Regs, i32>) {
    match nix::sys::ptrace::getregs(nix::unistd::Pid::from_raw(pid)) {
        Ok(u) => Ok(Regs { orig_rax: u.orig_rax, rdi: u.rdi, rsi: u.rsi, rdx: u.rdx, rax: u.rax }),
        Err(e) => Err(e as i32),
    }
}

/// Relies on nix::sys::ptrace::read: reads one machine word of the stopped
/// tracee's memory at the given address.
#[verifier::external_body]
pub(crate) fn peek_word(pid: i32, addr: u64) -> (r: Result<i64, i32>) {
    let p = nix::unistd::Pid::from_raw(pid);
    match nix::sys::ptrace::read(p, addr as usize as nix::sys::ptrace::AddressType) {
        Ok(w) => Ok(w),
        Err(e) => Err(e as i32),
    }
}

/// Relies on nix::sys::ptrace::traceme: asks the kernel to mark the calling
/// process as traced by its parent; the one ptrace request the tracee
/// itself issues.
#[verifier::external_body]
pub(crate) fn traceme_request() -> (r: Result<(), i32>) {
    match nix::sys::ptrace::traceme() {
        Ok(()) => Ok(()),
        Err(e) => Err(e as i32),
    }
}

} // verus!
