//! The traced-process descriptor.
//!
//! A `Process` describes one child to be spawned and traced: the executable,
//! its argument vector, and the state of the builder steps that must happen
//! before the tracer engine may drive it.  The operating-system work itself
//! (forking, running the pre-exec gate in the child, exec) happens outside
//! the library; the descriptor records, step by step, what has been done,
//! and its contracts pin the order of those steps.

use crate::sys;
use vstd::prelude::*;

verus! {

/// Why a descriptor step was refused.
#[derive(Debug, Clone, Copy, PartialEq, Eq, Structural)]
pub enum ProcessError {
    /// `set_pre_exec` was called but no pre-exec gate was ever installed.
    MissingPreExec,
}

/// Why the in-child tracing request failed.
#[derive(Debug, Clone, Copy, PartialEq, Eq, Structural)]
pub enum GateError {
    /// The kernel refused to mark the child as traced; carries the errno.
    TraceMe { errno: i32 },
}

/// One spawned-or-unspawned traced child.
pub struct Process {
    executable: String,
    args: Option<Vec<String>>,
    command_built: bool,
    has_gate: bool,
    gate_applied: bool,
    pid: Option<i32>,
}

impl Process {
    /// The executable path.
    pub closed spec fn spec_executable(&self) -> Seq<char> {
        self.executable@
    }

    /// The argument vector, if one was supplied.
    pub closed spec fn spec_args(&self) -> Option<Vec<String>> {
        self.args
    }

    /// Whether the executable and arguments were bound into a command.
    pub closed spec fn spec_command_built(&self) -> bool {
        self.command_built
    }

    /// Whether a pre-exec gate was installed on the descriptor.
    pub closed spec fn spec_has_gate(&self) -> bool {
        self.has_gate
    }

    /// Whether the pre-exec policy callback was bound for the future tracee.
    pub closed spec fn spec_gate_applied(&self) -> bool {
        self.gate_applied
    }

    /// The tracee's process identifier; unset until a spawn succeeded.
    pub closed spec fn spec_pid(&self) -> Option<i32> {
        self.pid
    }

    /// Creates a fresh descriptor: nothing built, no gate, no process yet.
    pub fn new(executable: String, args: Option<Vec<String>>) -> (p: Process)
        ensures
            p.spec_executable() == executable@,
            p.spec_args() == args,
            !p.spec_command_built(),
            !p.spec_has_gate(),
            !p.spec_gate_applied(),
            p.spec_pid() is None,
    {
        Process { executable, args, command_built: false, has_gate: false, gate_applied: false, pid: None }
    }

    /// Binds the executable and argument vector into an invocable command.
    /// The process cannot proceed without arguments, so calling this before
    /// any were supplied is ruled out.
    pub fn build_command(&mut self)
        requires
            old(self).spec_args() is Some,
        ensures
            final(self).spec_command_built(),
            final(self).spec_executable() == old(self).spec_executable(),
            final(self).spec_args() == old(self).spec_args(),
            final(self).spec_has_gate() == old(self).spec_has_gate(),
            final(self).spec_gate_applied() == old(self).spec_gate_applied(),
            final(self).spec_pid() == old(self).spec_pid(),
    {
        self.command_built = true;
    }

    /// Installs the pre-exec gate on the descriptor: the child spawned from
    /// it is to install the syscall filtering policy and request tracing,
    /// between fork and exec, before the target program runs.
    pub fn install_gate(&mut self)
        ensures
            final(self).spec_has_gate(),
            final(self).spec_executable() == old(self).spec_executable(),
            final(self).spec_args() == old(self).spec_args(),
            final(self).spec_command_built() == old(self).spec_command_built(),
            final(self).spec_gate_applied() == old(self).spec_gate_applied(),
            final(self).spec_pid() == old(self).spec_pid(),
    {
        self.has_gate = true;
    }

    /// Binds the installed gate onto the command, so the spawn runs it in
    /// the child.  Succeeds exactly when a gate was installed; without one
    /// this is a recoverable configuration error, not a crash.
    pub fn set_pre_exec(&mut self) -> (r: Result<(), ProcessError>)
        ensures
            r is Ok <==> old(self).spec_has_gate(),
            r is Err ==> r == Err::<(), ProcessError>(ProcessError::MissingPreExec),
            final(self).spec_gate_applied() == (old(self).spec_gate_applied()
                || old(self).spec_has_gate()),
            final(self).spec_executable() == old(self).spec_executable(),
            final(self).spec_args() == old(self).spec_args(),
            final(self).spec_command_built() == old(self).spec_command_built(),
            final(self).spec_has_gate() == old(self).spec_has_gate(),
            final(self).spec_pid() == old(self).spec_pid(),
    {
        if self.has_gate {
            self.gate_applied = true;
            Ok(())
        } else {
            Err(ProcessError::MissingPreExec)
        }
    }

    /// Records a successful spawn of the built command: the tracee now
    /// exists and its identifier is known.
    pub fn spawn(&mut self, pid: i32)
        requires
            old(self).spec_command_built(),
        ensures
            final(self).spec_pid() == Some(pid),
            final(self).spec_executable() == old(self).spec_executable(),
            final(self).spec_args() == old(self).spec_args(),
            final(self).spec_command_built() == old(self).spec_command_built(),
            final(self).spec_has_gate() == old(self).spec_has_gate(),
            final(self).spec_gate_applied() == old(self).spec_gate_applied(),
    {
        self.pid = Some(pid);
    }

    /// The executable path, for building the real command.
    pub fn executable(&self) -> (r: &String)
        ensures
            r@ == self.spec_executable(),
    {
        &self.executable
    }

    /// The argument vector, for building the real command.
    pub fn args(&self) -> (r: &Option<Vec<String>>)
        ensures
            r == self.spec_args(),
    {
        &self.args
    }

    /// The tracee's identifier, for a descriptor whose spawn was recorded.
    pub fn pid(&self) -> (p: i32)
        requires
            self.spec_pid() is Some,
        ensures
            self.spec_pid() == Some(p),
    {
        match &self.pid {
            Some(p) => *p,
            None => 0,
        }
    }
}

/// The in-child half of the pre-exec gate that the library can perform:
/// asks the kernel to mark the calling process as traced by its parent.
/// The caller runs this in the child, after fork and before exec, and must
/// abort the child if it fails; the outcome rests with the kernel, so
/// nothing more is promised of it.
pub fn request_tracing() -> (r: Result<(), GateError>) {
    match sys::traceme_request() {
        Ok(()) => Ok(()),
        Err(errno) => Err(GateError::TraceMe { errno }),
    }
}

} // verus!
