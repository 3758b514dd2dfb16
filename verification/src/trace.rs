//! The tracer engine: the syscall-stop state machine.
//!
//! The kernel delivers two tracer-visible stops per syscall, one at entry
//! and one at exit, and only the exit stop carries settled register state.
//! The engine therefore toggles between awaiting an entry stop and awaiting
//! an exit stop, captures and normalizes registers only at exit stops, and
//! ends, once and terminally, when the tracee exits.  A stop caused by a
//! plain signal delivery is not told apart from a syscall-boundary stop;
//! the state machine treats it as whichever stop it was awaiting.  That is
//! a known, deliberate gap of this engine, kept as it is rather than
//! silently mended.

use crate::memtable::MetaMemoryTable;
use crate::normalized_regs::{lemma_norm_snoc, norm_call, norm_model, norm_seq, I64Regs, Regs};
use crate::process::Process;
use crate::sys;
use crate::sys::WaitOutcome;
use vstd::prelude::*;

verus! {

/// Where the engine stands between two stops of the tracee.
#[derive(Debug, Clone, Copy, PartialEq, Eq, Structural)]
pub enum TraceState {
    /// The next syscall-boundary stop is a call entry: nothing is captured.
    AwaitingEntry,
    /// The next syscall-boundary stop is a call exit: registers are
    /// captured, normalized and handed to the sink.
    AwaitingExit,
    /// The tracee exited; the engine is done and emits nothing further.
    Exited,
}

/// One observable state change of the tracee, as the engine models it:
/// either a stop whose registers would read as `regs`, or the exit.
#[derive(Debug, Clone, Copy, PartialEq, Eq, Structural)]
pub enum TraceEvent {
    Stop { regs: Regs },
    Exit,
}

/// Why a trace ended short of the tracee's exit.  Every variant names the
/// step that failed; kernel failures carry the raw errno.
#[derive(Debug, Clone, Copy, PartialEq, Eq, Structural)]
pub enum TraceError {
    /// Resuming the tracee to its next syscall boundary failed.
    Resume { errno: i32 },
    /// Waiting for the tracee's next state change failed.
    Wait { errno: i32 },
    /// Reading the stopped tracee's registers failed.
    GetRegs { errno: i32 },
    /// A word read during structure reconstruction failed.
    MemRead { syscall: u64, word_index: usize, errno: i32 },
    /// The range to reconstruct would wrap the tracee's address space.
    AddressRange { syscall: u64 },
    /// The normalization table cannot take four more values under this
    /// syscall number.
    TableFull { syscall: u64 },
    /// The caller's bound on the number of stops ran out before the tracee
    /// exited.
    StopLimit,
}

/// What a sink has been handed: one normalized call, or the one exit
/// notification that ends a trace.
#[derive(Debug, Clone, Copy, PartialEq, Eq, Structural)]
pub enum SinkEvent {
    Call { call: I64Regs },
    Exited,
}

/// A caller-supplied sink for completed calls.  The engine hands it every
/// normalized call in the exact order of the tracee's exit stops, and the
/// exit notification last; its log records them in that order.
pub trait CallSink {
    /// Everything handed to the sink so far, oldest first.  An
    /// implementation that does not model its history leaves the default.
    open spec fn log(&self) -> Seq<SinkEvent> {
        Seq::<SinkEvent>::empty()
    }

    /// Accepts one completed, normalized call.
    fn emit_call(&mut self, c: &I64Regs)
        ensures
            final(self).log() == old(self).log().push(SinkEvent::Call { call: *c }),
    ;

    /// Accepts the end-of-trace notification.
    fn emit_exit(&mut self)
        ensures
            final(self).log() == old(self).log().push(SinkEvent::Exited),
    ;
}

/// A sink that simply keeps what it was handed.
pub struct VecSink {
    events: Vec<SinkEvent>,
}

impl VecSink {
    /// An empty sink.
    pub fn new() -> (s: VecSink)
        ensures
            s.log() == Seq::<SinkEvent>::empty(),
    {
        VecSink { events: Vec::new() }
    }

    /// Everything handed to the sink so far, oldest first.
    pub fn events(&self) -> (r: &Vec<SinkEvent>)
        ensures
            r@ == self.log(),
    {
        &self.events
    }
}

impl CallSink for VecSink {
    closed spec fn log(&self) -> Seq<SinkEvent> {
        self.events@
    }

    fn emit_call(&mut self, c: &I64Regs) {
        self.events.push(SinkEvent::Call { call: *c });
    }

    fn emit_exit(&mut self) {
        self.events.push(SinkEvent::Exited);
    }
}

/// The calls a sequence of normalized captures reads as, in sink order.
pub open spec fn calls_of(cs: Seq<I64Regs>) -> Seq<SinkEvent> {
    cs.map_values(|c: I64Regs| SinkEvent::Call { call: c })
}

/// The engine's state after one observed tracee state change: an exit is
/// terminal; a stop toggles the syscall-boundary phase.
pub open spec fn next_state(st: TraceState, ev: TraceEvent) -> TraceState {
    match ev {
        TraceEvent::Exit => TraceState::Exited,
        TraceEvent::Stop { .. } => match st {
            TraceState::AwaitingEntry => TraceState::AwaitingExit,
            TraceState::AwaitingExit => TraceState::AwaitingEntry,
            TraceState::Exited => TraceState::Exited,
        },
    }
}

/// Whether the engine captures registers at this event: only at a stop
/// that completes a syscall.
pub open spec fn captures_now(st: TraceState, ev: TraceEvent) -> bool {
    ev is Stop && st is AwaitingExit
}

/// The register captures the engine makes driving through `events` from
/// state `st`, in order, stopping at the first exit.
pub open spec fn run_captures(events: Seq<TraceEvent>, st: TraceState) -> Seq<Regs>
    decreases events.len(),
{
    if events.len() == 0 {
        Seq::<Regs>::empty()
    } else if events[0] is Exit {
        Seq::<Regs>::empty()
    } else {
        let tail = run_captures(
            events.subrange(1, events.len() as int),
            next_state(st, events[0]),
        );
        if captures_now(st, events[0]) {
            seq![events[0]->regs] + tail
        } else {
            tail
        }
    }
}

/// The engine's state after driving through `events` from state `st`.
pub open spec fn run_state(events: Seq<TraceEvent>, st: TraceState) -> TraceState
    decreases events.len(),
{
    if events.len() == 0 {
        st
    } else if events[0] is Exit {
        TraceState::Exited
    } else {
        run_state(events.subrange(1, events.len() as int), next_state(st, events[0]))
    }
}

/// Whether driving through `events` reaches the tracee's exit.
pub open spec fn run_exited(events: Seq<TraceEvent>, st: TraceState) -> bool
    decreases events.len(),
{
    if events.len() == 0 {
        false
    } else if events[0] is Exit {
        true
    } else {
        run_exited(events.subrange(1, events.len() as int), next_state(st, events[0]))
    }
}

/// State machine termination: a tracee that performs exactly `k` syscalls
/// — two boundary stops each — and then exits drives the engine to exactly
/// `k` captures, the registers of every second stop in order, reaches the
/// exit, and ends in the terminal state.
pub proof fn lemma_state_machine_termination(events: Seq<TraceEvent>, k: nat)
    requires
        events.len() == 2 * k + 1,
        forall|i: int| 0 <= i < 2 * k ==> (#[trigger] events[i]) is Stop,
        events[2 * k as int] is Exit,
    ensures
        run_exited(events, TraceState::AwaitingEntry),
        run_state(events, TraceState::AwaitingEntry) == TraceState::Exited,
        run_captures(events, TraceState::AwaitingEntry).len() == k,
        forall|i: int| 0 <= i < k ==> run_captures(events, TraceState::AwaitingEntry)[i] == events[2
            * i + 1]->regs,
    decreases k,
{
    let full = run_captures(events, TraceState::AwaitingEntry);
    if k == 0 {
        assert(events[0] is Exit);
    } else {
        let tail1 = events.subrange(1, events.len() as int);
        let tail2 = tail1.subrange(1, tail1.len() as int);
        assert(tail2 =~= events.subrange(2, events.len() as int));
        assert(events[0] is Stop && events[1] is Stop);
        assert(tail1[0] == events[1]);
        assert forall|i: int| 0 <= i < 2 * (k - 1) implies (#[trigger] tail2[i]) is Stop by {
            assert(tail2[i] == events[i + 2]);
        }
        assert(tail2[2 * (k - 1) as int] == events[2 * k as int]);
        lemma_state_machine_termination(tail2, (k - 1) as nat);
        assert(run_exited(events, TraceState::AwaitingEntry) == run_exited(
            tail1,
            TraceState::AwaitingExit,
        ));
        assert(run_exited(tail1, TraceState::AwaitingExit) == run_exited(
            tail2,
            TraceState::AwaitingEntry,
        ));
        assert(run_state(events, TraceState::AwaitingEntry) == run_state(
            tail1,
            TraceState::AwaitingExit,
        ));
        assert(run_state(tail1, TraceState::AwaitingExit) == run_state(
            tail2,
            TraceState::AwaitingEntry,
        ));
        let rest = run_captures(tail2, TraceState::AwaitingEntry);
        assert(run_captures(tail1, TraceState::AwaitingExit) == seq![events[1]->regs] + rest);
        assert(full == seq![events[1]->regs] + rest);
        assert(full.len() == k);
        assert forall|i: int| 0 <= i < k implies full[i] == events[2 * i + 1]->regs by {
            if i == 0 {
                assert(full[0] == events[1]->regs);
            } else {
                assert(full[i] == rest[i - 1]);
                assert(rest[i - 1] == tail2[2 * (i - 1) + 1]->regs);
                assert(tail2[2 * (i - 1) + 1] == events[2 * i + 1]);
            }
        }
    }
}

/// Drives the syscall-stop state machine over a fixed sequence of tracee
/// state changes, exactly as the live engine classifies them: entry stops
/// toggle the phase, exit stops capture and normalize the event's
/// registers against the session table and hand the call to the sink, and
/// the first exit ends the run with the one exit notification.  Returns
/// the state the machine ends in.
pub fn run_script<S: CallSink>(
    events: &Vec<TraceEvent>,
    memory_table: &mut MetaMemoryTable,
    sink: &mut S,
) -> (r: Result<TraceState, TraceError>)
    requires
        old(memory_table).inv(),
        forall|c: u64| old(memory_table).inner_next(c) + 4 * events@.len() <= i64::MAX,
    ensures
        final(memory_table).inv(),
        r is Ok,
        r matches Ok(st) ==> {
            let init = TraceState::AwaitingEntry;
            let caps = run_captures(events@, init);
            &&& st == run_state(events@, init)
            &&& final(sink).log() == old(sink).log() + calls_of(
                norm_seq(old(memory_table).model(), caps),
            ) + (if run_exited(events@, init) {
                seq![SinkEvent::Exited]
            } else {
                Seq::<SinkEvent>::empty()
            })
            &&& final(memory_table).model() == norm_model(old(memory_table).model(), caps)
        },
{
    let ghost init = TraceState::AwaitingEntry;
    let ghost model0 = old(memory_table).model();
    let ghost log0 = old(sink).log();
    let ghost mut caps: Seq<Regs> = Seq::empty();
    let mut state = TraceState::AwaitingEntry;
    let mut exited = false;
    let n = events.len();
    let mut i: usize = 0;
    proof {
        assert(events@.subrange(0, n as int) =~= events@);
        assert(caps + run_captures(events@, init) =~= run_captures(events@, init));
        assert(norm_seq(model0, caps) == Seq::<I64Regs>::empty());
        assert(calls_of(norm_seq(model0, caps)) =~= Seq::<SinkEvent>::empty());
        assert(log0 + calls_of(norm_seq(model0, caps)) =~= log0);
        assert(norm_model(model0, caps) == model0);
    }
    while i < n && !exited
        invariant
            i <= n,
            n == events@.len(),
            memory_table.inv(),
            model0 == old(memory_table).model(),
            log0 == old(sink).log(),
            forall|c: u64| memory_table.inner_next(c) + 4 * (n - i) <= i64::MAX,
            memory_table.model() == norm_model(model0, caps),
            !exited ==> {
                &&& (state is AwaitingEntry || state is AwaitingExit)
                &&& run_captures(events@, init) == caps + run_captures(
                    events@.subrange(i as int, n as int),
                    state,
                )
                &&& run_state(events@, init) == run_state(
                    events@.subrange(i as int, n as int),
                    state,
                )
                &&& run_exited(events@, init) == run_exited(
                    events@.subrange(i as int, n as int),
                    state,
                )
                &&& sink.log() == log0 + calls_of(norm_seq(model0, caps))
            },
            exited ==> {
                &&& state is Exited
                &&& run_captures(events@, init) == caps
                &&& run_state(events@, init) is Exited
                &&& run_exited(events@, init)
                &&& sink.log() == log0 + calls_of(norm_seq(model0, caps)) + seq![SinkEvent::Exited]
            },
        decreases n - i,
    {
        let ev = events[i];
        proof {
            let suf = events@.subrange(i as int, n as int);
            assert(suf[0] == events@[i as int]);
            assert(suf.subrange(1, suf.len() as int) =~= events@.subrange(i + 1 as int, n as int));
        }
        match ev {
            TraceEvent::Exit => {
                sink.emit_exit();
                state = TraceState::Exited;
                exited = true;
                proof {
                    assert(log0 + calls_of(norm_seq(model0, caps)) + seq![SinkEvent::Exited] =~= (
                    log0 + calls_of(norm_seq(model0, caps))).push(SinkEvent::Exited));
                }
            },
            TraceEvent::Stop { regs } => {
                if state == TraceState::AwaitingExit {
                    let ghost pre = *memory_table;
                    let nr = match I64Regs::from_regs(&regs, memory_table) {
                        Some(nr) => nr,
                        None => {
                            // The loop keeps room for four more values under
                            // every syscall number, so interning cannot fail.
                            proof {
                                assert(pre.inner_next(regs.orig_rax) + 4 * (n - i) <= i64::MAX);
                                assert(false);
                            }
                            return Err(TraceError::TableFull { syscall: regs.orig_rax });
                        },
                    };
                    sink.emit_call(&nr);
                    proof {
                        lemma_norm_snoc(model0, caps, regs);
                        assert(norm_model(model0, caps) == pre.model());
                        assert(nr == norm_call(norm_model(model0, caps), regs));
                        assert(norm_seq(model0, caps.push(regs)) == norm_seq(model0, caps).push(
                            nr,
                        ));
                        assert(calls_of(norm_seq(model0, caps.push(regs))) =~= calls_of(
                            norm_seq(model0, caps),
                        ).push(SinkEvent::Call { call: nr }));
                        assert(log0 + calls_of(norm_seq(model0, caps.push(regs))) =~= (log0
                            + calls_of(norm_seq(model0, caps))).push(SinkEvent::Call { call: nr }));
                        assert(caps + (seq![regs] + run_captures(
                            events@.subrange(i + 1 as int, n as int),
                            TraceState::AwaitingEntry,
                        )) =~= caps.push(regs) + run_captures(
                            events@.subrange(i + 1 as int, n as int),
                            TraceState::AwaitingEntry,
                        ));
                        assert forall|c: u64| memory_table.inner_next(c) + 4 * (n - i - 1)
                            <= i64::MAX by {
                            if c == regs.orig_rax {
                                crate::memtable::lemma_replay_next_bound(
                                    pre.inner_ids(c),
                                    pre.inner_next(c),
                                    regs.norm_inputs(),
                                );
                            }
                        }
                        caps = caps.push(regs);
                    }
                    state = TraceState::AwaitingEntry;
                } else {
                    state = TraceState::AwaitingExit;
                }
            },
        }
        i = i + 1;
    }
    proof {
        if !exited {
            assert(i == n);
            assert(events@.subrange(n as int, n as int) =~= Seq::<TraceEvent>::empty());
        }
    }
    Ok(state)
}

/// Drives a live, spawned tracee through the syscall-stop state machine:
/// each iteration resumes the tracee to its next syscall boundary, waits
/// for its state change, and classifies the stop.  Only exit stops capture
/// registers; each capture is normalized against the session table and
/// handed to the sink, in the exact order of the tracee's exit stops, with
/// no reordering and no buffering.  A completed call under the one
/// reconstruction syscall number additionally pulls the kernel record out
/// of the tracee's memory; a failed read there is reported, never
/// zero-filled.  The tracee's exit emits the one exit notification and
/// ends the trace; any failure to resume, wait or read registers is fatal
/// and is returned at once.  `max_stops` bounds how many stops the engine
/// will process; a caller that wants no practical bound passes `u64::MAX`.
pub fn trace<S: CallSink>(
    process: &Process,
    memory_table: &mut MetaMemoryTable,
    sink: &mut S,
    max_stops: u64,
) -> (r: Result<(), TraceError>)
    requires
        process.spec_pid() is Some,
        process.spec_gate_applied(),
        old(memory_table).inv(),
    ensures
        final(memory_table).inv(),
        r is Ok ==> exists|caps: Seq<Regs>|
            {
                &&& final(sink).log() == old(sink).log() + calls_of(
                    #[trigger] norm_seq(old(memory_table).model(), caps),
                ) + seq![SinkEvent::Exited]
                &&& final(memory_table).model() == norm_model(old(memory_table).model(), caps)
            },
        r is Err ==> exists|caps: Seq<Regs>|
            final(sink).log() == old(sink).log() + calls_of(
                #[trigger] norm_seq(old(memory_table).model(), caps),
            ),
{
    let pid = process.pid();
    let ghost model0 = old(memory_table).model();
    let ghost log0 = old(sink).log();
    let ghost mut caps: Seq<Regs> = Seq::empty();
    let mut state = TraceState::AwaitingEntry;
    let mut remaining = max_stops;
    proof {
        assert(norm_seq(model0, caps) == Seq::<I64Regs>::empty());
        assert(calls_of(norm_seq(model0, caps)) =~= Seq::<SinkEvent>::empty());
        assert(log0 + calls_of(norm_seq(model0, caps)) =~= log0);
        assert(norm_model(model0, caps) == model0);
    }
    loop
        invariant_except_break
            memory_table.inv(),
            model0 == old(memory_table).model(),
            log0 == old(sink).log(),
            state is AwaitingEntry || state is AwaitingExit,
            sink.log() == log0 + calls_of(norm_seq(model0, caps)),
            memory_table.model() == norm_model(model0, caps),
        ensures
            memory_table.inv(),
            model0 == old(memory_table).model(),
            log0 == old(sink).log(),
            sink.log() == log0 + calls_of(norm_seq(model0, caps)) + seq![SinkEvent::Exited],
            memory_table.model() == norm_model(model0, caps),
        decreases remaining,
    {
        if remaining == 0 {
            return Err(TraceError::StopLimit);
        }
        remaining = remaining - 1;
        match sys::resume_to_syscall(pid) {
            Ok(_) => {},
            Err(errno) => {
                return Err(TraceError::Resume { errno });
            },
        }
        let outcome = match sys::wait_for_stop(pid) {
            Ok(o) => o,
            Err(errno) => {
                return Err(TraceError::Wait { errno });
            },
        };
        match outcome {
            WaitOutcome::Exited { .. } => {
                sink.emit_exit();
                proof {
                    assert(log0 + calls_of(norm_seq(model0, caps)) + seq![SinkEvent::Exited] =~= (
                    log0 + calls_of(norm_seq(model0, caps))).push(SinkEvent::Exited));
                }
                break;
            },
            _ => {
                if state == TraceState::AwaitingExit {
                    let regs = match sys::read_regs(pid) {
                        Ok(r) => r,
                        Err(errno) => {
                            return Err(TraceError::GetRegs { errno });
                        },
                    };
                    let ghost pre = *memory_table;
                    let nr = match I64Regs::from_regs(&regs, memory_table) {
                        Some(nr) => nr,
                        None => {
                            return Err(TraceError::TableFull { syscall: regs.orig_rax });
                        },
                    };
                    if regs.orig_rax == crate::remote::RECONSTRUCT_SYSCALL {
                        let _record = match crate::remote::read_remote_stat(pid, regs.rdx) {
                            Ok(rec) => rec,
                            Err(e) => {
                                return Err(e);
                            },
                        };
                    }
                    sink.emit_call(&nr);
                    proof {
                        lemma_norm_snoc(model0, caps, regs);
                        assert(norm_model(model0, caps) == pre.model());
                        assert(nr == norm_call(norm_model(model0, caps), regs));
                        assert(norm_seq(model0, caps.push(regs)) == norm_seq(model0, caps).push(
                            nr,
                        ));
                        assert(calls_of(norm_seq(model0, caps.push(regs))) =~= calls_of(
                            norm_seq(model0, caps),
                        ).push(SinkEvent::Call { call: nr }));
                        assert(log0 + calls_of(norm_seq(model0, caps.push(regs))) =~= (log0
                            + calls_of(norm_seq(model0, caps))).push(SinkEvent::Call { call: nr }));
                        caps = caps.push(regs);
                    }
                    state = TraceState::AwaitingEntry;
                } else {
                    state = TraceState::AwaitingExit;
                }
            },
        }
    }
    Ok(())
}

/// The terminal state absorbs everything: driven from `Exited`, the engine
/// captures nothing and stays in `Exited`, whatever else happens.
pub proof fn lemma_exited_is_terminal(events: Seq<TraceEvent>)
    ensures
        run_captures(events, TraceState::Exited) == Seq::<Regs>::empty(),
        run_state(events, TraceState::Exited) == TraceState::Exited,
    decreases events.len(),
{
    if events.len() > 0 && !(events[0] is Exit) {
        lemma_exited_is_terminal(events.subrange(1, events.len() as int));
    }
}

} // verus!
