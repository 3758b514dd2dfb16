use testchamber::memtable::MetaMemoryTable;
use testchamber::normalized_regs::Regs;
use testchamber::syscall_table::{RawRow, SyscallTable};
use testchamber::process::Process;
use testchamber::trace::{
    run_script, trace, CallSink, SinkEvent, TraceError, TraceEvent, TraceState, VecSink,
};

fn stop(orig_rax: u64, rdi: u64, rsi: u64, rdx: u64, rax: u64) -> TraceEvent {
    TraceEvent::Stop { regs: Regs { orig_rax, rdi, rsi, rdx, rax } }
}

/// Two boundary stops per syscall: the entry stop's registers are
/// in-flight garbage the engine must ignore; the exit stop's are captured.
fn one_call(entry_garbage: u64, exit_regs: TraceEvent) -> Vec<TraceEvent> {
    vec![stop(999, entry_garbage, entry_garbage, entry_garbage, entry_garbage), exit_regs]
}

#[test]
fn a_tracee_with_k_syscalls_emits_k_calls_then_one_exit() {
    let k = 3;
    let mut events: Vec<TraceEvent> = Vec::new();
    for i in 0..k {
        events.extend(one_call(0xbad, stop(1, 0x100 + i as u64, 2, 3, 0)));
    }
    events.push(TraceEvent::Exit);

    let mut mt = MetaMemoryTable::new();
    let mut sink = VecSink::new();
    let end = run_script(&events, &mut mt, &mut sink).unwrap();
    assert_eq!(end, TraceState::Exited);

    let log = sink.events();
    assert_eq!(log.len(), k + 1);
    for i in 0..k {
        assert!(matches!(log[i], SinkEvent::Call { .. }));
    }
    assert_eq!(log[k], SinkEvent::Exited);
}

#[test]
fn nothing_happens_after_the_exit_event() {
    // Events past the tracee's exit are never consumed: the run ends at the
    // first exit, whatever follows it.
    let mut events = one_call(7, stop(1, 1, 2, 3, 4));
    events.push(TraceEvent::Exit);
    events.extend(one_call(8, stop(2, 5, 6, 7, 8)));
    events.push(TraceEvent::Exit);

    let mut mt = MetaMemoryTable::new();
    let mut sink = VecSink::new();
    let end = run_script(&events, &mut mt, &mut sink).unwrap();
    assert_eq!(end, TraceState::Exited);
    let log = sink.events();
    assert_eq!(log.len(), 2);
    assert!(matches!(log[0], SinkEvent::Call { .. }));
    assert_eq!(log[1], SinkEvent::Exited);
    // Syscall number 2 was never reached, so its namespace stayed empty.
    assert_eq!(mt.counter_of(2), 0);
}

#[test]
fn an_immediate_exit_emits_only_the_exit_notification() {
    let events = vec![TraceEvent::Exit];
    let mut mt = MetaMemoryTable::new();
    let mut sink = VecSink::new();
    let end = run_script(&events, &mut mt, &mut sink).unwrap();
    assert_eq!(end, TraceState::Exited);
    assert_eq!(sink.events().as_slice(), &[SinkEvent::Exited]);
}

#[test]
fn a_lone_entry_stop_leaves_the_engine_awaiting_the_exit_stop() {
    let events = vec![stop(1, 1, 2, 3, 4)];
    let mut mt = MetaMemoryTable::new();
    let mut sink = VecSink::new();
    let end = run_script(&events, &mut mt, &mut sink).unwrap();
    assert_eq!(end, TraceState::AwaitingExit);
    assert_eq!(sink.events().len(), 0);
}

#[test]
fn end_to_end_two_calls_with_the_same_argument_share_identifier_zero() {
    // A program that calls syscall number 1 twice with argument 0xFF and
    // exits: both trace lines must show identifier 0 (hex 0) for that
    // argument, and one exit line follows.
    let exit_regs = stop(1, 0xff, 0x1111, 0x2222, 0x3333);
    let mut events = one_call(0xdead, exit_regs);
    events.extend(one_call(0xbeef, exit_regs));
    events.push(TraceEvent::Exit);

    let mut mt = MetaMemoryTable::new();
    let mut sink = VecSink::new();
    let end = run_script(&events, &mut mt, &mut sink).unwrap();
    assert_eq!(end, TraceState::Exited);

    let rows = vec![RawRow {
        number: Some(1),
        name: Some("write".to_owned()),
        arg_types: Vec::new(),
    }];
    let table = SyscallTable::new(&rows).unwrap();

    let mut lines: Vec<String> = Vec::new();
    for ev in sink.events() {
        match ev {
            SinkEvent::Call { call } => lines.push(call.format(&table)),
            SinkEvent::Exited => lines.push("exited".to_owned()),
        }
    }
    assert_eq!(lines.len(), 3);
    assert_eq!(lines[0], "write(0, 1, 2, ...) = 3");
    assert_eq!(lines[1], "write(0, 1, 2, ...) = 3");
    assert_eq!(lines[2], "exited");
}

#[test]
fn the_sink_trait_accepts_any_implementation() {
    struct Counter {
        calls: usize,
        exits: usize,
    }
    impl CallSink for Counter {
        fn emit_call(&mut self, _c: &testchamber::normalized_regs::I64Regs) {
            self.calls += 1;
        }
        fn emit_exit(&mut self) {
            self.exits += 1;
        }
    }
    let mut events = one_call(1, stop(1, 2, 3, 4, 5));
    events.push(TraceEvent::Exit);
    let mut mt = MetaMemoryTable::new();
    let mut sink = Counter { calls: 0, exits: 0 };
    run_script(&events, &mut mt, &mut sink).unwrap();
    assert_eq!(sink.calls, 1);
    assert_eq!(sink.exits, 1);
}

#[test]
fn a_zero_stop_budget_ends_the_trace_with_the_limit_error() {
    let mut p = Process::new("/bin/true".to_owned(), Some(Vec::new()));
    p.build_command();
    p.install_gate();
    p.set_pre_exec().unwrap();
    p.spawn(1);
    let mut mt = MetaMemoryTable::new();
    let mut sink = VecSink::new();
    assert_eq!(trace(&p, &mut mt, &mut sink, 0), Err(TraceError::StopLimit));
    assert_eq!(sink.events().len(), 0);
}

#[test]
fn a_tracee_that_cannot_be_resumed_is_a_fatal_resume_error() {
    // No process can have the identifier -1, so the first resume fails.
    let mut p = Process::new("/bin/true".to_owned(), Some(Vec::new()));
    p.build_command();
    p.install_gate();
    p.set_pre_exec().unwrap();
    p.spawn(-1);
    let mut mt = MetaMemoryTable::new();
    let mut sink = VecSink::new();
    match trace(&p, &mut mt, &mut sink, 16) {
        Err(TraceError::Resume { errno }) => assert!(errno != 0),
        other => panic!("resuming a nonexistent tracee must fail: {other:?}"),
    }
    assert_eq!(sink.events().len(), 0);
}
