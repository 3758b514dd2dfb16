use testchamber::process::{Process, ProcessError};

fn descriptor() -> Process {
    Process::new("/bin/true".to_owned(), Some(vec!["--version".to_owned()]))
}

#[test]
fn a_fresh_descriptor_keeps_its_executable_and_arguments() {
    let p = descriptor();
    assert_eq!(p.executable(), "/bin/true");
    assert_eq!(p.args().as_ref().unwrap().len(), 1);
    assert_eq!(p.args().as_ref().unwrap()[0], "--version");
}

#[test]
fn set_pre_exec_without_a_gate_is_a_recoverable_error() {
    let mut p = descriptor();
    assert_eq!(p.set_pre_exec(), Err(ProcessError::MissingPreExec));
}

#[test]
fn set_pre_exec_applies_an_installed_gate() {
    let mut p = descriptor();
    p.install_gate();
    assert_eq!(p.set_pre_exec(), Ok(()));
}

#[test]
fn a_recorded_spawn_exposes_the_tracee_identifier() {
    let mut p = descriptor();
    p.build_command();
    p.install_gate();
    p.set_pre_exec().unwrap();
    p.spawn(4242);
    assert_eq!(p.pid(), 4242);
}
