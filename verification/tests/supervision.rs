use sidecar_supervisor::events::{classify, pump, LogLine, ProcessEvent, Severity, StreamKind};
use sidecar_supervisor::lifecycle::{
    on_spawn_result, plan_shutdown, port_value, sidecar_env, step, LifecycleEvent, ProcState,
};
use sidecar_supervisor::registry::{LifecycleRegistry, ManagedProcess};
use sidecar_supervisor::API_PORT;

#[test]
fn classification_table() {
    let (l, stop) = classify(ProcessEvent::Output(StreamKind::Stdout, b"hi".to_vec()));
    assert!(matches!(&l, LogLine::ApiOut(b) if b == b"hi"));
    assert_eq!(l.severity(), Severity::Info);
    assert!(!stop);

    let (l, stop) = classify(ProcessEvent::Output(StreamKind::Stderr, b"oops".to_vec()));
    assert!(matches!(&l, LogLine::ApiErr(b) if b == b"oops"));
    assert_eq!(l.severity(), Severity::Error);
    assert!(!stop);

    let (l, stop) = classify(ProcessEvent::SpawnError(b"gone".to_vec()));
    assert!(matches!(&l, LogLine::SpawnErr(b) if b == b"gone"));
    assert_eq!(l.severity(), Severity::Error);
    assert!(!stop);

    let (l, stop) = classify(ProcessEvent::Terminated(Some(0)));
    assert!(matches!(l, LogLine::Exited(Some(0))));
    assert_eq!(l.severity(), Severity::Info);
    assert!(stop);
}

#[test]
fn pump_preserves_order() {
    // A scripted child: "A" on stdout, "B" on stderr, then exit 0.
    let events = vec![
        ProcessEvent::Output(StreamKind::Stdout, b"A".to_vec()),
        ProcessEvent::Output(StreamKind::Stderr, b"B".to_vec()),
        ProcessEvent::Terminated(Some(0)),
    ];
    let logs = pump(events);
    assert_eq!(logs.len(), 3);
    assert!(matches!(&logs[0], LogLine::ApiOut(b) if b == b"A"));
    assert!(matches!(&logs[1], LogLine::ApiErr(b) if b == b"B"));
    assert!(matches!(&logs[2], LogLine::Exited(Some(0))));
}

#[test]
fn pump_stops_at_termination() {
    let events = vec![
        ProcessEvent::Terminated(None),
        ProcessEvent::Output(StreamKind::Stdout, b"late".to_vec()),
    ];
    let logs = pump(events);
    assert_eq!(logs.len(), 1);
    assert!(matches!(&logs[0], LogLine::Exited(None)));
}

#[test]
fn pump_drains_unterminated_stream() {
    let events = vec![
        ProcessEvent::Output(StreamKind::Stdout, b"x".to_vec()),
        ProcessEvent::SpawnError(b"broken".to_vec()),
    ];
    let logs = pump(events);
    assert_eq!(logs.len(), 2);
    assert!(matches!(&logs[1], LogLine::SpawnErr(b) if b == b"broken"));
}

#[test]
fn take_at_most_once() {
    let mut reg = LifecycleRegistry::new();
    reg.store(ManagedProcess { pid: 7 });
    assert_eq!(reg.take(), Some(ManagedProcess { pid: 7 }));
    assert_eq!(reg.take(), None);
}

#[test]
fn fresh_registry_is_empty() {
    let mut reg = LifecycleRegistry::new();
    assert_eq!(reg.take(), None);
}

#[test]
fn spawn_failure_stores_nothing() {
    let mut reg = LifecycleRegistry::new();
    let r = on_spawn_result(&mut reg, Err(b"no such executable".to_vec()));
    let failure = r.err().expect("spawn failure expected");
    assert_eq!(failure.reason, b"no such executable".to_vec());
    assert_eq!(reg.take(), None);
}

#[test]
fn spawn_success_stores_handle() {
    let mut reg = LifecycleRegistry::new();
    let r = on_spawn_result(&mut reg, Ok(ManagedProcess { pid: 41 }));
    assert!(r.is_ok());
    assert_eq!(reg.take(), Some(ManagedProcess { pid: 41 }));
}

#[test]
fn shutdown_takes_then_kills_then_reaps() {
    let mut reg = LifecycleRegistry::new();
    reg.store(ManagedProcess { pid: 77 });
    let first = plan_shutdown(&mut reg, API_PORT);
    assert_eq!(first.kill_pid, Some(77));
    assert_eq!(first.reap_port, 3620);
    // A second trigger finds the slot already emptied: no second kill,
    // only the defensive reap remains.
    let second = plan_shutdown(&mut reg, API_PORT);
    assert_eq!(second.kill_pid, None);
    assert_eq!(second.reap_port, 3620);
}

#[test]
fn state_machine_transitions() {
    let s = step(ProcState::NotStarted, LifecycleEvent::SpawnRequested);
    assert_eq!(s, ProcState::Starting);
    let s = step(s, LifecycleEvent::HandleStored);
    assert_eq!(s, ProcState::Running);
    assert_eq!(step(s, LifecycleEvent::TerminatedObserved), ProcState::Terminated);
    assert_eq!(step(s, LifecycleEvent::KillIssued), ProcState::Killed);
}

#[test]
fn end_states_absorb() {
    for e in [
        LifecycleEvent::SpawnRequested,
        LifecycleEvent::HandleStored,
        LifecycleEvent::TerminatedObserved,
        LifecycleEvent::KillIssued,
    ] {
        assert_eq!(step(ProcState::Terminated, e), ProcState::Terminated);
        assert_eq!(step(ProcState::Killed, e), ProcState::Killed);
    }
}

#[test]
fn environment_of_the_child() {
    let env = sidecar_env(API_PORT);
    assert_eq!(env.len(), 2);
    assert_eq!(env[0].0, "PORT");
    assert_eq!(env[0].1, "3620");
    assert_eq!(env[1].0, "NODE_ENV");
    assert_eq!(env[1].1, "production");
}

#[test]
fn port_rendering() {
    assert_eq!(port_value(0), "0");
    assert_eq!(port_value(65535), "65535");
    assert_eq!(port_value(3620), "3620");
}
