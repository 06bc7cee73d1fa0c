use port_kill::batch::{targets_of, KillAll, Target};
use port_kill::termination::{SignalError, SignalFault, SignalKind, TerminationError, Tool};
use port_kill::types::ProcessInfo;
use std::collections::HashMap;

fn process(pid: i32, port: u16) -> ProcessInfo {
    ProcessInfo {
        pid,
        port,
        command: "node".to_string(),
        name: "node".to_string(),
        container_id: None,
        container_name: None,
    }
}

fn denied() -> TerminationError {
    TerminationError::SignalFailed {
        kind: SignalKind::Graceful,
        error: SignalError {
            fault: SignalFault::PermissionDenied,
            description: "EPERM: Operation not permitted".to_string(),
        },
    }
}

fn three() -> Vec<Target> {
    vec![
        Target { port: 3000, pid: 111 },
        Target { port: 8000, pid: 222 },
        Target { port: 8080, pid: -5 },
    ]
}

#[test]
fn a_batch_without_targets_succeeds() {
    let batch = KillAll::begin(Vec::new());
    assert_eq!(batch.next_target(), None);
    assert_eq!(batch.finish(), Ok(()));
    let batch = batch.record(Err(denied()));
    assert_eq!(batch.attempted(), 0);
    assert_eq!(batch.finish(), Ok(()));
}

#[test]
fn every_target_is_attempted_whatever_failed_before() {
    let mut batch = KillAll::begin(three());
    let mut attempted = Vec::new();
    let results = vec![Err(denied()), Ok(()), Err(TerminationError::Unavailable(Tool::ListContainers))];
    for result in results {
        attempted.push(batch.next_target().expect("a target is left"));
        batch = batch.record(result);
    }
    assert_eq!(attempted, three());
    assert_eq!(batch.next_target(), None);
    assert_eq!(batch.attempted(), 3);
    assert_eq!(batch.failures().len(), 2);
    assert_eq!(
        batch.finish(),
        Err("Some processes failed to kill: \
             Port 3000 (PID 111): Failed to kill process: EPERM: Operation not permitted; \
             Port 8080 (PID -5): Failed to execute docker ps command"
            .to_string())
    );
}

#[test]
fn the_batch_reports_as_many_failures_as_there_were() {
    for failing in 0u32..8 {
        let mut batch = KillAll::begin(three());
        let mut failed = 0;
        for k in 0..3 {
            let fails = failing & (1 << k) != 0;
            if fails {
                failed += 1;
            }
            batch = batch.record(if fails { Err(denied()) } else { Ok(()) });
        }
        assert_eq!(batch.attempted(), 3);
        assert_eq!(batch.failures().len(), failed);
        assert_eq!(batch.finish().is_ok(), failed == 0);
    }
}

#[test]
fn one_failure_is_reported_without_a_separator() {
    let batch = KillAll::begin(three()).record(Ok(())).record(Err(denied()));
    assert_eq!(
        batch.finish(),
        Err("Some processes failed to kill: \
             Port 8000 (PID 222): Failed to kill process: EPERM: Operation not permitted"
            .to_string())
    );
}

#[test]
fn results_beyond_the_last_target_are_left_out() {
    let batch = KillAll::begin(vec![Target { port: 1, pid: 1 }])
        .record(Ok(()))
        .record(Err(denied()));
    assert_eq!(batch.attempted(), 1);
    assert_eq!(batch.finish(), Ok(()));
}

#[test]
fn the_targets_of_a_snapshot_are_its_processes() {
    let mut processes = HashMap::new();
    assert_eq!(targets_of(&processes), Vec::new());
    processes.insert(3000, process(111, 3000));
    processes.insert(8000, process(222, 8000));
    processes.insert(8080, process(111, 8080));
    let mut targets = targets_of(&processes);
    targets.sort_by_key(|target| target.port);
    assert_eq!(
        targets,
        vec![
            Target { port: 3000, pid: 111 },
            Target { port: 8000, pid: 222 },
            Target { port: 8080, pid: 111 },
        ]
    );
}
