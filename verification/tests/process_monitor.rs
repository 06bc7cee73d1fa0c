use crossbeam_channel::bounded;
use port_kill::batch::Target;
use port_kill::probe::Probe;
use port_kill::process_monitor::{
    Delivery, MonitorStep, ProcessMonitor, MONITORING_INTERVAL_MS,
};
use port_kill::termination::{Action, SignalKind};
use port_kill::types::{ProcessInfo, ProcessUpdate};
use std::collections::HashMap;

fn process(pid: i32, port: u16, command: &str) -> ProcessInfo {
    ProcessInfo {
        pid,
        port,
        command: command.to_string(),
        name: command.to_string(),
        container_id: None,
        container_name: None,
    }
}

fn snapshot(processes: Vec<ProcessInfo>) -> HashMap<u16, ProcessInfo> {
    processes
        .into_iter()
        .map(|process| (process.port, process))
        .collect()
}

fn monitor(ports: Vec<u16>) -> ProcessMonitor {
    let (sender, _receiver) = bounded(100);
    ProcessMonitor::new(sender, ports, false)
}

#[test]
fn the_interval_is_two_seconds() {
    assert_eq!(MONITORING_INTERVAL_MS, 2000);
}

#[test]
fn a_replaced_process_is_published_whole() {
    let (sender, receiver) = bounded(100);
    let mut monitor = ProcessMonitor::new(sender, vec![4000], false);

    let first = monitor.report(Some(snapshot(vec![process(111, 4000, "node")])));
    assert!(matches!(first, Delivery::Sent(1)));
    let second = monitor.report(Some(snapshot(vec![process(222, 4000, "python")])));
    assert!(matches!(second, Delivery::Sent(1)));

    let update = receiver.try_recv().expect("the first update");
    assert_eq!(update.count, 1);
    assert_eq!(update.processes.len(), 1);
    assert_eq!(update.processes[&4000], process(111, 4000, "node"));
    let update = receiver.try_recv().expect("the second update");
    assert_eq!(update.count, 1);
    assert_eq!(update.processes.len(), 1);
    assert_eq!(update.processes[&4000], process(222, 4000, "python"));
    assert!(receiver.try_recv().is_err());
}

#[test]
fn the_same_snapshot_is_published_once() {
    let (sender, receiver) = bounded(100);
    let mut monitor = ProcessMonitor::new(sender, vec![3000, 4000], false);
    let s1 = || snapshot(vec![process(111, 3000, "node")]);
    let s2 = || snapshot(vec![process(111, 3000, "node"), process(222, 4000, "deno")]);

    assert!(matches!(monitor.report(Some(s1())), Delivery::Sent(1)));
    assert!(matches!(monitor.report(Some(s1())), Delivery::Unchanged));
    assert!(matches!(monitor.report(Some(s2())), Delivery::Sent(2)));
    assert!(matches!(monitor.report(Some(s2())), Delivery::Unchanged));

    assert_eq!(receiver.try_recv().unwrap().count, 1);
    assert_eq!(receiver.try_recv().unwrap().count, 2);
    assert!(receiver.try_recv().is_err());
}

#[test]
fn the_first_empty_snapshot_is_no_change() {
    let mut monitor = monitor(vec![3000]);
    assert!(monitor.reconcile(Some(HashMap::new())).is_none());
    assert!(monitor
        .reconcile(Some(snapshot(vec![process(111, 3000, "node")])))
        .is_some());
    let update = monitor.reconcile(Some(HashMap::new())).expect("it changed");
    assert_eq!(update.count, 0);
    assert!(update.processes.is_empty());
}

#[test]
fn a_change_in_any_field_is_a_change() {
    let mut monitor = monitor(vec![3000]);
    let base = process(111, 3000, "node");
    assert!(monitor.reconcile(Some(snapshot(vec![base.clone()]))).is_some());

    let mut renamed = base.clone();
    renamed.command = "/usr/bin/node".to_string();
    assert!(monitor.reconcile(Some(snapshot(vec![renamed.clone()]))).is_some());

    let mut contained = renamed.clone();
    contained.container_id = Some("abc123".to_string());
    assert!(monitor.reconcile(Some(snapshot(vec![contained.clone()]))).is_some());

    let mut named = contained.clone();
    named.container_name = Some("web".to_string());
    assert!(monitor.reconcile(Some(snapshot(vec![named.clone()]))).is_some());
    assert!(monitor.reconcile(Some(snapshot(vec![named]))).is_none());
}

#[test]
fn a_pass_that_could_not_be_made_changes_nothing() {
    let mut monitor = monitor(vec![3000]);
    let s1 = || snapshot(vec![process(111, 3000, "node")]);
    assert!(monitor.reconcile(Some(s1())).is_some());
    assert!(monitor.reconcile(None).is_none());
    assert!(matches!(monitor.report(None), Delivery::Unchanged));
    assert!(monitor.reconcile(Some(s1())).is_none());
}

#[test]
fn an_update_goes_into_the_channel_as_it_is() {
    let (sender, receiver) = bounded(100);
    let monitor = ProcessMonitor::new(sender, vec![3000], false);
    let update = ProcessUpdate::new(snapshot(vec![process(111, 3000, "node")]));
    assert!(monitor.publish(update).is_ok());
    let received = receiver.try_recv().expect("the update");
    assert_eq!(received.count, 1);
    assert_eq!(received.processes[&3000], process(111, 3000, "node"));
}

#[test]
fn an_update_comes_back_from_a_disconnected_channel() {
    let (sender, receiver) = bounded(100);
    let mut monitor = ProcessMonitor::new(sender, vec![3000], false);
    drop(receiver);
    let update = ProcessUpdate::new(snapshot(vec![process(111, 3000, "node")]));
    let returned = monitor.publish(update).expect_err("nobody listens");
    assert_eq!(returned.count, 1);
    assert_eq!(returned.processes[&3000], process(111, 3000, "node"));

    match monitor.report(Some(snapshot(vec![process(222, 3000, "deno")]))) {
        Delivery::Unsent(update) => {
            assert_eq!(update.count, 1);
            assert_eq!(update.processes[&3000], process(222, 3000, "deno"));
        }
        other => panic!("unexpected {:?}", other),
    }
    assert!(matches!(
        monitor.report(Some(snapshot(vec![process(222, 3000, "deno")]))),
        Delivery::Unchanged
    ));
}

#[test]
fn few_ports_are_announced_one_by_one() {
    assert_eq!(monitor(vec![]).monitoring_description(), "ports: ");
    assert_eq!(
        monitor(vec![3000, 8000, 8080]).monitoring_description(),
        "ports: 3000, 8000, 8080"
    );
    assert_eq!(
        monitor((1..=10).collect()).monitoring_description(),
        "ports: 1, 2, 3, 4, 5, 6, 7, 8, 9, 10"
    );
}

#[test]
fn many_ports_are_announced_by_their_ends() {
    assert_eq!(
        monitor((1..=11).collect()).monitoring_description(),
        "11 ports: 1 to 11"
    );
    assert_eq!(
        monitor((2000..=6000).collect()).monitoring_description(),
        "4001 ports: 2000 to 6000"
    );
}

#[test]
fn a_scan_looks_at_the_ports_of_the_monitor() {
    let scan = monitor(vec![3000, 8080]).begin_scan();
    assert_eq!(scan.ports(), &vec![3000, 8080]);
    assert!(!scan.docker_enabled());
    assert_eq!(scan.probe(), Some(Probe::PortOwner(3000)));

    let (sender, _receiver) = bounded(1);
    let scan = ProcessMonitor::new(sender, vec![1], true).begin_scan();
    assert!(scan.docker_enabled());
}

#[test]
fn ending_a_process_starts_where_the_monitor_says() {
    assert_eq!(
        monitor(vec![]).kill_process(333).action(),
        Action::Signal(SignalKind::Graceful)
    );
    let (sender, _receiver) = bounded(1);
    let with_containers = ProcessMonitor::new(sender, vec![], true);
    assert_eq!(
        with_containers.kill_process(333).action(),
        Action::Run(Probe::Containers)
    );
}

#[test]
fn ending_all_takes_the_snapshot_given() {
    let mut monitor = monitor(vec![3000, 4000]);
    monitor.reconcile(Some(snapshot(vec![process(1, 3000, "old")])));
    let batch = monitor.kill_all_processes(&snapshot(vec![
        process(111, 3000, "node"),
        process(222, 4000, "deno"),
    ]));
    let mut targets = batch.targets().clone();
    targets.sort_by_key(|target| target.port);
    assert_eq!(
        targets,
        vec![
            Target { port: 3000, pid: 111 },
            Target { port: 4000, pid: 222 }
        ]
    );
    assert_eq!(batch.attempted(), 0);
    assert!(monitor.kill_all_processes(&HashMap::new()).finish().is_ok());
}

#[test]
fn the_monitor_samples_and_rests_in_turn() {
    let mut monitor = monitor(vec![3000]);
    assert_eq!(monitor.next_step(), MonitorStep::Sample);
    monitor.report(Some(snapshot(vec![process(111, 3000, "node")])));
    assert_eq!(monitor.next_step(), MonitorStep::Rest(2000));
    monitor.interval_elapsed();
    assert_eq!(monitor.next_step(), MonitorStep::Sample);
    monitor.report(None);
    assert_eq!(monitor.next_step(), MonitorStep::Rest(2000));
    monitor.interval_elapsed();
    assert_eq!(monitor.next_step(), MonitorStep::Sample);
    assert!(monitor
        .reconcile(Some(snapshot(vec![process(111, 3000, "node")])))
        .is_none());
    assert_eq!(monitor.next_step(), MonitorStep::Sample);
}
