use port_kill::types::{same_snapshot, ProcessInfo, ProcessUpdate, StatusBarInfo};
use std::collections::HashMap;

fn process(pid: i32, port: u16, command: &str) -> ProcessInfo {
    ProcessInfo {
        pid,
        port,
        command: command.to_string(),
        name: command.to_string(),
        container_id: None,
        container_name: None,
    }
}

#[test]
fn status_for_no_process() {
    let info = StatusBarInfo::from_process_count(0);
    assert_eq!(info.text, "0");
    assert_eq!(info.tooltip, "No development processes running");
}

#[test]
fn status_for_some_processes() {
    let info = StatusBarInfo::from_process_count(1);
    assert_eq!(info.text, "1");
    assert_eq!(info.tooltip, "1 development process(es) running");
    let info = StatusBarInfo::from_process_count(12);
    assert_eq!(info.text, "12");
    assert_eq!(info.tooltip, "12 development process(es) running");
    let copy = info.clone();
    assert_eq!(copy.text, "12");
    assert_eq!(copy.tooltip, "12 development process(es) running");
}

#[test]
fn an_update_counts_its_processes() {
    let mut processes = HashMap::new();
    processes.insert(3000, process(111, 3000, "node"));
    processes.insert(8080, process(222, 8080, "python"));
    let update = ProcessUpdate::new(processes);
    assert_eq!(update.count, 2);
    assert_eq!(update.processes[&3000], process(111, 3000, "node"));
    assert_eq!(update.processes[&8080].pid, 222);
    let copy = update.clone();
    assert_eq!(copy.count, 2);
    assert!(same_snapshot(&copy.processes, &update.processes));
}

#[test]
fn the_empty_update_holds_nothing() {
    let update = ProcessUpdate::empty();
    assert_eq!(update.count, 0);
    assert!(update.processes.is_empty());
}

#[test]
fn processes_are_equal_field_by_field() {
    let base = process(111, 4000, "node");
    assert_eq!(base, base.clone());
    let mut other = base.clone();
    other.pid = 112;
    assert_ne!(base, other);
    let mut other = base.clone();
    other.port = 4001;
    assert_ne!(base, other);
    let mut other = base.clone();
    other.command = "/usr/bin/node".to_string();
    assert_ne!(base, other);
    let mut other = base.clone();
    other.name = "nodejs".to_string();
    assert_ne!(base, other);
    let mut other = base.clone();
    other.container_id = Some("abc".to_string());
    assert_ne!(base, other);
    let mut named = other.clone();
    named.container_name = Some("web".to_string());
    assert_ne!(named, other);
    assert_eq!(named, named.clone());
}

#[test]
fn snapshots_are_equal_entry_by_entry() {
    let mut a = HashMap::new();
    let mut b = HashMap::new();
    assert!(same_snapshot(&a, &b));
    a.insert(4000, process(111, 4000, "node"));
    assert!(!same_snapshot(&a, &b));
    assert!(!same_snapshot(&b, &a));
    b.insert(4000, process(111, 4000, "node"));
    assert!(same_snapshot(&a, &b));
    b.insert(4000, process(222, 4000, "python"));
    assert!(!same_snapshot(&a, &b));
    b.insert(4000, process(111, 4000, "node"));
    b.insert(4001, process(111, 4001, "node"));
    assert!(!same_snapshot(&a, &b));
    a.insert(4002, process(111, 4001, "node"));
    assert!(!same_snapshot(&a, &b));
    assert!(!same_snapshot(&b, &a));
}
