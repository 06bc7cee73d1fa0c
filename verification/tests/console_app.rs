use port_kill::console_app::{
    banner, console_report, process_line_of, report_in_order, status_line_of, tray_report,
};
use port_kill::probe::{range_command_line, Probe};
use port_kill::types::{ProcessInfo, ProcessUpdate, StatusBarInfo};
use std::collections::HashMap;

fn process(pid: i32, port: u16, command: &str, name: &str) -> ProcessInfo {
    ProcessInfo {
        pid,
        port,
        command: command.to_string(),
        name: name.to_string(),
        container_id: None,
        container_name: None,
    }
}

#[test]
fn the_banner_says_what_is_monitored() {
    assert_eq!(
        banner("port range: 3000-3010"),
        vec![
            "🚀 Port Kill Console Monitor Started!",
            "📡 Monitoring port range: 3000-3010 every 2 seconds...",
            "💡 Press Ctrl+C to quit",
            "",
        ]
    );
}

#[test]
fn the_status_line_gives_label_and_tooltip() {
    assert_eq!(
        status_line_of(&StatusBarInfo::from_process_count(0)),
        "🔄 Port Status: 0 - No development processes running"
    );
    assert_eq!(
        status_line_of(&StatusBarInfo::from_process_count(3)),
        "🔄 Port Status: 3 - 3 development process(es) running"
    );
}

#[test]
fn a_process_line_names_the_container_if_it_is_known_by_name() {
    let mut found = process(111, 3000, "/usr/sbin/nginx", "nginx");
    assert_eq!(
        process_line_of(3000, &found, true),
        "   • Port 3000: nginx (PID 111) - /usr/sbin/nginx"
    );
    assert_eq!(
        process_line_of(3000, &found, false),
        "   • Port 3000: nginx (PID 111)"
    );
    found.container_id = Some("abc123".to_string());
    assert_eq!(
        process_line_of(3000, &found, true),
        "   • Port 3000: nginx (PID 111) - /usr/sbin/nginx"
    );
    found.container_name = Some("web".to_string());
    assert_eq!(
        process_line_of(3000, &found, true),
        "   • Port 3000: nginx (PID 111) - /usr/sbin/nginx [Docker: web]"
    );
    assert_eq!(
        process_line_of(3000, &found, false),
        "   • Port 3000: nginx (PID 111)"
    );
}

#[test]
fn an_empty_update_is_reported_in_one_line() {
    assert_eq!(
        console_report(&ProcessUpdate::empty()),
        vec!["🔄 Port Status: 0 - No development processes running"]
    );
    assert_eq!(
        tray_report(&HashMap::new()),
        vec!["🔄 Port Status: 0 - No development processes running"]
    );
}

#[test]
fn an_update_is_reported_process_by_process() {
    let mut processes = HashMap::new();
    processes.insert(4000, process(111, 4000, "/usr/bin/node", "node"));
    assert_eq!(
        console_report(&ProcessUpdate::new(processes.clone())),
        vec![
            "🔄 Port Status: 1 - 1 development process(es) running",
            "📋 Detected Processes:",
            "   • Port 4000: node (PID 111) - /usr/bin/node",
            "",
        ]
    );
    assert_eq!(
        tray_report(&processes),
        vec![
            "🔄 Port Status: 1 - 1 development process(es) running",
            "📋 Detected Processes:",
            "   • Port 4000: node (PID 111)",
        ]
    );

    processes.insert(5000, process(222, 5000, "python3", "python3"));
    let lines = console_report(&ProcessUpdate::new(processes.clone()));
    assert_eq!(lines.len(), 5);
    assert_eq!(lines[0], "🔄 Port Status: 2 - 2 development process(es) running");
    assert_eq!(lines[4], "");
    let mut middle = lines[2..4].to_vec();
    middle.sort();
    assert_eq!(
        middle,
        vec![
            "   • Port 4000: node (PID 111) - /usr/bin/node",
            "   • Port 5000: python3 (PID 222) - python3",
        ]
    );

    assert_eq!(
        report_in_order(&processes, 2, &vec![5000, 1, 4000], true),
        vec![
            "🔄 Port Status: 2 - 2 development process(es) running",
            "📋 Detected Processes:",
            "   • Port 5000: python3 (PID 222) - python3",
            "   • Port 4000: node (PID 111) - /usr/bin/node",
            "",
        ]
    );
}

#[test]
fn the_count_of_an_update_decides_whether_processes_are_listed() {
    let mut processes = HashMap::new();
    processes.insert(4000, process(111, 4000, "node", "node"));
    let mut update = ProcessUpdate::new(processes);
    update.count = 0;
    assert_eq!(
        console_report(&update),
        vec!["🔄 Port Status: 0 - No development processes running"]
    );
}

#[test]
fn each_probe_has_its_command() {
    let line = |probe: Probe| probe.command_line();
    assert_eq!(
        line(Probe::PortOwner(3000)),
        vec!["lsof", "-ti", ":3000", "-sTCP:LISTEN"]
    );
    assert_eq!(
        line(Probe::ProcessCommand(111)),
        vec!["ps", "-p", "111", "-o", "comm="]
    );
    assert_eq!(
        line(Probe::Containers),
        vec!["docker", "ps", "--format", "table {{.ID}}\t{{.Names}}\t{{.Ports}}"]
    );
    assert_eq!(
        line(Probe::ContainerProcesses("abc123".to_string())),
        vec!["docker", "top", "abc123"]
    );
    assert_eq!(
        line(Probe::ContainerName("abc123".to_string())),
        vec!["docker", "inspect", "--format", "{{.Name}}", "abc123"]
    );
    assert_eq!(
        line(Probe::StopContainer("abc123".to_string())),
        vec!["docker", "stop", "abc123"]
    );
    assert_eq!(
        line(Probe::RemoveContainer("abc123".to_string())),
        vec!["docker", "rm", "-f", "abc123"]
    );
    assert_eq!(line(Probe::ProcessAlive(333)), vec!["ps", "-p", "333"]);
    assert_eq!(line(Probe::ProcessAlive(-1)), vec!["ps", "-p", "-1"]);
}

#[test]
fn a_range_of_ports_is_listed_by_one_command() {
    assert_eq!(
        range_command_line(2000, 6000, true),
        vec!["lsof", "-i", ":2000-6000", "-sTCP:LISTEN", "-P", "-n"]
    );
    assert_eq!(
        range_command_line(2000, 6000, false),
        vec!["lsof", "-ti", ":2000-6000", "-sTCP:LISTEN"]
    );
}
