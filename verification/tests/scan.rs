use port_kill::probe::{CommandOutput, Probe};
use port_kill::scan::{Scan, ScanStage};
use port_kill::types::ProcessInfo;

fn printed(text: &str) -> CommandOutput {
    CommandOutput {
        success: true,
        stdout: text.to_string(),
        stderr: String::new(),
    }
}

fn failed() -> CommandOutput {
    CommandOutput {
        success: false,
        stdout: String::new(),
        stderr: "failed".to_string(),
    }
}

fn plain(pid: i32, port: u16, command: &str, name: &str) -> ProcessInfo {
    ProcessInfo {
        pid,
        port,
        command: command.to_string(),
        name: name.to_string(),
        container_id: None,
        container_name: None,
    }
}

const CONTAINERS: &str = "CONTAINER ID\tNAMES\tPORTS\nabc123\tweb\t3000/tcp\n";

/// Runs the scan against the replies given and hands back the probes that it
/// asked for, and the scan at the end.
fn run(mut scan: Scan, replies: Vec<Option<CommandOutput>>) -> (Vec<Option<Probe>>, Scan) {
    let mut asked = vec![scan.probe()];
    for reply in replies {
        scan = scan.advance(reply);
        asked.push(scan.probe());
    }
    (asked, scan)
}

#[test]
fn a_scan_of_no_port_is_finished() {
    let scan = Scan::begin(Vec::new(), true);
    assert!(scan.is_finished());
    assert_eq!(scan.probe(), None);
    let scan = scan.advance(Some(printed("111\n")));
    assert!(scan.is_finished());
    assert!(scan.into_snapshot().is_empty());
}

#[test]
fn each_port_is_asked_for_its_owner_and_the_owner_for_its_command() {
    let (asked, scan) = run(
        Scan::begin(vec![3000, 4000, 5000], false),
        vec![
            Some(printed("111\n")),
            Some(printed("/usr/bin/node\n")),
            Some(failed()),
            Some(printed("222\n")),
            Some(failed()),
        ],
    );
    assert_eq!(
        asked,
        vec![
            Some(Probe::PortOwner(3000)),
            Some(Probe::ProcessCommand(111)),
            Some(Probe::PortOwner(4000)),
            Some(Probe::PortOwner(5000)),
            Some(Probe::ProcessCommand(222)),
            None,
        ]
    );
    assert!(scan.is_finished());
    let found = scan.into_snapshot();
    assert_eq!(found.len(), 2);
    assert_eq!(found[&3000], plain(111, 3000, "/usr/bin/node", "node"));
    assert_eq!(found[&5000], plain(222, 5000, "unknown", "unknown"));
    assert!(!found.contains_key(&4000));
}

#[test]
fn a_probe_that_cannot_be_run_costs_one_port() {
    let (asked, scan) = run(
        Scan::begin(vec![3000, 4000, 5000], false),
        vec![
            None,
            Some(printed("222\n")),
            None,
            Some(printed("333\n")),
            Some(printed("deno\n")),
        ],
    );
    assert_eq!(
        asked,
        vec![
            Some(Probe::PortOwner(3000)),
            Some(Probe::PortOwner(4000)),
            Some(Probe::ProcessCommand(222)),
            Some(Probe::PortOwner(5000)),
            Some(Probe::ProcessCommand(333)),
            None,
        ]
    );
    let found = scan.into_snapshot();
    assert_eq!(found.len(), 1);
    assert_eq!(found[&5000], plain(333, 5000, "deno", "deno"));
}

#[test]
fn an_owner_that_cannot_be_read_leaves_the_port_out() {
    let (asked, scan) = run(
        Scan::begin(vec![3000, 4000], false),
        vec![Some(printed("111\n222\n")), Some(printed("\n"))],
    );
    assert_eq!(
        asked,
        vec![Some(Probe::PortOwner(3000)), Some(Probe::PortOwner(4000)), None]
    );
    assert!(scan.into_snapshot().is_empty());
}

#[test]
fn a_process_in_a_container_gets_its_identifier_and_name() {
    let (asked, scan) = run(
        Scan::begin(vec![3000], true),
        vec![
            Some(printed("111\n")),
            Some(printed("nginx\n")),
            Some(printed(CONTAINERS)),
            Some(printed("UID PID\nroot 111\n")),
            Some(printed("/web\n")),
        ],
    );
    assert_eq!(
        asked,
        vec![
            Some(Probe::PortOwner(3000)),
            Some(Probe::ProcessCommand(111)),
            Some(Probe::Containers),
            Some(Probe::ContainerProcesses("abc123".to_string())),
            Some(Probe::ContainerName("abc123".to_string())),
            None,
        ]
    );
    let found = scan.into_snapshot();
    assert_eq!(
        found[&3000],
        ProcessInfo {
            pid: 111,
            port: 3000,
            command: "nginx".to_string(),
            name: "nginx".to_string(),
            container_id: Some("abc123".to_string()),
            container_name: Some("web".to_string()),
        }
    );
}

#[test]
fn a_name_that_cannot_be_learnt_leaves_the_identifier_alone() {
    let listed = || {
        Scan::begin(vec![3000], true)
            .advance(Some(printed("111\n")))
            .advance(Some(printed("nginx\n")))
            .advance(Some(printed(CONTAINERS)))
            .advance(Some(printed("UID PID\nroot 111\n")))
    };
    assert_eq!(
        listed().stage(),
        &ScanStage::Name {
            pid: 111,
            command: "nginx".to_string(),
            container_id: "abc123".to_string()
        }
    );
    let found = listed().advance(None).into_snapshot();
    assert_eq!(found[&3000].container_id, Some("abc123".to_string()));
    assert_eq!(found[&3000].container_name, None);

    let found = listed().advance(Some(failed())).into_snapshot();
    assert_eq!(found[&3000].container_id, Some("abc123".to_string()));
    assert_eq!(found[&3000].container_name, Some("abc123".to_string()));
}

#[test]
fn a_process_in_no_container_is_filed_without_one() {
    let described = || {
        Scan::begin(vec![3000, 4000], true)
            .advance(Some(printed("111\n")))
            .advance(Some(printed("/opt/node\n")))
    };
    let expected = plain(111, 3000, "/opt/node", "node");

    let absent = described()
        .advance(Some(printed(CONTAINERS)))
        .advance(Some(printed("UID PID\nroot 4242\n")));
    assert_eq!(absent.probe(), Some(Probe::PortOwner(4000)));
    assert_eq!(absent.into_snapshot()[&3000], expected);

    let no_docker = described().advance(None);
    assert_eq!(no_docker.probe(), Some(Probe::PortOwner(4000)));
    assert_eq!(no_docker.into_snapshot()[&3000], expected);

    let no_top = described().advance(Some(printed(CONTAINERS))).advance(None);
    assert_eq!(no_top.probe(), Some(Probe::PortOwner(4000)));
    assert_eq!(no_top.into_snapshot()[&3000], expected);

    let docker_down = described().advance(Some(failed()));
    assert_eq!(docker_down.into_snapshot()[&3000], expected);
}

#[test]
fn a_port_that_is_given_twice_is_looked_at_twice() {
    let (asked, scan) = run(
        Scan::begin(vec![3000, 3000], false),
        vec![
            Some(printed("111\n")),
            Some(printed("node\n")),
            Some(printed("222\n")),
            Some(printed("deno\n")),
        ],
    );
    assert_eq!(asked.len(), 5);
    let found = scan.into_snapshot();
    assert_eq!(found.len(), 1);
    assert_eq!(found[&3000], plain(222, 3000, "deno", "deno"));
}
