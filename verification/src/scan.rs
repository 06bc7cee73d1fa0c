//! One sampling pass: for each monitored port in turn, who listens on it,
//! what that process is called and, where containers are looked at, which
//! container it runs in.
//!
//! The scan runs nothing itself. It says which probe it waits for, and is
//! advanced with what that probe left behind. A probe that fails, or cannot
//! be run, costs at most the port at hand: the scan goes on with the next.

use crate::probe::{
    base_name, command_name, container_name, parse_base_name, parse_command_name,
    parse_container_name, parse_port_owner, port_owner, probe_view, reply_view, CommandOutput,
    CommandOutputView, Probe, ProbeView,
};
use crate::search::{
    search_budget, search_ended, search_probe, search_stage_wf, search_step, SearchStage,
    SearchStageView,
};
use crate::types::{snapshot_view, snapshot_wf, ProcessInfo, ProcessInfoView};
use std::collections::HashMap;
use vstd::prelude::*;
use vstd::std_specs::hash::*;

verus! {

broadcast use group_hash_axioms;

/// Where the scan stands on the port at hand.
#[derive(Debug, PartialEq, Eq)]
pub enum ScanStage {
    /// It waits to hear who listens on the port.
    Owner,
    /// It waits for the command of the process that listens.
    Command { pid: i32 },
    /// It looks for the container of the process.
    Container { pid: i32, command: String, search: SearchStage },
    /// It waits for the name of the container of the process.
    Name { pid: i32, command: String, container_id: String },
}

/// Where the scan stands on the port at hand, as plain values.
pub enum ScanStageView {
    Owner,
    Command { pid: i32 },
    Container { pid: i32, command: Seq<char>, search: SearchStageView },
    Name { pid: i32, command: Seq<char>, container_id: Seq<char> },
}

impl View for ScanStage {
    type V = ScanStageView;

    open spec fn view(&self) -> ScanStageView {
        match self {
            ScanStage::Owner => ScanStageView::Owner,
            ScanStage::Command { pid } => ScanStageView::Command { pid: *pid },
            ScanStage::Container { pid, command, search } => ScanStageView::Container {
                pid: *pid,
                command: command@,
                search: search@,
            },
            ScanStage::Name { pid, command, container_id } => ScanStageView::Name {
                pid: *pid,
                command: command@,
                container_id: container_id@,
            },
        }
    }
}

/// A sampling pass: the ports to look at, the one at hand, and what was
/// found on those before it.
#[derive(Debug)]
pub struct Scan {
    ports: Vec<u16>,
    docker_enabled: bool,
    position: usize,
    stage: ScanStage,
    found: HashMap<u16, ProcessInfo>,
}

/// A `Scan` as plain values.
pub struct ScanView {
    pub ports: Seq<u16>,
    pub docker_enabled: bool,
    pub position: int,
    pub stage: ScanStageView,
    pub found: Map<u16, ProcessInfoView>,
}

impl View for Scan {
    type V = ScanView;

    closed spec fn view(&self) -> ScanView {
        ScanView {
            ports: self.ports@,
            docker_enabled: self.docker_enabled,
            position: self.position as int,
            stage: self.stage@,
            found: snapshot_view(self.found@),
        }
    }
}

/// The scan of `ports` before any probe.
pub open spec fn scan_begin(ports: Seq<u16>, docker_enabled: bool) -> ScanView {
    ScanView { ports, docker_enabled, position: 0, stage: ScanStageView::Owner, found: Map::empty() }
}

/// Whether every port was looked at.
pub open spec fn scan_finished(scan: ScanView) -> bool {
    !(0 <= scan.position < scan.ports.len())
}

/// What is known of the process `pid` that listens on `port`: the name is
/// what follows the last `/` of the command.
pub open spec fn found_process(
    port: u16,
    pid: i32,
    command: Seq<char>,
    container_id: Option<Seq<char>>,
    container_name: Option<Seq<char>>,
) -> ProcessInfoView {
    ProcessInfoView { pid, port, command, name: base_name(command), container_id, container_name }
}

/// The scan once the port at hand is done with: `process` is filed under its
/// port, if there is one, and the next port is at hand.
pub open spec fn settle(scan: ScanView, process: Option<ProcessInfoView>) -> ScanView {
    ScanView {
        position: scan.position + 1,
        stage: ScanStageView::Owner,
        found: match process {
            Some(process) => scan.found.insert(process.port, process),
            None => scan.found,
        },
        ..scan
    }
}

/// The scan once the search for the container of process `pid` stands at
/// `search`: a container that was found is asked for its name; a process in
/// no container, or whose container could not be looked for, is filed
/// without one.
pub open spec fn after_container(
    scan: ScanView,
    pid: i32,
    command: Seq<char>,
    search: SearchStageView,
) -> ScanView {
    match search {
        SearchStageView::Found(id) => ScanView {
            stage: ScanStageView::Name { pid, command, container_id: id },
            ..scan
        },
        SearchStageView::Absent | SearchStageView::Failed(_) => settle(
            scan,
            Some(found_process(scan.ports[scan.position], pid, command, None, None)),
        ),
        _ => ScanView { stage: ScanStageView::Container { pid, command, search }, ..scan },
    }
}

/// The probe that the scan waits for; none once every port was looked at.
pub open spec fn scan_probe(scan: ScanView) -> Option<ProbeView> {
    if scan_finished(scan) {
        None
    } else {
        match scan.stage {
            ScanStageView::Owner => Some(ProbeView::PortOwner(scan.ports[scan.position])),
            ScanStageView::Command { pid } => Some(ProbeView::ProcessCommand(pid)),
            ScanStageView::Container { search, .. } => search_probe(search),
            ScanStageView::Name { container_id, .. } => Some(ProbeView::ContainerName(container_id)),
        }
    }
}

/// The scan after the probe that it waited for left `reply` behind; `None`
/// says that the probe could not be run.
///
/// A port that nobody listens on, or whose owner or command cannot be
/// learnt, is left out. Where containers are not looked at, the process is
/// filed as soon as its command is known. Where they are, its container is
/// searched for first, and the container's name asked for if one is found:
/// a name that cannot be learnt leaves the process with the identifier of
/// its container alone. A scan that has looked at every port stays as it is.
pub open spec fn scan_step(scan: ScanView, reply: Option<CommandOutputView>) -> ScanView {
    if scan_finished(scan) {
        scan
    } else {
        match scan.stage {
            ScanStageView::Owner => match reply {
                Some(output) => match port_owner(output) {
                    Some(pid) => ScanView { stage: ScanStageView::Command { pid }, ..scan },
                    None => settle(scan, None),
                },
                None => settle(scan, None),
            },
            ScanStageView::Command { pid } => match reply {
                Some(output) => if scan.docker_enabled {
                    ScanView {
                        stage: ScanStageView::Container {
                            pid,
                            command: command_name(output),
                            search: SearchStageView::Listing,
                        },
                        ..scan
                    }
                } else {
                    settle(
                        scan,
                        Some(
                            found_process(
                                scan.ports[scan.position],
                                pid,
                                command_name(output),
                                None,
                                None,
                            ),
                        ),
                    )
                },
                None => settle(scan, None),
            },
            ScanStageView::Container { pid, command, search } => after_container(
                scan,
                pid,
                command,
                search_step(pid, search, reply),
            ),
            ScanStageView::Name { pid, command, container_id } => settle(
                scan,
                Some(
                    found_process(
                        scan.ports[scan.position],
                        pid,
                        command,
                        Some(container_id),
                        match reply {
                            Some(output) => Some(container_name(output, container_id)),
                            None => None,
                        },
                    ),
                ),
            ),
        }
    }
}

/// What holds of every scan: the port at hand is one of the ports or the
/// scan has finished; what was found is filed under ports that were looked
/// at, each process under the port that it listens on; a container has a
/// name only where it has an identifier; and a search for a container is in
/// its middle.
pub open spec fn scan_wf(scan: ScanView) -> bool {
    &&& 0 <= scan.position <= scan.ports.len()
    &&& forall|port: u16| #[trigger]
        scan.found.contains_key(port) ==> {
            &&& scan.found[port].port == port
            &&& scan.found[port].container_name is Some ==> scan.found[port].container_id is Some
            &&& exists|i: int| 0 <= i < scan.position && scan.ports[i] == port
        }
    &&& scan.stage matches ScanStageView::Container { search, .. } ==> search_stage_wf(search)
        && !search_ended(search)
}

impl Scan {
    /// What holds of every scan holds of this one.
    #[verifier::type_invariant]
    pub closed spec fn wf(&self) -> bool {
        &&& scan_wf(self@)
        &&& self.stage matches ScanStage::Container { search, .. } ==> search.wf()
    }

    /// The scan of `ports` before any probe.
    pub fn begin(ports: Vec<u16>, docker_enabled: bool) -> (scan: Self)
        ensures
            scan@ == scan_begin(ports@, docker_enabled),
    {
        let scan = Scan {
            ports,
            docker_enabled,
            position: 0,
            stage: ScanStage::Owner,
            found: HashMap::new(),
        };
        assert(scan@.found =~= Map::<u16, ProcessInfoView>::empty());
        scan
    }

    /// Tests whether every port was looked at.
    pub fn is_finished(&self) -> (finished: bool)
        ensures
            finished == scan_finished(self@),
    {
        self.position >= self.ports.len()
    }

    /// The probe that the scan waits for; none once every port was looked
    /// at.
    pub fn probe(&self) -> (probe: Option<Probe>)
        ensures
            probe_view(probe) == scan_probe(self@),
    {
        proof {
            use_type_invariant(self);
        }
        if self.position >= self.ports.len() {
            return None;
        }
        match &self.stage {
            ScanStage::Owner => Some(Probe::PortOwner(self.ports[self.position])),
            ScanStage::Command { pid } => Some(Probe::ProcessCommand(*pid)),
            ScanStage::Container { pid, command, search } => search.probe(),
            ScanStage::Name { pid, command, container_id } => Some(
                Probe::ContainerName(container_id.clone()),
            ),
        }
    }

    /// The scan once the port at hand is done with.
    fn settled(self, process: Option<ProcessInfo>) -> (next: Self)
        requires
            !scan_finished(self@),
            process matches Some(info) ==> info.port == self.ports@[self.position as int]
                && info.wf(),
        ensures
            next@ == settle(
                self@,
                match process {
                    Some(info) => Some(info@),
                    None => None,
                },
            ),
    {
        proof {
            use_type_invariant(&self);
        }
        let ghost before = self@;
        assert(self.position < self.ports.len());
        let mut found = self.found;
        match process {
            Some(info) => {
                let ghost seen = info@;
                found.insert(info.port, info);
                assert(snapshot_view(found@) =~= before.found.insert(seen.port, seen));
            },
            None => {},
        }
        let next = Scan {
            ports: self.ports,
            docker_enabled: self.docker_enabled,
            position: self.position + 1,
            stage: ScanStage::Owner,
            found,
        };
        proof {
            assert forall|port: u16| #[trigger] next@.found.contains_key(port) implies exists|
                i: int,
            |
                0 <= i < next@.position && next@.ports[i] == port by {
                if before.found.contains_key(port) {
                    let i = choose|i: int| 0 <= i < before.position && before.ports[i] == port;
                    assert(0 <= i < next@.position && next@.ports[i] == port);
                } else {
                    assert(next@.ports[before.position] == port);
                }
            }
        }
        next
    }

    /// The scan after the probe that it waited for left `reply` behind;
    /// `None` says that the probe could not be run.
    pub fn advance(self, reply: Option<CommandOutput>) -> (next: Self)
        ensures
            next@ == scan_step(self@, reply_view(reply)),
    {
        proof {
            use_type_invariant(&self);
        }
        if self.position >= self.ports.len() {
            return self;
        }
        let port = self.ports[self.position];
        let Scan { ports, docker_enabled, position, stage, found } = self;
        match stage {
            ScanStage::Owner => {
                let owner = match reply {
                    Some(output) => parse_port_owner(&output),
                    None => None,
                };
                let scan = Scan { ports, docker_enabled, position, stage: ScanStage::Owner, found };
                match owner {
                    Some(pid) => Scan { stage: ScanStage::Command { pid }, ..scan },
                    None => scan.settled(None),
                }
            },
            ScanStage::Command { pid } => {
                let scan = Scan { ports, docker_enabled, position, stage: ScanStage::Owner, found };
                match reply {
                    Some(output) => {
                        let command = parse_command_name(&output);
                        if docker_enabled {
                            Scan {
                                stage: ScanStage::Container {
                                    pid,
                                    command,
                                    search: SearchStage::Listing,
                                },
                                ..scan
                            }
                        } else {
                            let name = parse_base_name(command.as_str());
                            scan.settled(
                                Some(
                                    ProcessInfo {
                                        pid,
                                        port,
                                        command,
                                        name,
                                        container_id: None,
                                        container_name: None,
                                    },
                                ),
                            )
                        }
                    },
                    None => scan.settled(None),
                }
            },
            ScanStage::Container { pid, command, search } => {
                let scan = Scan { ports, docker_enabled, position, stage: ScanStage::Owner, found };
                match search.advance(pid, reply) {
                    SearchStage::Found(container_id) => Scan {
                        stage: ScanStage::Name { pid, command, container_id },
                        ..scan
                    },
                    SearchStage::Listing => Scan {
                        stage: ScanStage::Container { pid, command, search: SearchStage::Listing },
                        ..scan
                    },
                    SearchStage::Asking { candidates, position } => Scan {
                        stage: ScanStage::Container {
                            pid,
                            command,
                            search: SearchStage::Asking { candidates, position },
                        },
                        ..scan
                    },
                    _ => {
                        let name = parse_base_name(command.as_str());
                        scan.settled(
                            Some(
                                ProcessInfo {
                                    pid,
                                    port,
                                    command,
                                    name,
                                    container_id: None,
                                    container_name: None,
                                },
                            ),
                        )
                    },
                }
            },
            ScanStage::Name { pid, command, container_id } => {
                let scan = Scan { ports, docker_enabled, position, stage: ScanStage::Owner, found };
                let container_name = match reply {
                    Some(output) => Some(parse_container_name(&output, container_id.as_str())),
                    None => None,
                };
                let name = parse_base_name(command.as_str());
                scan.settled(
                    Some(
                        ProcessInfo {
                            pid,
                            port,
                            command,
                            name,
                            container_id: Some(container_id),
                            container_name,
                        },
                    ),
                )
            },
        }
    }

    /// The ports that the scan looks at, in order.
    pub fn ports(&self) -> (ports: &Vec<u16>)
        ensures
            ports@ == self@.ports,
    {
        &self.ports
    }

    /// Whether the scan looks at containers.
    pub fn docker_enabled(&self) -> (enabled: bool)
        ensures
            enabled == self@.docker_enabled,
    {
        self.docker_enabled
    }

    /// Where the scan stands on the port at hand.
    pub fn stage(&self) -> (stage: &ScanStage)
        ensures
            stage@ == self@.stage,
    {
        &self.stage
    }

    /// What the scan has found, by port: each process under the port that
    /// it listens on, which is one of the ports that were looked at.
    pub fn into_snapshot(self) -> (found: HashMap<u16, ProcessInfo>)
        ensures
            snapshot_view(found@) == self@.found,
            snapshot_wf(found@),
            forall|port: u16| #[trigger] found@.contains_key(port) ==> self@.ports.contains(port),
    {
        proof {
            use_type_invariant(&self);
            assert forall|port: u16| #[trigger] self.found@.contains_key(port) implies self.found@[port].port
                == port && self.found@[port].wf() && self@.ports.contains(port) by {
                assert(self@.found.contains_key(port));
                assert(self@.found[port] == self.found@[port]@);
            }
        }
        self.found
    }
}

/// How far the scan is from done with the port at hand, in stages.
pub open spec fn scan_stage_rank(stage: ScanStageView) -> nat {
    match stage {
        ScanStageView::Owner => 5,
        ScanStageView::Command { .. } => 4,
        ScanStageView::Container { search: SearchStageView::Listing, .. } => 3,
        ScanStageView::Container { .. } => 2,
        ScanStageView::Name { .. } => 1,
    }
}

/// How many containers the scan may still ask for their processes, for the
/// port at hand.
pub open spec fn scan_candidates(stage: ScanStageView) -> nat {
    match stage {
        ScanStageView::Container { search, .. } => search_budget(search),
        _ => 0,
    }
}

/// A step keeps what holds of every scan.
pub proof fn lemma_scan_step_wf(scan: ScanView, reply: Option<CommandOutputView>)
    requires
        scan_wf(scan),
    ensures
        scan_wf(scan_step(scan, reply)),
{
    let next = scan_step(scan, reply);
    assert forall|port: u16| #[trigger] next.found.contains_key(port) implies {
        &&& next.found[port].port == port
        &&& next.found[port].container_name is Some ==> next.found[port].container_id is Some
        &&& exists|i: int| 0 <= i < next.position && next.ports[i] == port
    } by {
        if scan.found.contains_key(port) {
            let i = choose|i: int| 0 <= i < scan.position && scan.ports[i] == port;
            assert(0 <= i < next.position && next.ports[i] == port);
        }
        if next.found != scan.found {
            assert(next.ports[scan.position] == scan.ports[scan.position]);
        }
    }
}

/// A step is about the port at hand and no other. It keeps the ports and
/// their order, passes on to the next port or stays, and leaves what was
/// found on every other port as it was: whatever a probe says, and whether
/// or not it could be run, the scan loses nothing and does not stop.
pub proof fn lemma_scan_step_touches_one_port(scan: ScanView, reply: Option<CommandOutputView>)
    requires
        scan_wf(scan),
        !scan_finished(scan),
    ensures
        scan_step(scan, reply).ports == scan.ports,
        scan_step(scan, reply).docker_enabled == scan.docker_enabled,
        scan_step(scan, reply).position == scan.position || scan_step(scan, reply).position
            == scan.position + 1,
        scan_step(scan, reply).position == scan.position ==> scan_step(scan, reply).found
            == scan.found,
        forall|port: u16|
            port != scan.ports[scan.position] ==> (#[trigger] scan_step(
                scan,
                reply,
            ).found.contains_key(port) <==> scan.found.contains_key(port)),
        forall|port: u16|
            port != scan.ports[scan.position] && scan.found.contains_key(port) ==> #[trigger] scan_step(
                scan,
                reply,
            ).found[port] == scan.found[port],
        scan.stage is Owner && (reply is None || port_owner(reply->0) is None) ==> scan_step(
            scan,
            reply,
        ).found == scan.found && scan_step(scan, reply).position == scan.position + 1,
{
}

/// The scan always finishes: each reply leaves fewer ports to look at, or,
/// on the same port, a stage nearer the end or fewer containers to ask.
pub proof fn lemma_scan_progress(scan: ScanView, reply: Option<CommandOutputView>)
    requires
        scan_wf(scan),
        !scan_finished(scan),
    ensures
        ({
            let next = scan_step(scan, reply);
            ||| next.position == scan.position + 1
            ||| next.position == scan.position && scan_stage_rank(next.stage) < scan_stage_rank(
                scan.stage,
            )
            ||| next.position == scan.position && scan_stage_rank(next.stage) == scan_stage_rank(
                scan.stage,
            ) && scan_candidates(next.stage) < scan_candidates(scan.stage)
        }),
{
}

} // verus!
