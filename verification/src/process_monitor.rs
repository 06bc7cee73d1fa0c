//! The monitor: it keeps the snapshot of the last sampling pass that
//! differed from the one before it, and publishes a snapshot when, and only
//! when, it differs from the one it keeps.

use crate::batch::{batch_begin, is_target, targets_of, KillAll};
use crate::cli::{port_list, push_port_list};
use crate::decimal::{decimal, push_decimal};
use crate::scan::{scan_begin, Scan};
use crate::termination::{first_stage, Termination, TerminationView};
use crate::types::{same_snapshot, snapshot_view, ProcessInfo, ProcessInfoView, ProcessUpdate};
use crossbeam_channel::Sender;
use std::collections::HashMap;
use vstd::prelude::*;
use vstd::std_specs::hash::*;

verus! {

broadcast use group_hash_axioms;

/// How long the monitor rests between two sampling passes, in milliseconds.
pub const MONITORING_INTERVAL_MS: u64 = 2000;

/// The sending side of a channel of `crossbeam_channel`.
#[verifier::external_type_specification]
#[verifier::external_body]
#[verifier::reject_recursive_types(T)]
pub struct ExSender<T>(crossbeam_channel::Sender<T>);

/// `crossbeam_channel::Sender::send` puts a message into the channel, waiting
/// while the channel is full. It fails where the channel is disconnected,
/// and then hands the message back in the error.
#[verifier::external_body]
fn send_update(sender: &Sender<ProcessUpdate>, update: ProcessUpdate) -> (r: Result<
    (),
    ProcessUpdate,
>)
    ensures
        r matches Err(returned) ==> returned == update,
{
    match sender.send(update) {
        Ok(()) => Ok(()),
        Err(error) => Err(error.0),
    }
}

/// What a sampling pass brought, as plain values; `None` where the pass
/// could not be made.
pub open spec fn scan_view(scanned: Option<HashMap<u16, ProcessInfo>>) -> Option<
    Map<u16, ProcessInfoView>,
> {
    match scanned {
        Some(processes) => Some(snapshot_view(processes@)),
        None => None,
    }
}

/// The snapshot that is published after a sampling pass: the one that the
/// pass brought, whole, where it differs from the one that is kept, and none
/// where it is equal to it or the pass could not be made.
pub open spec fn published(
    current: Map<u16, ProcessInfoView>,
    scanned: Option<Map<u16, ProcessInfoView>>,
) -> Option<Map<u16, ProcessInfoView>> {
    match scanned {
        Some(processes) => if processes == current {
            None
        } else {
            Some(processes)
        },
        None => None,
    }
}

/// The snapshot that is kept after a sampling pass: the one that the pass
/// brought; the one kept before where the pass could not be made.
pub open spec fn kept(
    current: Map<u16, ProcessInfoView>,
    scanned: Option<Map<u16, ProcessInfoView>>,
) -> Map<u16, ProcessInfoView> {
    match scanned {
        Some(processes) => processes,
        None => current,
    }
}

/// The snapshot that is kept after a run of sampling passes.
pub open spec fn kept_after(
    current: Map<u16, ProcessInfoView>,
    passes: Seq<Option<Map<u16, ProcessInfoView>>>,
) -> Map<u16, ProcessInfoView>
    decreases passes.len(),
{
    if passes.len() == 0 {
        current
    } else {
        kept(kept_after(current, passes.drop_last()), passes.last())
    }
}

/// The snapshots that are published over a run of sampling passes, in the
/// order of the passes.
pub open spec fn published_over(
    current: Map<u16, ProcessInfoView>,
    passes: Seq<Option<Map<u16, ProcessInfoView>>>,
) -> Seq<Map<u16, ProcessInfoView>>
    decreases passes.len(),
{
    if passes.len() == 0 {
        Seq::empty()
    } else {
        match published(kept_after(current, passes.drop_last()), passes.last()) {
            Some(processes) => published_over(current, passes.drop_last()).push(processes),
            None => published_over(current, passes.drop_last()),
        }
    }
}

/// How the ports that are monitored are announced: all of them where they
/// are ten or fewer; otherwise how many they are, and the first and the last.
pub open spec fn watch_description(ports: Seq<u16>) -> Seq<char> {
    if ports.len() <= 10 {
        "ports: "@ + port_list(ports)
    } else {
        decimal(ports.len()) + " ports: "@ + decimal(ports.first() as nat) + " to "@ + decimal(
            ports.last() as nat,
        )
    }
}

/// The two phases of the monitor: it makes a sampling pass, or it rests
/// until the next is due.
#[derive(Debug, Clone, Copy, PartialEq, Eq, Structural)]
pub enum MonitorPhase {
    Sampling,
    IdleWaiting,
}

/// What the monitor is to do next.
#[derive(Debug, Clone, Copy, PartialEq, Eq, Structural)]
pub enum MonitorStep {
    /// Make a sampling pass and report what it brought.
    Sample,
    /// Let this many milliseconds pass and report that they have.
    Rest(u64),
}

/// What a monitor in `phase` is to do next.
pub open spec fn phase_step(phase: MonitorPhase) -> MonitorStep {
    match phase {
        MonitorPhase::Sampling => MonitorStep::Sample,
        MonitorPhase::IdleWaiting => MonitorStep::Rest(MONITORING_INTERVAL_MS),
    }
}

/// What became of a sampling pass.
#[derive(Debug)]
pub enum Delivery {
    /// Nothing was published: the snapshot is the one that was kept, or the
    /// pass could not be made.
    Unchanged,
    /// The snapshot differs and went into the channel; it holds this many
    /// processes.
    Sent(usize),
    /// The snapshot differs, but the channel is disconnected: here is the
    /// update that could not be sent.
    Unsent(ProcessUpdate),
}

/// The monitor of a set of ports.
pub struct ProcessMonitor {
    update_sender: Sender<ProcessUpdate>,
    current_processes: HashMap<u16, ProcessInfo>,
    ports_to_monitor: Vec<u16>,
    docker_enabled: bool,
    phase: MonitorPhase,
}

impl ProcessMonitor {
    /// The phase that the monitor is in.
    pub closed spec fn phase(&self) -> MonitorPhase {
        self.phase
    }

    /// The snapshot that the monitor keeps.
    pub closed spec fn current(&self) -> Map<u16, ProcessInfoView> {
        snapshot_view(self.current_processes@)
    }

    /// The ports that the monitor looks at, in the order of a pass.
    pub closed spec fn ports(&self) -> Seq<u16> {
        self.ports_to_monitor@
    }

    /// Whether the monitor looks at containers.
    pub closed spec fn docker_enabled(&self) -> bool {
        self.docker_enabled
    }

    /// The channel that the monitor publishes into.
    pub closed spec fn sender(&self) -> Sender<ProcessUpdate> {
        self.update_sender
    }

    /// A monitor of `ports_to_monitor` that publishes into `update_sender`.
    /// It keeps the empty snapshot, and is about to make its first sampling
    /// pass.
    pub fn new(
        update_sender: Sender<ProcessUpdate>,
        ports_to_monitor: Vec<u16>,
        docker_enabled: bool,
    ) -> (monitor: Self)
        ensures
            monitor.current() == Map::<u16, ProcessInfoView>::empty(),
            monitor.ports() == ports_to_monitor@,
            monitor.docker_enabled() == docker_enabled,
            monitor.sender() == update_sender,
            monitor.phase() == MonitorPhase::Sampling,
    {
        let monitor = Self {
            update_sender,
            current_processes: HashMap::new(),
            ports_to_monitor,
            docker_enabled,
            phase: MonitorPhase::Sampling,
        };
        assert(monitor.current() =~= Map::<u16, ProcessInfoView>::empty());
        monitor
    }

    /// How the ports that are monitored are announced.
    pub fn monitoring_description(&self) -> (text: String)
        ensures
            text@ == watch_description(self.ports()),
    {
        let ports = &self.ports_to_monitor;
        if ports.len() <= 10 {
            let mut text = "ports: ".to_string();
            push_port_list(&mut text, ports);
            text
        } else {
            let mut text = String::new();
            push_decimal(&mut text, ports.len() as u64);
            text.append(" ports: ");
            push_decimal(&mut text, ports[0] as u64);
            text.append(" to ");
            push_decimal(&mut text, ports[ports.len() - 1] as u64);
            assert(text@ =~= watch_description(ports@));
            text
        }
    }

    /// What the monitor is to do next: a sampling pass, or a rest of the
    /// length of the interval.
    pub fn next_step(&self) -> (step: MonitorStep)
        ensures
            step == phase_step(self.phase()),
    {
        match self.phase {
            MonitorPhase::Sampling => MonitorStep::Sample,
            MonitorPhase::IdleWaiting => MonitorStep::Rest(MONITORING_INTERVAL_MS),
        }
    }

    /// Takes in that the rest has passed: the next sampling pass is due. The
    /// snapshot that is kept stays as it is.
    pub fn interval_elapsed(&mut self)
        ensures
            final(self).phase() == MonitorPhase::Sampling,
            final(self).ports() == old(self).ports(),
            final(self).docker_enabled() == old(self).docker_enabled(),
            final(self).sender() == old(self).sender(),
            final(self).current() == old(self).current(),
    {
        self.phase = MonitorPhase::Sampling;
    }

    /// A sampling pass over the ports of the monitor, before any probe.
    pub fn begin_scan(&self) -> (scan: Scan)
        ensures
            scan@ == scan_begin(self.ports(), self.docker_enabled()),
    {
        let mut ports: Vec<u16> = Vec::new();
        let mut i: usize = 0;
        while i < self.ports_to_monitor.len()
            invariant
                i <= self.ports_to_monitor.len(),
                ports@ == self.ports_to_monitor@.take(i as int),
            decreases self.ports_to_monitor.len() - i,
        {
            ports.push(self.ports_to_monitor[i]);
            i += 1;
        }
        assert(self.ports_to_monitor@.take(i as int) =~= self.ports_to_monitor@);
        Scan::begin(ports, self.docker_enabled)
    }

    /// Takes in what a sampling pass brought; `None` where the pass could
    /// not be made. A snapshot that differs from the one that is kept
    /// replaces it and is handed back to be published, whole; any other
    /// changes nothing.
    pub fn reconcile(&mut self, scanned: Option<HashMap<u16, ProcessInfo>>) -> (event: Option<
        ProcessUpdate,
    >)
        ensures
            final(self).ports() == old(self).ports(),
            final(self).docker_enabled() == old(self).docker_enabled(),
            final(self).sender() == old(self).sender(),
            final(self).phase() == old(self).phase(),
            final(self).current() == kept(old(self).current(), scan_view(scanned)),
            event is Some <==> published(old(self).current(), scan_view(scanned)) is Some,
            event matches Some(update) ==> update.wf() && published(
                old(self).current(),
                scan_view(scanned),
            ) == Some(snapshot_view(update.processes@)) && update.count == snapshot_view(
                update.processes@,
            ).len(),
    {
        match scanned {
            Some(processes) => {
                if same_snapshot(&self.current_processes, &processes) {
                    None
                } else {
                    let update = ProcessUpdate::new(processes.clone());
                    assert(snapshot_view(update.processes@).dom() =~= update.processes@.dom());
                    self.current_processes = processes;
                    Some(update)
                }
            },
            None => None,
        }
    }

    /// Puts `update` into the channel. Where the channel is disconnected the
    /// update comes back.
    pub fn publish(&self, update: ProcessUpdate) -> (r: Result<(), ProcessUpdate>)
        ensures
            r matches Err(returned) ==> returned == update,
    {
        send_update(&self.update_sender, update)
    }

    /// Takes in what a sampling pass brought, and publishes it where it
    /// differs from the snapshot that is kept. The monitor rests after that,
    /// whatever the pass brought.
    pub fn report(&mut self, scanned: Option<HashMap<u16, ProcessInfo>>) -> (delivery: Delivery)
        ensures
            final(self).phase() == MonitorPhase::IdleWaiting,
            final(self).ports() == old(self).ports(),
            final(self).docker_enabled() == old(self).docker_enabled(),
            final(self).sender() == old(self).sender(),
            final(self).current() == kept(old(self).current(), scan_view(scanned)),
            delivery is Unchanged <==> published(old(self).current(), scan_view(scanned)) is None,
            delivery matches Delivery::Sent(count) ==> count == published(
                old(self).current(),
                scan_view(scanned),
            )->0.len(),
            delivery matches Delivery::Unsent(update) ==> update.wf() && published(
                old(self).current(),
                scan_view(scanned),
            ) == Some(snapshot_view(update.processes@)),
    {
        let event = self.reconcile(scanned);
        self.phase = MonitorPhase::IdleWaiting;
        match event {
            Some(update) => {
                let count = update.count;
                match self.publish(update) {
                    Ok(()) => Delivery::Sent(count),
                    Err(returned) => Delivery::Unsent(returned),
                }
            },
            None => Delivery::Unchanged,
        }
    }

    /// The protocol that ends process `pid`, before anything was done. It
    /// looks for the container of the process where the monitor looks at
    /// containers.
    pub fn kill_process(&self, pid: i32) -> (protocol: Termination)
        ensures
            protocol@ == (TerminationView { pid, stage: first_stage(self.docker_enabled()) }),
    {
        Termination::begin(pid, self.docker_enabled)
    }

    /// The batch that ends every process of `processes`, each once, before
    /// any attempt. The snapshot is one made for the purpose, not the one
    /// that the monitor keeps.
    pub fn kill_all_processes(&self, processes: &HashMap<u16, ProcessInfo>) -> (batch: KillAll)
        ensures
            batch@ == batch_begin(batch@.targets),
            batch@.targets.len() == processes@.len(),
            batch@.targets.no_duplicates(),
            forall|target: crate::batch::Target|
                batch@.targets.contains(target) <==> is_target(processes@, target),
    {
        KillAll::begin(targets_of(processes))
    }
}

/// No snapshot is published twice in a row. Over any run of sampling
/// passes, each snapshot that is published differs from the one published
/// before it, and the first from the snapshot that was kept at the start;
/// the last one published is the one that is kept at the end.
pub proof fn lemma_no_duplicate_events(
    current: Map<u16, ProcessInfoView>,
    passes: Seq<Option<Map<u16, ProcessInfoView>>>,
)
    ensures
        published_over(current, passes).len() <= passes.len(),
        published_over(current, passes).len() == 0 ==> kept_after(current, passes) == current,
        published_over(current, passes).len() > 0 ==> published_over(current, passes).last()
            == kept_after(current, passes) && published_over(current, passes).first() != current,
        forall|i: int|
            0 <= i < published_over(current, passes).len() - 1 ==> #[trigger] published_over(
                current,
                passes,
            )[i] != published_over(current, passes)[i + 1],
    decreases passes.len(),
{
    if passes.len() > 0 {
        lemma_no_duplicate_events(current, passes.drop_last());
    }
}

/// Seeing the same snapshot again publishes nothing. Where a pass brings
/// `first`, the next brings `first` again and the one after it `second`, the
/// second pass publishes nothing, and the second and third together publish
/// one snapshot at most: `second`, where it differs from `first`.
pub proof fn lemma_unchanged_snapshot_is_silent(
    current: Map<u16, ProcessInfoView>,
    first: Map<u16, ProcessInfoView>,
    second: Map<u16, ProcessInfoView>,
)
    ensures
        published(kept(current, Some(first)), Some(first)) is None,
        published_over(kept(current, Some(first)), seq![Some(first), Some(second)]).len() <= 1,
        published_over(kept(current, Some(first)), seq![Some(first), Some(second)]) == if second
            == first {
            Seq::<Map<u16, ProcessInfoView>>::empty()
        } else {
            seq![second]
        },
        published_over(current, seq![Some(first), Some(first), Some(second)]).len() <= 2,
{
    let start = kept(current, Some(first));
    let two = seq![Some(first), Some(second)];
    let one = two.drop_last();
    assert(one =~= seq![Some(first)]);
    assert(one.drop_last() =~= Seq::<Option<Map<u16, ProcessInfoView>>>::empty());
    assert(kept_after(start, one.drop_last()) == start);
    assert(published_over(start, one.drop_last()).len() == 0);
    assert(published_over(start, one).len() == 0);
    assert(kept_after(start, one) == first);
    if second == first {
        assert(published_over(start, two) =~= Seq::<Map<u16, ProcessInfoView>>::empty());
    } else {
        assert(published_over(start, two) =~= seq![second]);
    }
    let three = seq![Some(first), Some(first), Some(second)];
    lemma_no_duplicate_events(current, three);
    let front = three.drop_last();
    assert(front =~= seq![Some(first), Some(first)]);
    assert(front.drop_last() =~= seq![Some(first)]);
    assert(seq![Some(first)].drop_last() =~= Seq::<Option<Map<u16, ProcessInfoView>>>::empty());
    assert(kept_after(current, seq![Some(first)]) == first);
    assert(published_over(current, front) == published_over(current, seq![Some(first)]));
    lemma_no_duplicate_events(current, seq![Some(first)]);
}

} // verus!
