//! What one sampling pass finds: the process on each port, the update that
//! is published when that changes, and the summary shown for it.

use crate::decimal::{decimal, push_decimal};
use std::collections::HashMap;
use vstd::prelude::*;
use vstd::std_specs::hash::*;
use vstd::std_specs::iter::IteratorSpec;

verus! {

broadcast use group_hash_axioms;

/// The text of an optional string.
pub open spec fn text_of(s: Option<String>) -> Option<Seq<char>> {
    match s {
        Some(s) => Some(s@),
        None => None,
    }
}

/// One process found listening on a port.
#[derive(Debug)]
pub struct ProcessInfo {
    pub pid: i32,
    pub port: u16,
    pub command: String,
    pub name: String,
    pub container_id: Option<String>,
    pub container_name: Option<String>,
}

/// What a `ProcessInfo` holds, as plain values.
pub struct ProcessInfoView {
    pub pid: i32,
    pub port: u16,
    pub command: Seq<char>,
    pub name: Seq<char>,
    pub container_id: Option<Seq<char>>,
    pub container_name: Option<Seq<char>>,
}

impl View for ProcessInfo {
    type V = ProcessInfoView;

    open spec fn view(&self) -> ProcessInfoView {
        ProcessInfoView {
            pid: self.pid,
            port: self.port,
            command: self.command@,
            name: self.name@,
            container_id: text_of(self.container_id),
            container_name: text_of(self.container_name),
        }
    }
}

/// A copy of an optional string.
pub fn copy_text(s: &Option<String>) -> (copy: Option<String>)
    ensures
        copy == *s,
{
    match s {
        Some(s) => Some(s.clone()),
        None => None,
    }
}

/// Tests whether two optional strings hold the same text, or both none.
pub fn same_text(a: &Option<String>, b: &Option<String>) -> (same: bool)
    ensures
        same == (text_of(*a) == text_of(*b)),
{
    match a {
        Some(x) => match b {
            Some(y) => *x == *y,
            None => false,
        },
        None => b.is_none(),
    }
}

impl ProcessInfo {
    /// A container has a name only where it has an identifier: the name is
    /// looked up by the identifier, and the lookup may fail.
    pub open spec fn wf(&self) -> bool {
        self.container_name is Some ==> self.container_id is Some
    }

    /// Tests whether `self` and `other` agree in every field.
    pub fn same_as(&self, other: &ProcessInfo) -> (same: bool)
        ensures
            same == (self@ == other@),
    {
        self.pid == other.pid && self.port == other.port && self.command == other.command
            && self.name == other.name && same_text(&self.container_id, &other.container_id)
            && same_text(&self.container_name, &other.container_name)
    }
}

impl Clone for ProcessInfo {
    fn clone(&self) -> (copy: Self)
        ensures
            copy == *self,
    {
        ProcessInfo {
            pid: self.pid,
            port: self.port,
            command: self.command.clone(),
            name: self.name.clone(),
            container_id: copy_text(&self.container_id),
            container_name: copy_text(&self.container_name),
        }
    }
}

impl PartialEq for ProcessInfo {
    fn eq(&self, other: &ProcessInfo) -> (same: bool) {
        self.same_as(other)
    }
}

impl vstd::std_specs::cmp::PartialEqSpecImpl for ProcessInfo {
    open spec fn obeys_eq_spec() -> bool {
        true
    }

    open spec fn eq_spec(&self, other: &ProcessInfo) -> bool {
        self@ == other@
    }
}

/// What a snapshot holds as plain values: for each port that a process
/// listens on, what was found of that process.
pub open spec fn snapshot_view(processes: Map<u16, ProcessInfo>) -> Map<u16, ProcessInfoView> {
    Map::new(|port: u16| processes.contains_key(port), |port: u16| processes[port]@)
}

/// A snapshot files each process under the port that it was found on.
pub open spec fn snapshot_wf(processes: Map<u16, ProcessInfo>) -> bool {
    forall|port: u16| #[trigger]
        processes.contains_key(port) ==> processes[port].port == port && processes[port].wf()
}

/// Tests whether two snapshots hold the same processes on the same ports,
/// equal in every field.
pub fn same_snapshot(a: &HashMap<u16, ProcessInfo>, b: &HashMap<u16, ProcessInfo>) -> (same: bool)
    ensures
        same == (snapshot_view(a@) == snapshot_view(b@)),
{
    if a.len() != b.len() {
        assert(snapshot_view(a@).dom() =~= a@.dom());
        assert(snapshot_view(b@).dom() =~= b@.dom());
        return false;
    }
    let ghost entries = spec_hash_map_iter(a).remaining();
    let ghost mut checked: int = 0;
    for entry in it: a.iter()
        invariant
            it.seq() == entries,
            checked == it.index(),
            forall|i: int|
                0 <= i < checked ==> b@.contains_key(*(#[trigger] entries[i]).0)
                    && b@[*entries[i].0]@ == entries[i].1@,
    {
        let (port, info) = entry;
        match b.get(port) {
            Some(other) => {
                if !info.same_as(other) {
                    assert(snapshot_view(a@)[*port] != snapshot_view(b@)[*port]);
                    return false;
                }
            },
            None => {
                assert(snapshot_view(a@).contains_key(*port));
                assert(!snapshot_view(b@).contains_key(*port));
                return false;
            },
        }
        proof {
            checked = checked + 1;
        }
    }
    proof {
        assert forall|port: u16| a@.contains_key(port) implies b@.contains_key(port) && b@[port]@
            == a@[port]@ by {
            let pair = (&port, &a@[port]);
            assert(entries.contains(pair));
            let i = choose|i: int| 0 <= i < entries.len() && entries[i] == pair;
            assert(b@.contains_key(*entries[i].0));
        }
        assert(a@.dom().subset_of(b@.dom()));
        vstd::set_lib::lemma_subset_equality(a@.dom(), b@.dom());
        assert(snapshot_view(a@) =~= snapshot_view(b@));
    }
    true
}

/// What is published when the snapshot changes: the new snapshot and how
/// many processes it holds.
#[derive(Debug)]
pub struct ProcessUpdate {
    pub processes: HashMap<u16, ProcessInfo>,
    pub count: usize,
}

impl ProcessUpdate {
    /// The count is the number of processes.
    pub open spec fn wf(&self) -> bool {
        self.count == self.processes@.len()
    }

    /// The update that carries `processes`.
    pub fn new(processes: HashMap<u16, ProcessInfo>) -> (update: Self)
        ensures
            update.processes == processes,
            update.count == processes@.len(),
            update.wf(),
    {
        let count = processes.len();
        Self { processes, count }
    }

    /// The update that carries no process.
    pub fn empty() -> (update: Self)
        ensures
            update.processes@ == Map::<u16, ProcessInfo>::empty(),
            update.count == 0,
            update.wf(),
    {
        Self { processes: HashMap::new(), count: 0 }
    }
}

impl Clone for ProcessUpdate {
    fn clone(&self) -> (copy: Self)
        ensures
            copy.processes@ == self.processes@,
            copy.count == self.count,
    {
        ProcessUpdate { processes: self.processes.clone(), count: self.count }
    }
}

/// What the status bar shows for a number of processes.
#[derive(Debug)]
pub struct StatusBarInfo {
    pub text: String,
    pub tooltip: String,
}

impl Clone for StatusBarInfo {
    fn clone(&self) -> (copy: Self)
        ensures
            copy == *self,
    {
        StatusBarInfo { text: self.text.clone(), tooltip: self.tooltip.clone() }
    }
}

/// The label for `count` processes: the number alone.
pub open spec fn status_text(count: nat) -> Seq<char> {
    decimal(count)
}

/// The tooltip for `count` processes.
pub open spec fn status_tooltip(count: nat) -> Seq<char> {
    if count == 0 {
        "No development processes running"@
    } else {
        decimal(count) + " development process(es) running"@
    }
}

impl StatusBarInfo {
    /// The label and the tooltip for `count` processes.
    pub fn from_process_count(count: usize) -> (info: Self)
        ensures
            info.text@ == status_text(count as nat),
            info.tooltip@ == status_tooltip(count as nat),
    {
        let mut text = String::new();
        push_decimal(&mut text, count as u64);
        assert(text@ =~= decimal(count as nat));
        let tooltip = if count == 0 {
            "No development processes running".to_string()
        } else {
            let mut tooltip = String::new();
            push_decimal(&mut tooltip, count as u64);
            tooltip.append(" development process(es) running");
            assert(tooltip@ =~= status_tooltip(count as nat));
            tooltip
        };
        Self { text, tooltip }
    }
}

} // verus!
