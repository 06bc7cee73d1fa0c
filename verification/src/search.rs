//! Finding the container that a process runs in: list the running
//! containers, then ask each in turn for its processes, until one of them
//! holds the process.
//!
//! The search runs nothing itself. It says which probe it waits for, and is
//! advanced with what that probe left behind.

use crate::probe::{
    container_has_pid, listed_containers, lists_pid, parse_listed_containers, probe_view,
    reply_view, texts, CommandOutput, CommandOutputView, Probe, ProbeView,
};
use vstd::prelude::*;

verus! {

/// Which probe of a search could not be run.
#[derive(Debug, Clone, Copy, PartialEq, Eq, Structural)]
pub enum SearchFailure {
    /// The listing of the running containers.
    Containers,
    /// The listing of the processes of one container.
    ContainerProcesses,
}

/// Where a search stands.
#[derive(Debug, PartialEq, Eq)]
pub enum SearchStage {
    /// It waits for the listing of the running containers.
    Listing,
    /// It waits for the processes of the container `candidates[position]`;
    /// those before it do not hold the process.
    Asking { candidates: Vec<String>, position: usize },
    /// The process runs in this container.
    Found(String),
    /// The process runs in no container.
    Absent,
    /// A probe could not be run.
    Failed(SearchFailure),
}

/// Where a search stands, as plain values.
pub enum SearchStageView {
    Listing,
    Asking { candidates: Seq<Seq<char>>, position: int },
    Found(Seq<char>),
    Absent,
    Failed(SearchFailure),
}

impl View for SearchStage {
    type V = SearchStageView;

    open spec fn view(&self) -> SearchStageView {
        match self {
            SearchStage::Listing => SearchStageView::Listing,
            SearchStage::Asking { candidates, position } => SearchStageView::Asking {
                candidates: texts(candidates@),
                position: *position as int,
            },
            SearchStage::Found(id) => SearchStageView::Found(id@),
            SearchStage::Absent => SearchStageView::Absent,
            SearchStage::Failed(failure) => SearchStageView::Failed(*failure),
        }
    }
}

/// The search for the container of one process.
#[derive(Debug, PartialEq, Eq)]
pub struct ContainerSearch {
    pid: i32,
    stage: SearchStage,
}

/// A search as plain values.
pub struct ContainerSearchView {
    pub pid: i32,
    pub stage: SearchStageView,
}

impl View for ContainerSearch {
    type V = ContainerSearchView;

    closed spec fn view(&self) -> ContainerSearchView {
        ContainerSearchView { pid: self.pid, stage: self.stage@ }
    }
}

/// The stage that asks the candidate at `position`, if there is one; the
/// search has come to nothing if there is none.
pub open spec fn ask(candidates: Seq<Seq<char>>, position: int) -> SearchStageView {
    if 0 <= position < candidates.len() {
        SearchStageView::Asking { candidates, position }
    } else {
        SearchStageView::Absent
    }
}

/// The probe that a search waits for; none once it has ended.
pub open spec fn search_probe(stage: SearchStageView) -> Option<ProbeView> {
    match stage {
        SearchStageView::Listing => Some(ProbeView::Containers),
        SearchStageView::Asking { candidates, position } => Some(
            ProbeView::ContainerProcesses(candidates[position]),
        ),
        _ => None,
    }
}

/// Where the search for process `pid` stands after the probe that it waited
/// for left `reply` behind; `None` says that the probe could not be run.
///
/// A probe that cannot be run ends the search as failed. The listing of the
/// containers gives the candidates, asked in the order listed. A candidate
/// whose processes include `pid` ends the search; any other passes the turn
/// to the next, and the search ends as absent after the last. A search that
/// has ended stays as it is.
pub open spec fn search_step(
    pid: i32,
    stage: SearchStageView,
    reply: Option<CommandOutputView>,
) -> SearchStageView {
    match stage {
        SearchStageView::Listing => match reply {
            Some(output) => ask(listed_containers(output), 0),
            None => SearchStageView::Failed(SearchFailure::Containers),
        },
        SearchStageView::Asking { candidates, position } => match reply {
            Some(output) => if lists_pid(output, pid) {
                SearchStageView::Found(candidates[position])
            } else {
                ask(candidates, position + 1)
            },
            None => SearchStageView::Failed(SearchFailure::ContainerProcesses),
        },
        ended => ended,
    }
}

/// Whether the search has ended.
pub open spec fn search_ended(stage: SearchStageView) -> bool {
    search_probe(stage) is None
}

/// How many probes the search may still ask for, at most.
pub open spec fn search_budget(stage: SearchStageView) -> nat {
    match stage {
        SearchStageView::Listing => 1,
        SearchStageView::Asking { candidates, position } => (candidates.len() - position) as nat,
        _ => 0,
    }
}

/// Where the search stands after a run of replies, each to the probe that
/// the search waited for when it came.
pub open spec fn search_run(
    pid: i32,
    stage: SearchStageView,
    replies: Seq<Option<CommandOutputView>>,
) -> SearchStageView
    decreases replies.len(),
{
    if replies.len() == 0 {
        stage
    } else {
        search_run(pid, search_step(pid, stage, replies[0]), replies.drop_first())
    }
}

impl SearchStage {
    /// A stage that asks a candidate has that candidate.
    pub open spec fn wf(&self) -> bool {
        match self {
            SearchStage::Asking { candidates, position } => *position < candidates@.len(),
            _ => true,
        }
    }

    /// The probe that a search at this stage waits for; none once it has
    /// ended.
    pub(crate) fn probe(&self) -> (probe: Option<Probe>)
        requires
            self.wf(),
        ensures
            probe_view(probe) == search_probe(self@),
    {
        match self {
            SearchStage::Listing => Some(Probe::Containers),
            SearchStage::Asking { candidates, position } => Some(
                Probe::ContainerProcesses(candidates[*position].clone()),
            ),
            _ => None,
        }
    }

    /// The stage of the search for process `pid` after the probe that it
    /// waited for left `reply` behind; `None` says that the probe could not
    /// be run.
    pub(crate) fn advance(self, pid: i32, reply: Option<CommandOutput>) -> (next: Self)
        requires
            self.wf(),
        ensures
            next.wf(),
            next@ == search_step(pid, self@, reply_view(reply)),
    {
        match self {
            SearchStage::Listing => match reply {
                Some(output) => {
                    let candidates = parse_listed_containers(&output);
                    if candidates.len() > 0 {
                        SearchStage::Asking { candidates, position: 0 }
                    } else {
                        SearchStage::Absent
                    }
                },
                None => SearchStage::Failed(SearchFailure::Containers),
            },
            SearchStage::Asking { candidates, position } => match reply {
                Some(output) => {
                    assert(position < candidates.len());
                    if container_has_pid(&output, pid) {
                        SearchStage::Found(candidates[position].clone())
                    } else if position + 1 < candidates.len() {
                        SearchStage::Asking { candidates, position: position + 1 }
                    } else {
                        SearchStage::Absent
                    }
                },
                None => SearchStage::Failed(SearchFailure::ContainerProcesses),
            },
            SearchStage::Found(id) => SearchStage::Found(id),
            SearchStage::Absent => SearchStage::Absent,
            SearchStage::Failed(failure) => SearchStage::Failed(failure),
        }
    }
}

impl ContainerSearch {
    /// A search that asks a candidate has that candidate.
    #[verifier::type_invariant]
    pub closed spec fn wf(&self) -> bool {
        self.stage.wf()
    }

    /// The search for the container of process `pid`, before any probe.
    pub fn begin(pid: i32) -> (search: Self)
        ensures
            search@ == (ContainerSearchView { pid, stage: SearchStageView::Listing }),
    {
        ContainerSearch { pid, stage: SearchStage::Listing }
    }

    /// The process whose container is searched for.
    pub fn pid(&self) -> (pid: i32)
        ensures
            pid == self@.pid,
    {
        self.pid
    }

    /// Where the search stands.
    pub fn stage(&self) -> (stage: &SearchStage)
        ensures
            stage@ == self@.stage,
            stage.wf(),
    {
        proof {
            use_type_invariant(self);
        }
        &self.stage
    }

    /// The probe that the search waits for; none once it has ended.
    pub fn probe(&self) -> (probe: Option<Probe>)
        ensures
            probe_view(probe) == search_probe(self@.stage),
    {
        proof {
            use_type_invariant(self);
        }
        self.stage.probe()
    }

    /// The search after the probe that it waited for left `reply` behind;
    /// `None` says that the probe could not be run.
    pub fn advance(self, reply: Option<CommandOutput>) -> (next: Self)
        ensures
            next@.pid == self@.pid,
            next@.stage == search_step(self@.pid, self@.stage, reply_view(reply)),
    {
        proof {
            use_type_invariant(&self);
        }
        let pid = self.pid;
        let stage = self.stage.advance(pid, reply);
        ContainerSearch { pid, stage }
    }
}

/// A stage that asks a candidate has that candidate.
pub open spec fn search_stage_wf(stage: SearchStageView) -> bool {
    stage matches SearchStageView::Asking { candidates, position } ==> 0 <= position
        < candidates.len()
}

/// Every reply brings the search nearer its end. The listing of the
/// containers leaves as many probes to ask for as it names containers, at
/// most; each reply after it leaves fewer than before; and a search that has
/// ended stays as it ended.
pub proof fn lemma_search_progress(
    pid: i32,
    stage: SearchStageView,
    reply: Option<CommandOutputView>,
)
    requires
        search_stage_wf(stage),
    ensures
        search_stage_wf(search_step(pid, stage, reply)),
        stage is Listing ==> search_budget(search_step(pid, stage, reply)) <= (match reply {
            Some(output) => listed_containers(output).len(),
            None => 0,
        }),
        stage is Asking ==> search_budget(search_step(pid, stage, reply)) < search_budget(stage),
        search_ended(stage) ==> search_step(pid, stage, reply) == stage,
{
}

/// A search that has ended stays as it ended, whatever comes in.
pub proof fn lemma_search_run_ended(
    pid: i32,
    stage: SearchStageView,
    replies: Seq<Option<CommandOutputView>>,
)
    requires
        search_ended(stage),
    ensures
        search_run(pid, stage, replies) == stage,
    decreases replies.len(),
{
    if replies.len() > 0 {
        lemma_search_run_ended(pid, stage, replies.drop_first());
    }
}

/// The search finds the first candidate whose processes include the
/// process: where the candidates asked before it answer and do not hold the
/// process, and it answers and does, the search ends with it, whatever comes
/// in after.
pub proof fn lemma_search_finds_first(
    pid: i32,
    candidates: Seq<Seq<char>>,
    position: int,
    replies: Seq<Option<CommandOutputView>>,
    k: int,
)
    requires
        0 <= position,
        0 <= k < replies.len(),
        position + k < candidates.len(),
        forall|j: int|
            0 <= j < k ==> (#[trigger] replies[j]) is Some && !lists_pid(replies[j]->0, pid),
        replies[k] is Some,
        lists_pid(replies[k]->0, pid),
    ensures
        search_run(pid, SearchStageView::Asking { candidates, position }, replies)
            == SearchStageView::Found(candidates[position + k]),
    decreases k,
{
    let stage = SearchStageView::Asking { candidates, position };
    let rest = replies.drop_first();
    if k == 0 {
        lemma_search_run_ended(pid, search_step(pid, stage, replies[0]), rest);
    } else {
        assert forall|j: int| 0 <= j < k - 1 implies (#[trigger] rest[j]) is Some && !lists_pid(
            rest[j]->0,
            pid,
        ) by {
            assert(rest[j] == replies[j + 1]);
        }
        assert(rest[k - 1] == replies[k]);
        lemma_search_finds_first(pid, candidates, position + 1, rest, k - 1);
    }
}

/// The search ends as absent where every candidate answers and none holds
/// the process.
pub proof fn lemma_search_absent(
    pid: i32,
    candidates: Seq<Seq<char>>,
    position: int,
    replies: Seq<Option<CommandOutputView>>,
)
    requires
        0 <= position < candidates.len(),
        replies.len() >= candidates.len() - position,
        forall|j: int|
            0 <= j < candidates.len() - position ==> (#[trigger] replies[j]) is Some && !lists_pid(
                replies[j]->0,
                pid,
            ),
    ensures
        search_run(pid, SearchStageView::Asking { candidates, position }, replies)
            == SearchStageView::Absent,
    decreases candidates.len() - position,
{
    let stage = SearchStageView::Asking { candidates, position };
    let rest = replies.drop_first();
    assert(replies[0] is Some && !lists_pid(replies[0]->0, pid));
    if position + 1 < candidates.len() {
        assert forall|j: int| 0 <= j < candidates.len() - (position + 1) implies (
        #[trigger] rest[j]) is Some && !lists_pid(rest[j]->0, pid) by {
            assert(rest[j] == replies[j + 1]);
        }
        lemma_search_absent(pid, candidates, position + 1, rest);
    } else {
        lemma_search_run_ended(pid, search_step(pid, stage, replies[0]), rest);
    }
}

} // verus!
