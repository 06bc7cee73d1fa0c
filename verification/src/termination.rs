//! Ending one process: ask it to stop, give it time, and stop it by force if
//! it still runs. A process that runs in a container is never signalled:
//! its container is stopped, and removed by force where that fails.
//!
//! The protocol sends no signal and runs no command. It says what is to be
//! done next, and is advanced with how that went.

use crate::probe::{
    is_running, listed_containers, lists_pid, probe_says_running, reply_view, CommandOutput,
    CommandOutputView, Probe, ProbeView,
};
use crate::search::{
    search_ended, search_probe, search_stage_wf, search_step, SearchFailure, SearchStage,
    SearchStageView,
};
use vstd::prelude::*;

verus! {

/// How long a process is given to stop after it was asked to, in
/// milliseconds.
pub const GRACE_PERIOD_MS: u64 = 500;

/// The two signals of the protocol: the request to stop, which a process
/// may ignore, and the one that it cannot.
#[derive(Debug, Clone, Copy, PartialEq, Eq, Structural)]
pub enum SignalKind {
    Graceful,
    Forceful,
}

/// Why the system refused a signal.
#[derive(Debug, Clone, Copy, PartialEq, Eq, Structural)]
pub enum SignalFault {
    /// No process has that number: it is gone already.
    NoSuchProcess,
    /// The process belongs to someone else.
    PermissionDenied,
    /// Any other reason.
    Other,
}

/// A refused signal: the kind of reason, and the reason in the system's words.
#[derive(Debug, PartialEq, Eq)]
pub struct SignalError {
    pub fault: SignalFault,
    pub description: String,
}

/// What a `SignalError` holds, as plain values.
pub struct SignalErrorView {
    pub fault: SignalFault,
    pub description: Seq<char>,
}

impl View for SignalError {
    type V = SignalErrorView;

    open spec fn view(&self) -> SignalErrorView {
        SignalErrorView { fault: self.fault, description: self.description@ }
    }
}

/// A command of the protocol that could not be run.
#[derive(Debug, Clone, Copy, PartialEq, Eq, Structural)]
pub enum Tool {
    ListContainers,
    ListContainerProcesses,
    StopContainer,
    RemoveContainer,
}

/// Why a process or its container could not be ended.
#[derive(Debug, PartialEq, Eq)]
pub enum TerminationError {
    /// A command could not be run.
    Unavailable(Tool),
    /// The container did not stop, and removing it failed with this on its
    /// standard error.
    RemovalFailed { container_id: String, stderr: String },
    /// The system refused a signal.
    SignalFailed { kind: SignalKind, error: SignalError },
}

/// What a `TerminationError` holds, as plain values.
pub enum TerminationErrorView {
    Unavailable(Tool),
    RemovalFailed { container_id: Seq<char>, stderr: Seq<char> },
    SignalFailed { kind: SignalKind, error: SignalErrorView },
}

impl View for TerminationError {
    type V = TerminationErrorView;

    open spec fn view(&self) -> TerminationErrorView {
        match self {
            TerminationError::Unavailable(tool) => TerminationErrorView::Unavailable(*tool),
            TerminationError::RemovalFailed { container_id, stderr } => {
                TerminationErrorView::RemovalFailed { container_id: container_id@, stderr: stderr@ }
            },
            TerminationError::SignalFailed { kind, error } => TerminationErrorView::SignalFailed {
                kind: *kind,
                error: error@,
            },
        }
    }
}

/// How the protocol ended, as plain values.
pub open spec fn outcome_view(outcome: Result<(), TerminationError>) -> Result<
    (),
    TerminationErrorView,
> {
    match outcome {
        Ok(()) => Ok(()),
        Err(error) => Err(error@),
    }
}

/// The command that could not be run, in words.
pub open spec fn tool_words(tool: Tool) -> Seq<char> {
    match tool {
        Tool::ListContainers => "Failed to execute docker ps command"@,
        Tool::ListContainerProcesses => "Failed to execute docker top command"@,
        Tool::StopContainer => "Failed to execute docker stop command"@,
        Tool::RemoveContainer => "Failed to execute docker rm command"@,
    }
}

/// The failure in words.
pub open spec fn error_message(error: TerminationErrorView) -> Seq<char> {
    match error {
        TerminationErrorView::Unavailable(tool) => tool_words(tool),
        TerminationErrorView::RemovalFailed { container_id, stderr } => {
            "Failed to remove Docker container "@ + container_id + ": "@ + stderr
        },
        TerminationErrorView::SignalFailed { kind, error } => "Failed to kill process: "@
            + error.description,
    }
}

/// Whether the failure says that the process was gone already.
pub open spec fn is_not_found(error: TerminationErrorView) -> bool {
    error matches TerminationErrorView::SignalFailed { error, .. } && error.fault
        == SignalFault::NoSuchProcess
}

impl TerminationError {
    /// The failure in words.
    pub fn message(&self) -> (text: String)
        ensures
            text@ == error_message(self@),
    {
        match self {
            TerminationError::Unavailable(tool) => match tool {
                Tool::ListContainers => "Failed to execute docker ps command".to_string(),
                Tool::ListContainerProcesses => "Failed to execute docker top command".to_string(),
                Tool::StopContainer => "Failed to execute docker stop command".to_string(),
                Tool::RemoveContainer => "Failed to execute docker rm command".to_string(),
            },
            TerminationError::RemovalFailed { container_id, stderr } => {
                let mut text = "Failed to remove Docker container ".to_string();
                text.append(container_id.as_str());
                text.append(": ");
                text.append(stderr.as_str());
                text
            },
            TerminationError::SignalFailed { kind, error } => {
                let mut text = "Failed to kill process: ".to_string();
                text.append(error.description.as_str());
                text
            },
        }
    }

    /// Tests whether the failure says that the process was gone already.
    pub fn process_was_gone(&self) -> (gone: bool)
        ensures
            gone == is_not_found(self@),
    {
        match self {
            TerminationError::SignalFailed { kind, error } => match error.fault {
                SignalFault::NoSuchProcess => true,
                _ => false,
            },
            _ => false,
        }
    }
}

/// What is to be done next.
#[derive(Debug, PartialEq, Eq)]
pub enum Action {
    /// Run this command and report what it left behind.
    Run(Probe),
    /// Send this signal to the process and report whether it was accepted.
    Signal(SignalKind),
    /// Let this many milliseconds pass and report that they have.
    Wait(u64),
    /// Nothing: the protocol has ended, in this way.
    Finish(Result<(), TerminationError>),
}

/// What an `Action` holds, as plain values.
pub enum ActionView {
    Run(ProbeView),
    Signal(SignalKind),
    Wait(u64),
    Finish(Result<(), TerminationErrorView>),
}

impl View for Action {
    type V = ActionView;

    open spec fn view(&self) -> ActionView {
        match self {
            Action::Run(probe) => ActionView::Run(probe@),
            Action::Signal(kind) => ActionView::Signal(*kind),
            Action::Wait(ms) => ActionView::Wait(*ms),
            Action::Finish(outcome) => ActionView::Finish(outcome_view(*outcome)),
        }
    }
}

/// How what was to be done went.
#[derive(Debug, PartialEq, Eq)]
pub enum Reply {
    /// What the command left behind; `None` if it could not be run.
    Ran(Option<CommandOutput>),
    /// Whether the signal was accepted.
    Signalled(Result<(), SignalError>),
    /// The time has passed.
    Waited,
}

/// What a `Reply` holds, as plain values.
pub enum ReplyView {
    Ran(Option<CommandOutputView>),
    Signalled(Result<(), SignalErrorView>),
    Waited,
}

impl View for Reply {
    type V = ReplyView;

    open spec fn view(&self) -> ReplyView {
        match self {
            Reply::Ran(reply) => ReplyView::Ran(reply_view(*reply)),
            Reply::Signalled(Ok(())) => ReplyView::Signalled(Ok(())),
            Reply::Signalled(Err(error)) => ReplyView::Signalled(Err(error@)),
            Reply::Waited => ReplyView::Waited,
        }
    }
}

/// Where the protocol stands.
#[derive(Debug, PartialEq, Eq)]
pub enum Stage {
    /// It looks for the container of the process.
    Locating(SearchStage),
    /// It waits for the container to stop.
    Stopping(String),
    /// It waits for the container to be removed by force.
    Removing(String),
    /// It waits to hear whether the request to stop was accepted.
    Requesting,
    /// It waits for the grace period to pass.
    Waiting,
    /// It waits to hear whether the process still runs.
    Checking,
    /// It waits to hear whether the forceful signal was accepted.
    Forcing,
    /// It has ended.
    Done(Result<(), TerminationError>),
}

/// Where the protocol stands, as plain values.
pub enum StageView {
    Locating(SearchStageView),
    Stopping(Seq<char>),
    Removing(Seq<char>),
    Requesting,
    Waiting,
    Checking,
    Forcing,
    Done(Result<(), TerminationErrorView>),
}

impl View for Stage {
    type V = StageView;

    open spec fn view(&self) -> StageView {
        match self {
            Stage::Locating(search) => StageView::Locating(search@),
            Stage::Stopping(id) => StageView::Stopping(id@),
            Stage::Removing(id) => StageView::Removing(id@),
            Stage::Requesting => StageView::Requesting,
            Stage::Waiting => StageView::Waiting,
            Stage::Checking => StageView::Checking,
            Stage::Forcing => StageView::Forcing,
            Stage::Done(outcome) => StageView::Done(outcome_view(*outcome)),
        }
    }
}

/// The command that a failed search could not run.
pub open spec fn failed_tool(failure: SearchFailure) -> Tool {
    match failure {
        SearchFailure::Containers => Tool::ListContainers,
        SearchFailure::ContainerProcesses => Tool::ListContainerProcesses,
    }
}

/// Where the protocol stands once the search for the container stands at
/// `search`: a container that was found is stopped, a process that runs in
/// none is signalled, and a search that failed ends the protocol.
pub open spec fn after_search(search: SearchStageView) -> StageView {
    match search {
        SearchStageView::Found(id) => StageView::Stopping(id),
        SearchStageView::Absent => StageView::Requesting,
        SearchStageView::Failed(failure) => StageView::Done(
            Err(TerminationErrorView::Unavailable(failed_tool(failure))),
        ),
        _ => StageView::Locating(search),
    }
}

/// Where the protocol starts: with the search for the container where
/// containers are looked at, and with the request to stop where not.
pub open spec fn first_stage(docker_enabled: bool) -> StageView {
    if docker_enabled {
        StageView::Locating(SearchStageView::Listing)
    } else {
        StageView::Requesting
    }
}

/// What is to be done at `stage` for process `pid`.
pub open spec fn stage_action(pid: i32, stage: StageView) -> ActionView {
    match stage {
        StageView::Locating(search) => match search_probe(search) {
            Some(probe) => ActionView::Run(probe),
            None => ActionView::Run(ProbeView::Containers),
        },
        StageView::Stopping(id) => ActionView::Run(ProbeView::StopContainer(id)),
        StageView::Removing(id) => ActionView::Run(ProbeView::RemoveContainer(id)),
        StageView::Requesting => ActionView::Signal(SignalKind::Graceful),
        StageView::Waiting => ActionView::Wait(GRACE_PERIOD_MS),
        StageView::Checking => ActionView::Run(ProbeView::ProcessAlive(pid)),
        StageView::Forcing => ActionView::Signal(SignalKind::Forceful),
        StageView::Done(outcome) => ActionView::Finish(outcome),
    }
}

/// Whether `reply` is of the kind that `stage` waits for.
pub open spec fn awaited(stage: StageView, reply: ReplyView) -> bool {
    match stage {
        StageView::Locating(_) | StageView::Stopping(_) | StageView::Removing(_)
        | StageView::Checking => reply is Ran,
        StageView::Requesting | StageView::Forcing => reply is Signalled,
        StageView::Waiting => reply is Waited,
        StageView::Done(_) => false,
    }
}

/// Where the protocol for process `pid` stands after `reply` came in at
/// `stage`.
///
/// A container that stops ends the protocol well; one that does not is
/// removed by force, and the protocol fails only where that fails too. A
/// request to stop that is refused ends the protocol as failed; one that is
/// accepted is followed by the grace period and a look at the process: if it
/// is gone the protocol ends well, and if it still runs the forceful signal
/// is sent, whose acceptance or refusal ends the protocol. A reply of a kind
/// that the stage does not wait for changes nothing.
pub open spec fn stage_step(pid: i32, stage: StageView, reply: ReplyView) -> StageView {
    match (stage, reply) {
        (StageView::Locating(search), ReplyView::Ran(reply)) => after_search(
            search_step(pid, search, reply),
        ),
        (StageView::Stopping(id), ReplyView::Ran(Some(output))) => if output.success {
            StageView::Done(Ok(()))
        } else {
            StageView::Removing(id)
        },
        (StageView::Stopping(id), ReplyView::Ran(None)) => StageView::Done(
            Err(TerminationErrorView::Unavailable(Tool::StopContainer)),
        ),
        (StageView::Removing(id), ReplyView::Ran(Some(output))) => if output.success {
            StageView::Done(Ok(()))
        } else {
            StageView::Done(
                Err(
                    TerminationErrorView::RemovalFailed {
                        container_id: id,
                        stderr: output.stderr,
                    },
                ),
            )
        },
        (StageView::Removing(id), ReplyView::Ran(None)) => StageView::Done(
            Err(TerminationErrorView::Unavailable(Tool::RemoveContainer)),
        ),
        (StageView::Requesting, ReplyView::Signalled(Ok(()))) => StageView::Waiting,
        (StageView::Requesting, ReplyView::Signalled(Err(error))) => StageView::Done(
            Err(TerminationErrorView::SignalFailed { kind: SignalKind::Graceful, error }),
        ),
        (StageView::Waiting, ReplyView::Waited) => StageView::Checking,
        (StageView::Checking, ReplyView::Ran(reply)) => if is_running(reply) {
            StageView::Forcing
        } else {
            StageView::Done(Ok(()))
        },
        (StageView::Forcing, ReplyView::Signalled(Ok(()))) => StageView::Done(Ok(())),
        (StageView::Forcing, ReplyView::Signalled(Err(error))) => StageView::Done(
            Err(TerminationErrorView::SignalFailed { kind: SignalKind::Forceful, error }),
        ),
        (unmoved, _) => unmoved,
    }
}

/// Where the protocol stands after a run of replies.
pub open spec fn stage_run(pid: i32, stage: StageView, replies: Seq<ReplyView>) -> StageView
    decreases replies.len(),
{
    if replies.len() == 0 {
        stage
    } else {
        stage_run(pid, stage_step(pid, stage, replies[0]), replies.drop_first())
    }
}

/// A stage that looks for the container is in the middle of the search.
pub open spec fn stage_wf(stage: StageView) -> bool {
    stage matches StageView::Locating(search) ==> search_stage_wf(search) && !search_ended(search)
}

/// The protocol for ending one process.
#[derive(Debug, PartialEq, Eq)]
pub struct Termination {
    pid: i32,
    stage: Stage,
}

/// A `Termination` as plain values.
pub struct TerminationView {
    pub pid: i32,
    pub stage: StageView,
}

impl View for Termination {
    type V = TerminationView;

    closed spec fn view(&self) -> TerminationView {
        TerminationView { pid: self.pid, stage: self.stage@ }
    }
}

impl Stage {
    /// Whether the stage is one that the protocol can be in.
    pub open spec fn wf(&self) -> bool {
        &&& stage_wf(self@)
        &&& self matches Stage::Locating(search) ==> search.wf()
    }

    /// The stage that follows the search once it stands at `search`.
    fn following(search: SearchStage) -> (stage: Stage)
        requires
            search.wf(),
        ensures
            stage.wf(),
            stage@ == after_search(search@),
    {
        match search {
            SearchStage::Found(id) => Stage::Stopping(id),
            SearchStage::Absent => Stage::Requesting,
            SearchStage::Failed(failure) => match failure {
                SearchFailure::Containers => Stage::Done(
                    Err(TerminationError::Unavailable(Tool::ListContainers)),
                ),
                SearchFailure::ContainerProcesses => Stage::Done(
                    Err(TerminationError::Unavailable(Tool::ListContainerProcesses)),
                ),
            },
            SearchStage::Listing => Stage::Locating(SearchStage::Listing),
            SearchStage::Asking { candidates, position } => Stage::Locating(
                SearchStage::Asking { candidates, position },
            ),
        }
    }
}

/// A copy of how the protocol ended.
fn copy_outcome(outcome: &Result<(), TerminationError>) -> (copy: Result<(), TerminationError>)
    ensures
        outcome_view(copy) == outcome_view(*outcome),
{
    match outcome {
        Ok(()) => Ok(()),
        Err(TerminationError::Unavailable(tool)) => Err(TerminationError::Unavailable(*tool)),
        Err(TerminationError::RemovalFailed { container_id, stderr }) => Err(
            TerminationError::RemovalFailed {
                container_id: container_id.clone(),
                stderr: stderr.clone(),
            },
        ),
        Err(TerminationError::SignalFailed { kind, error }) => Err(
            TerminationError::SignalFailed {
                kind: *kind,
                error: SignalError { fault: error.fault, description: error.description.clone() },
            },
        ),
    }
}

impl Termination {
    /// A protocol that looks for the container is in the middle of the
    /// search.
    #[verifier::type_invariant]
    pub closed spec fn wf(&self) -> bool {
        self.stage.wf()
    }

    /// The process that the protocol ends.
    pub fn pid(&self) -> (pid: i32)
        ensures
            pid == self@.pid,
    {
        self.pid
    }

    /// Where the protocol stands.
    pub fn stage(&self) -> (stage: &Stage)
        ensures
            stage@ == self@.stage,
            stage.wf(),
    {
        proof {
            use_type_invariant(self);
        }
        &self.stage
    }

    /// The protocol for process `pid`, before anything was done.
    pub fn begin(pid: i32, docker_enabled: bool) -> (protocol: Self)
        ensures
            protocol@ == (TerminationView { pid, stage: first_stage(docker_enabled) }),
    {
        if docker_enabled {
            Termination { pid, stage: Stage::Locating(SearchStage::Listing) }
        } else {
            Termination { pid, stage: Stage::Requesting }
        }
    }

    /// What is to be done next.
    pub fn action(&self) -> (action: Action)
        ensures
            action@ == stage_action(self@.pid, self@.stage),
    {
        proof {
            use_type_invariant(self);
        }
        match &self.stage {
            Stage::Locating(search) => match search.probe() {
                Some(probe) => Action::Run(probe),
                None => Action::Run(Probe::Containers),
            },
            Stage::Stopping(id) => Action::Run(Probe::StopContainer(id.clone())),
            Stage::Removing(id) => Action::Run(Probe::RemoveContainer(id.clone())),
            Stage::Requesting => Action::Signal(SignalKind::Graceful),
            Stage::Waiting => Action::Wait(GRACE_PERIOD_MS),
            Stage::Checking => Action::Run(Probe::ProcessAlive(self.pid)),
            Stage::Forcing => Action::Signal(SignalKind::Forceful),
            Stage::Done(outcome) => Action::Finish(copy_outcome(outcome)),
        }
    }

    /// How the protocol ended; `None` while it has not.
    pub fn outcome(&self) -> (outcome: Option<Result<(), TerminationError>>)
        ensures
            outcome is Some <==> self@.stage is Done,
            outcome matches Some(result) ==> self@.stage == StageView::Done(outcome_view(result)),
    {
        match &self.stage {
            Stage::Done(outcome) => Some(copy_outcome(outcome)),
            _ => None,
        }
    }

    /// The protocol after `reply` came in.
    pub fn advance(self, reply: Reply) -> (next: Self)
        ensures
            next@.pid == self@.pid,
            next@.stage == stage_step(self@.pid, self@.stage, reply@),
    {
        proof {
            use_type_invariant(&self);
        }
        let pid = self.pid;
        let stage = match self.stage {
            Stage::Locating(search) => match reply {
                Reply::Ran(reply) => Stage::following(search.advance(pid, reply)),
                _ => Stage::Locating(search),
            },
            Stage::Stopping(id) => match reply {
                Reply::Ran(Some(output)) => {
                    if output.success {
                        Stage::Done(Ok(()))
                    } else {
                        Stage::Removing(id)
                    }
                },
                Reply::Ran(None) => Stage::Done(
                    Err(TerminationError::Unavailable(Tool::StopContainer)),
                ),
                _ => Stage::Stopping(id),
            },
            Stage::Removing(id) => match reply {
                Reply::Ran(Some(output)) => {
                    if output.success {
                        Stage::Done(Ok(()))
                    } else {
                        Stage::Done(
                            Err(
                                TerminationError::RemovalFailed {
                                    container_id: id,
                                    stderr: output.stderr,
                                },
                            ),
                        )
                    }
                },
                Reply::Ran(None) => Stage::Done(
                    Err(TerminationError::Unavailable(Tool::RemoveContainer)),
                ),
                _ => Stage::Removing(id),
            },
            Stage::Requesting => match reply {
                Reply::Signalled(Ok(())) => Stage::Waiting,
                Reply::Signalled(Err(error)) => Stage::Done(
                    Err(TerminationError::SignalFailed { kind: SignalKind::Graceful, error }),
                ),
                _ => Stage::Requesting,
            },
            Stage::Waiting => match reply {
                Reply::Waited => Stage::Checking,
                _ => Stage::Waiting,
            },
            Stage::Checking => match reply {
                Reply::Ran(reply) => {
                    if probe_says_running(&reply) {
                        Stage::Forcing
                    } else {
                        Stage::Done(Ok(()))
                    }
                },
                _ => Stage::Checking,
            },
            Stage::Forcing => match reply {
                Reply::Signalled(Ok(())) => Stage::Done(Ok(())),
                Reply::Signalled(Err(error)) => Stage::Done(
                    Err(TerminationError::SignalFailed { kind: SignalKind::Forceful, error }),
                ),
                _ => Stage::Forcing,
            },
            Stage::Done(outcome) => Stage::Done(outcome),
        };
        Termination { pid, stage }
    }
}

/// How far a stage is from the end of the protocol, in stages.
pub open spec fn stage_rank(stage: StageView) -> nat {
    match stage {
        StageView::Locating(SearchStageView::Listing) => 6,
        StageView::Locating(_) => 5,
        StageView::Requesting => 4,
        StageView::Waiting => 3,
        StageView::Checking => 2,
        StageView::Stopping(_) => 2,
        StageView::Forcing => 1,
        StageView::Removing(_) => 1,
        StageView::Done(_) => 0,
    }
}

/// How many containers a stage may still ask for their processes.
pub open spec fn stage_candidates(stage: StageView) -> nat {
    match stage {
        StageView::Locating(SearchStageView::Asking { candidates, position }) => (candidates.len()
            - position) as nat,
        _ => 0,
    }
}

/// The protocol always ends. Each reply of the kind that the stage waits for
/// moves the protocol to a stage nearer the end, or leaves one container
/// fewer to ask; a reply of another kind changes nothing; and a protocol that
/// has ended waits for no reply.
pub proof fn lemma_termination_progress(pid: i32, stage: StageView, reply: ReplyView)
    requires
        stage_wf(stage),
    ensures
        stage_wf(stage_step(pid, stage, reply)),
        !awaited(stage, reply) ==> stage_step(pid, stage, reply) == stage,
        awaited(stage, reply) ==> stage_rank(stage_step(pid, stage, reply)) < stage_rank(stage)
            || (stage_rank(stage_step(pid, stage, reply)) == stage_rank(stage) && stage_candidates(
            stage_step(pid, stage, reply),
        ) < stage_candidates(stage)),
{
}

/// The forceful signal follows a look at the process that found it running,
/// and nothing else: the protocol comes to wait for the forceful signal only
/// from the stage that checks the process, on a probe that ran and succeeded.
/// The request to stop was accepted before that, and the grace period has
/// passed, as the check follows nothing but the wait, and the wait nothing
/// but the accepted request.
pub proof fn lemma_force_follows_live_probe(pid: i32, stage: StageView, reply: ReplyView)
    requires
        stage_wf(stage),
    ensures
        stage_step(pid, stage, reply) is Forcing && !(stage is Forcing) ==> stage is Checking
            && reply is Ran && is_running(reply->Ran_0),
        stage_step(pid, stage, reply) is Checking && !(stage is Checking) ==> stage is Waiting
            && reply is Waited,
        stage_step(pid, stage, reply) is Waiting && !(stage is Waiting) ==> stage is Requesting
            && reply is Signalled && reply->Signalled_0 is Ok,
        stage is Forcing && reply is Signalled ==> stage_step(pid, stage, reply) is Done,
        stage is Checking && reply is Ran && !is_running(reply->Ran_0) ==> stage_step(
            pid,
            stage,
            reply,
        ) == StageView::Done(Ok(())),
{
}

/// The replies of commands, as replies to the protocol.
pub open spec fn ran(replies: Seq<Option<CommandOutputView>>) -> Seq<ReplyView> {
    Seq::new(replies.len(), |i: int| ReplyView::Ran(replies[i]))
}

/// Where no container that is asked holds the process, the protocol goes on
/// to signal the process once the last has answered.
pub proof fn lemma_no_container_leads_to_request(
    pid: i32,
    candidates: Seq<Seq<char>>,
    position: int,
    answers: Seq<Option<CommandOutputView>>,
    then: Seq<ReplyView>,
)
    requires
        0 <= position < candidates.len(),
        answers.len() == candidates.len() - position,
        forall|j: int|
            0 <= j < answers.len() ==> (#[trigger] answers[j]) is Some && !lists_pid(
                answers[j]->0,
                pid,
            ),
    ensures
        stage_run(
            pid,
            StageView::Locating(SearchStageView::Asking { candidates, position }),
            ran(answers) + then,
        ) == stage_run(pid, StageView::Requesting, then),
    decreases answers.len(),
{
    let replies = ran(answers) + then;
    let rest = answers.drop_first();
    assert(replies[0] == ReplyView::Ran(answers[0]));
    assert(replies.drop_first() =~= ran(rest) + then);
    if position + 1 < candidates.len() {
        assert forall|j: int| 0 <= j < rest.len() implies (#[trigger] rest[j]) is Some
            && !lists_pid(rest[j]->0, pid) by {
            assert(rest[j] == answers[j + 1]);
        }
        lemma_no_container_leads_to_request(pid, candidates, position + 1, rest, then);
    } else {
        assert(ran(rest) + then =~= then);
    }
}

/// What comes in while a process that is gone already is ended: where
/// containers are looked at, the listing of the containers and the processes
/// of each; then the refusal of the request to stop.
pub open spec fn gone_run(
    docker_enabled: bool,
    listing: CommandOutputView,
    answers: Seq<Option<CommandOutputView>>,
    refusal: SignalErrorView,
) -> Seq<ReplyView> {
    if docker_enabled {
        seq![ReplyView::Ran(Some(listing))] + ran(answers) + seq![
            ReplyView::Signalled(Err(refusal)),
        ]
    } else {
        seq![ReplyView::Signalled(Err(refusal))]
    }
}

/// Whether what comes in is what a process that is gone gives rise to: the
/// system refuses the request to stop because no process has that number;
/// and, where containers are looked at, each container that is listed
/// answers, and none holds the process.
pub open spec fn is_gone(
    pid: i32,
    docker_enabled: bool,
    listing: CommandOutputView,
    answers: Seq<Option<CommandOutputView>>,
    refusal: SignalErrorView,
) -> bool {
    &&& refusal.fault == SignalFault::NoSuchProcess
    &&& docker_enabled ==> {
        &&& answers.len() == listed_containers(listing).len()
        &&& forall|j: int|
            0 <= j < answers.len() ==> (#[trigger] answers[j]) is Some && !lists_pid(
                answers[j]->0,
                pid,
            )
    }
}

/// Ending a process that is gone already fails as not found, and ends there:
/// the protocol ends with the failure that the system gave for the request
/// to stop, which says that the process was gone.
pub proof fn lemma_gone_process_is_not_found(
    pid: i32,
    docker_enabled: bool,
    listing: CommandOutputView,
    answers: Seq<Option<CommandOutputView>>,
    refusal: SignalErrorView,
)
    requires
        is_gone(pid, docker_enabled, listing, answers, refusal),
    ensures
        stage_run(pid, first_stage(docker_enabled), gone_run(docker_enabled, listing, answers, refusal))
            == StageView::Done(
            Err(TerminationErrorView::SignalFailed { kind: SignalKind::Graceful, error: refusal }),
        ),
        is_not_found(
            TerminationErrorView::SignalFailed { kind: SignalKind::Graceful, error: refusal },
        ),
{
    let last = seq![ReplyView::Signalled(Err(refusal))];
    let done = StageView::Done(
        Err(TerminationErrorView::SignalFailed { kind: SignalKind::Graceful, error: refusal }),
    );
    assert(stage_run(pid, StageView::Requesting, last) == done) by {
        assert(last.drop_first() =~= Seq::<ReplyView>::empty());
        assert(stage_run(pid, done, last.drop_first()) == done);
    }
    if docker_enabled {
        let replies = gone_run(docker_enabled, listing, answers, refusal);
        let candidates = listed_containers(listing);
        assert(replies[0] == ReplyView::Ran(Some(listing)));
        assert(replies.drop_first() =~= ran(answers) + last);
        if candidates.len() > 0 {
            lemma_no_container_leads_to_request(pid, candidates, 0, answers, last);
        } else {
            assert(ran(answers) + last =~= last);
        }
    }
}

/// Ending a process twice in a row that was gone before the first time
/// fails as not found both times: the second time is like the first, as the
/// protocol keeps nothing from one time to the next.
pub proof fn lemma_terminate_twice_on_gone_process(
    pid: i32,
    docker_enabled: bool,
    first_listing: CommandOutputView,
    first_answers: Seq<Option<CommandOutputView>>,
    first_refusal: SignalErrorView,
    second_listing: CommandOutputView,
    second_answers: Seq<Option<CommandOutputView>>,
    second_refusal: SignalErrorView,
)
    requires
        is_gone(pid, docker_enabled, first_listing, first_answers, first_refusal),
        is_gone(pid, docker_enabled, second_listing, second_answers, second_refusal),
    ensures
        stage_run(
            pid,
            first_stage(docker_enabled),
            gone_run(docker_enabled, first_listing, first_answers, first_refusal),
        ) matches StageView::Done(Err(error)) && is_not_found(error),
        stage_run(
            pid,
            first_stage(docker_enabled),
            gone_run(docker_enabled, second_listing, second_answers, second_refusal),
        ) matches StageView::Done(Err(error)) && is_not_found(error),
{
    lemma_gone_process_is_not_found(
        pid,
        docker_enabled,
        first_listing,
        first_answers,
        first_refusal,
    );
    lemma_gone_process_is_not_found(
        pid,
        docker_enabled,
        second_listing,
        second_answers,
        second_refusal,
    );
}

/// A process that stops during the grace period is ended well: where the
/// request to stop is accepted and the look at the process after the grace
/// period does not find it, the protocol ends without a failure and without
/// the forceful signal.
pub proof fn lemma_stop_during_grace_is_success(pid: i32, probe: Option<CommandOutputView>)
    requires
        !is_running(probe),
    ensures
        stage_run(
            pid,
            StageView::Requesting,
            seq![ReplyView::Signalled(Ok(())), ReplyView::Waited, ReplyView::Ran(probe)],
        ) == StageView::Done(Ok(())),
{
    let replies = seq![ReplyView::Signalled(Ok(())), ReplyView::Waited, ReplyView::Ran(probe)];
    let after_one = replies.drop_first();
    let after_two = after_one.drop_first();
    assert(after_two.drop_first() =~= Seq::<ReplyView>::empty());
    assert(stage_run(pid, StageView::Done(Ok(())), after_two.drop_first()) == StageView::Done(
        Ok(()),
    ));
    assert(stage_run(pid, StageView::Checking, after_two) == StageView::Done(Ok(())));
    assert(stage_run(pid, StageView::Waiting, after_one) == StageView::Done(Ok(())));
}

} // verus!
