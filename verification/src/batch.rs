//! Ending every process of a snapshot: each is attempted in turn, whatever
//! became of those before it, and what failed is reported together at the
//! end.

use crate::decimal::{decimal, push_decimal, push_signed_decimal, signed_decimal};
use crate::probe::texts;
use crate::termination::{error_message, outcome_view, TerminationError, TerminationErrorView};
use crate::text::join;
use crate::types::ProcessInfo;
use std::collections::HashMap;
use vstd::prelude::*;
use vstd::std_specs::hash::*;
use vstd::std_specs::iter::IteratorSpec;

verus! {

broadcast use group_hash_axioms;

/// A process to end, and the port that it was found on.
#[derive(Debug, Clone, Copy, PartialEq, Eq, Structural)]
pub struct Target {
    pub port: u16,
    pub pid: i32,
}

/// Whether `target` is a process of the snapshot, under its port.
pub open spec fn is_target(processes: Map<u16, ProcessInfo>, target: Target) -> bool {
    processes.contains_key(target.port) && processes[target.port].pid == target.pid
}

/// The report of one failure: the port, the process and the reason.
pub open spec fn failure_line(target: Target, error: TerminationErrorView) -> Seq<char> {
    "Port "@ + decimal(target.port as nat) + " (PID "@ + signed_decimal(target.pid as int) + "): "@
        + error_message(error)
}

/// The reports of the failures among `results`, in order, where
/// `results[i]` is what became of `targets[i]`.
pub open spec fn failure_lines(
    targets: Seq<Target>,
    results: Seq<Result<(), TerminationErrorView>>,
) -> Seq<Seq<char>>
    decreases results.len(),
{
    if results.len() == 0 {
        Seq::empty()
    } else {
        match results.last() {
            Err(error) => failure_lines(targets, results.drop_last()).push(
                failure_line(targets[results.len() - 1], error),
            ),
            Ok(_) => failure_lines(targets, results.drop_last()),
        }
    }
}

/// How many of `results` are failures.
pub open spec fn failure_count(results: Seq<Result<(), TerminationErrorView>>) -> nat
    decreases results.len(),
{
    if results.len() == 0 {
        0
    } else if results.last() is Err {
        failure_count(results.drop_last()) + 1
    } else {
        failure_count(results.drop_last())
    }
}

/// What the batch reports at its end: success where nothing failed, and
/// otherwise every failure, with a semicolon and a space between each two.
pub open spec fn batch_outcome(failures: Seq<Seq<char>>) -> Result<(), Seq<char>> {
    if failures.len() == 0 {
        Ok(())
    } else {
        Err("Some processes failed to kill: "@ + join(failures, "; "@))
    }
}

/// The batch: the processes to end, how many of them were attempted, and
/// the reports of those that failed.
#[derive(Debug, PartialEq, Eq)]
pub struct KillAll {
    targets: Vec<Target>,
    attempted: usize,
    failures: Vec<String>,
}

/// A `KillAll` as plain values.
pub struct KillAllView {
    pub targets: Seq<Target>,
    pub attempted: int,
    pub failures: Seq<Seq<char>>,
}

impl View for KillAll {
    type V = KillAllView;

    closed spec fn view(&self) -> KillAllView {
        KillAllView {
            targets: self.targets@,
            attempted: self.attempted as int,
            failures: texts(self.failures@),
        }
    }
}

/// The batch before any attempt.
pub open spec fn batch_begin(targets: Seq<Target>) -> KillAllView {
    KillAllView { targets, attempted: 0, failures: Seq::empty() }
}

/// The process to attempt next; none once all were attempted.
pub open spec fn batch_target(batch: KillAllView) -> Option<Target> {
    if 0 <= batch.attempted < batch.targets.len() {
        Some(batch.targets[batch.attempted])
    } else {
        None
    }
}

/// The batch after the attempt on its next process ended as `result`: the
/// turn passes to the process after it, and a failure is put on record. A
/// batch with no process left stays as it is.
pub open spec fn batch_step(
    batch: KillAllView,
    result: Result<(), TerminationErrorView>,
) -> KillAllView {
    match batch_target(batch) {
        Some(target) => KillAllView {
            targets: batch.targets,
            attempted: batch.attempted + 1,
            failures: match result {
                Err(error) => batch.failures.push(failure_line(target, error)),
                Ok(_) => batch.failures,
            },
        },
        None => batch,
    }
}

/// The batch after the attempts ended as `results`, in order.
pub open spec fn batch_run(
    batch: KillAllView,
    results: Seq<Result<(), TerminationErrorView>>,
) -> KillAllView
    decreases results.len(),
{
    if results.len() == 0 {
        batch
    } else {
        batch_step(batch_run(batch, results.drop_last()), results.last())
    }
}

/// The processes of a snapshot, each once, in no particular order.
pub fn targets_of(processes: &HashMap<u16, ProcessInfo>) -> (targets: Vec<Target>)
    ensures
        targets@.len() == processes@.len(),
        targets@.no_duplicates(),
        forall|target: Target| targets@.contains(target) <==> is_target(processes@, target),
{
    let mut targets: Vec<Target> = Vec::new();
    let ghost entries = spec_hash_map_iter(processes).remaining();
    for entry in it: processes.iter()
        invariant
            it.seq() == entries,
            targets@.len() == it.index(),
            forall|i: int|
                0 <= i < targets@.len() ==> (#[trigger] targets@[i]).port == *entries[i].0
                    && targets@[i].pid == entries[i].1.pid,
    {
        let (port, info) = entry;
        targets.push(Target { port: *port, pid: info.pid });
    }
    proof {
        assert(entries.no_duplicates());
        assert forall|i: int, j: int|
            0 <= i < targets@.len() && 0 <= j < targets@.len() && i != j implies targets@[i]
            != targets@[j] by {
            if targets@[i].port == targets@[j].port {
                assert(processes@[*entries[i].0] == *entries[i].1);
                assert(processes@[*entries[j].0] == *entries[j].1);
                assert(entries[i] == entries[j]);
            }
        }
        assert forall|target: Target| targets@.contains(target) implies is_target(
            processes@,
            target,
        ) by {
            let i = choose|i: int| 0 <= i < targets@.len() && targets@[i] == target;
            assert(processes@.contains_key(*entries[i].0));
        }
        assert forall|target: Target| is_target(processes@, target) implies targets@.contains(
            target,
        ) by {
            let pair = (&target.port, &processes@[target.port]);
            assert(entries.contains(pair));
            let i = choose|i: int| 0 <= i < entries.len() && entries[i] == pair;
            assert(targets@[i] == target);
        }
    }
    targets
}

impl KillAll {
    /// No more processes were attempted than there are, and no more failed
    /// than were attempted.
    #[verifier::type_invariant]
    pub closed spec fn wf(&self) -> bool {
        self.attempted <= self.targets@.len() && self.failures@.len() <= self.attempted
    }

    /// The processes of the batch, in the order of their turns.
    pub fn targets(&self) -> (targets: &Vec<Target>)
        ensures
            targets@ == self@.targets,
    {
        &self.targets
    }

    /// How many processes were attempted.
    pub fn attempted(&self) -> (attempted: usize)
        ensures
            attempted == self@.attempted,
    {
        self.attempted
    }

    /// The reports of the failures so far, in order.
    pub fn failures(&self) -> (failures: &Vec<String>)
        ensures
            texts(failures@) == self@.failures,
    {
        &self.failures
    }

    /// The batch that ends `targets`, in that order.
    pub fn begin(targets: Vec<Target>) -> (batch: Self)
        ensures
            batch@ == batch_begin(targets@),
    {
        let batch = KillAll { targets, attempted: 0, failures: Vec::new() };
        assert(batch@.failures =~= Seq::<Seq<char>>::empty());
        batch
    }

    /// The process to attempt next; none once all were attempted.
    pub fn next_target(&self) -> (target: Option<Target>)
        ensures
            target == batch_target(self@),
    {
        if self.attempted < self.targets.len() {
            Some(self.targets[self.attempted])
        } else {
            None
        }
    }

    /// The batch after the attempt on its next process ended as `result`.
    pub fn record(self, result: Result<(), TerminationError>) -> (next: Self)
        ensures
            next@ == batch_step(self@, outcome_view(result)),
    {
        proof {
            use_type_invariant(&self);
        }
        if self.attempted >= self.targets.len() {
            return self;
        }
        let target = self.targets[self.attempted];
        let mut failures = self.failures;
        let ghost before = texts(failures@);
        match result {
            Err(error) => {
                let mut line = "Port ".to_string();
                push_decimal(&mut line, target.port as u64);
                line.append(" (PID ");
                push_signed_decimal(&mut line, target.pid);
                line.append("): ");
                let reason = error.message();
                line.append(reason.as_str());
                assert(line@ =~= failure_line(target, error@));
                failures.push(line);
                assert(texts(failures@) =~= before.push(failure_line(target, error@)));
            },
            Ok(()) => {},
        }
        KillAll { targets: self.targets, attempted: self.attempted + 1, failures }
    }

    /// What the batch reports: success where nothing failed so far, and
    /// otherwise every failure so far.
    pub fn finish(&self) -> (report: Result<(), String>)
        ensures
            report is Ok <==> batch_outcome(self@.failures) is Ok,
            report matches Err(text) ==> batch_outcome(self@.failures) == Err::<(), Seq<char>>(
                text@,
            ),
    {
        if self.failures.len() == 0 {
            return Ok(());
        }
        let mut text = "Some processes failed to kill: ".to_string();
        let ghost head = text@;
        let mut i: usize = 0;
        assert(texts(self.failures@).take(0) =~= Seq::<Seq<char>>::empty());
        assert(text@ =~= head + join(texts(self.failures@).take(0), "; "@));
        while i < self.failures.len()
            invariant
                i <= self.failures.len(),
                text@ == head + join(texts(self.failures@).take(i as int), "; "@),
            decreases self.failures.len() - i,
        {
            let ghost done = texts(self.failures@).take(i as int);
            let ghost next = texts(self.failures@).take(i + 1);
            assert(next.drop_last() =~= done);
            assert(next.last() == self.failures@[i as int]@);
            if i > 0 {
                text.append("; ");
            }
            text.append(self.failures[i].as_str());
            assert(text@ =~= head + join(next, "; "@));
            i += 1;
        }
        assert(texts(self.failures@).take(self.failures.len() as int) =~= texts(self.failures@));
        Err(text)
    }
}

/// Every process of a batch is attempted, and every failure reported.
///
/// Where the attempts on the `k` processes of a batch end as `results`, of
/// which `m` are failures: each process had its turn, whatever became of
/// those before it; all `k` were attempted; the batch holds `m` reports,
/// those of the processes that failed, in order; and it reports success if
/// and only if `m` is zero.
pub proof fn lemma_batch_reports_every_failure(
    targets: Seq<Target>,
    results: Seq<Result<(), TerminationErrorView>>,
)
    requires
        results.len() == targets.len(),
    ensures
        forall|k: int|
            0 <= k < targets.len() ==> batch_target(
                batch_run(batch_begin(targets), #[trigger] results.take(k)),
            ) == Some(targets[k]),
        batch_run(batch_begin(targets), results).attempted == targets.len(),
        batch_target(batch_run(batch_begin(targets), results)) is None,
        batch_run(batch_begin(targets), results).failures == failure_lines(targets, results),
        batch_run(batch_begin(targets), results).failures.len() == failure_count(results),
        failure_count(results) <= targets.len(),
        batch_outcome(batch_run(batch_begin(targets), results).failures) is Ok <==> failure_count(
            results,
        ) == 0,
{
    assert forall|k: int| 0 <= k <= targets.len() implies ({
        let batch = batch_run(batch_begin(targets), #[trigger] results.take(k));
        &&& batch.targets == targets
        &&& batch.attempted == k
        &&& batch.failures == failure_lines(targets, results.take(k))
        &&& batch.failures.len() == failure_count(results.take(k))
        &&& failure_count(results.take(k)) <= k
    }) by {
        lemma_batch_prefix(targets, results, k);
    }
    assert(results.take(results.len() as int) =~= results);
}

/// What holds of a batch after the first `k` attempts.
proof fn lemma_batch_prefix(
    targets: Seq<Target>,
    results: Seq<Result<(), TerminationErrorView>>,
    k: int,
)
    requires
        results.len() == targets.len(),
        0 <= k <= targets.len(),
    ensures
        batch_run(batch_begin(targets), results.take(k)).targets == targets,
        batch_run(batch_begin(targets), results.take(k)).attempted == k,
        batch_run(batch_begin(targets), results.take(k)).failures == failure_lines(
            targets,
            results.take(k),
        ),
        batch_run(batch_begin(targets), results.take(k)).failures.len() == failure_count(
            results.take(k),
        ),
        failure_count(results.take(k)) <= k,
    decreases k,
{
    if k > 0 {
        lemma_batch_prefix(targets, results, k - 1);
        assert(results.take(k).drop_last() =~= results.take(k - 1));
    }
}

} // verus!
