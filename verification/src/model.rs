//! The batch as a state machine over plain values: its states, its two
//! transitions, and what holds of every state that they reach.

use crate::outcome::{BatchResultView, CompletionView, FailureKind, FailureView, TaskOutcomeView};
use crate::paths::{classify_spec, Eligibility};
use crate::request::Operation;
use crate::transform::{plan_for, TransformPlanView};
use vstd::prelude::*;

verus! {

/// Where a candidate stands. A candidate is skipped at once or becomes a
/// task, which waits for a permit, runs, and ends in success or failure.
/// Nothing leads back: a failed task is not tried again.
#[derive(Clone, Copy, Debug, PartialEq, Eq, Structural)]
pub enum Phase {
    Skipped,
    Gated,
    Running,
    Succeeded,
    Failed,
}

/// How many entries of `phases` are `phase`.
pub open spec fn count_phase(phases: Seq<Phase>, phase: Phase) -> nat
    decreases phases.len(),
{
    if phases.len() == 0 {
        0
    } else {
        count_phase(phases.drop_last(), phase) + if phases.last() == phase { 1nat } else { 0nat }
    }
}

/// The first index at or after `from` whose phase is `Gated`, or the length
/// of `phases` where there is none.
pub open spec fn first_gated(phases: Seq<Phase>, from: int) -> int
    decreases phases.len() - from,
{
    if from < 0 || from >= phases.len() {
        phases.len() as int
    } else if phases[from] == Phase::Gated {
        from
    } else {
        first_gated(phases, from + 1)
    }
}

pub proof fn lemma_count_push(phases: Seq<Phase>, added: Phase, phase: Phase)
    ensures
        count_phase(phases.push(added), phase) == count_phase(phases, phase) + if added == phase { 1nat } else { 0nat },
{
    assert(phases.push(added).drop_last() =~= phases);
}

pub proof fn lemma_count_update(phases: Seq<Phase>, i: int, changed: Phase, phase: Phase)
    requires
        0 <= i < phases.len(),
    ensures
        count_phase(phases.update(i, changed), phase) + (if phases[i] == phase { 1nat } else { 0nat })
            == count_phase(phases, phase) + if changed == phase { 1nat } else { 0nat },
    decreases phases.len(),
{
    if i == phases.len() - 1 {
        assert(phases.update(i, changed).drop_last() =~= phases.drop_last());
    } else {
        lemma_count_update(phases.drop_last(), i, changed, phase);
        assert(phases.update(i, changed).drop_last() =~= phases.drop_last().update(i, changed));
    }
}

/// A phase that occurs is counted, and a phase that is counted occurs.
pub proof fn lemma_count_occurs(phases: Seq<Phase>, phase: Phase)
    ensures
        count_phase(phases, phase) <= phases.len(),
        count_phase(phases, phase) > 0 <==> exists|i: int| 0 <= i < phases.len() && phases[i] == phase,
    decreases phases.len(),
{
    if phases.len() > 0 {
        let front = phases.drop_last();
        lemma_count_occurs(front, phase);
        if phases.last() == phase {
            assert(phases[phases.len() - 1] == phase);
        } else if count_phase(front, phase) > 0 {
            let i = choose|i: int| 0 <= i < front.len() && front[i] == phase;
            assert(phases[i] == phase);
        } else {
            assert forall|i: int| 0 <= i < phases.len() implies phases[i] != phase by {
                if i < front.len() {
                    assert(front[i] == phases[i]);
                }
            }
        }
    }
}

/// `first_gated` finds the first gated task and passes over no other.
pub proof fn lemma_first_gated(phases: Seq<Phase>, from: int)
    requires
        0 <= from <= phases.len(),
    ensures
        from <= first_gated(phases, from) <= phases.len(),
        first_gated(phases, from) < phases.len() ==> phases[first_gated(phases, from)] == Phase::Gated,
        forall|i: int| from <= i < first_gated(phases, from) ==> phases[i] != Phase::Gated,
    decreases phases.len() - from,
{
    if from < phases.len() && phases[from] != Phase::Gated {
        lemma_first_gated(phases, from + 1);
    }
}

/// The state of a batch.
pub struct BatchState {
    pub operation: Operation,
    pub keep_original: bool,
    pub verbose: bool,
    /// The number of permits of the concurrency gate.
    pub capacity: nat,
    /// The candidates in the order of their discovery; a task is known by its index.
    pub paths: Seq<Seq<char>>,
    /// The phase of each candidate.
    pub phases: Seq<Phase>,
    /// The failures so far, in the order in which the tasks ended.
    pub failures: Seq<FailureView>,
}

/// A transform to start now.
pub struct LaunchView {
    pub task: int,
    pub plan: TransformPlanView,
}

/// What a transition asks of the driver.
pub struct StepView {
    /// Lines to print, in order. Empty unless the batch is verbose.
    pub notices: Seq<Seq<char>>,
    /// The transform to start, if a permit was granted.
    pub launch: Option<LaunchView>,
}

/// The line that announces a skipped file.
pub open spec fn skip_notice(path: Seq<char>) -> Seq<char> {
    "Skipping "@ + path
}

/// The line that announces the start of a transform.
pub open spec fn start_notice(path: Seq<char>, operation: Operation) -> Seq<char> {
    match operation {
        Operation::Compress => "Compressing "@ + path,
        Operation::Decompress => "Deompressing "@ + path,
    }
}

impl CompletionView {
    /// The phase in which a task with this completion ends.
    pub open spec fn phase(self) -> Phase {
        match self {
            CompletionView::Succeeded => Phase::Succeeded,
            _ => Phase::Failed,
        }
    }

    /// The failure that this completion records for `task` on `path`, if it is one.
    pub open spec fn failure(self, task: int, path: Seq<char>) -> Option<FailureView> {
        match self {
            CompletionView::Succeeded => None,
            CompletionView::IoFailed(detail) => Some(FailureView { task, path, kind: FailureKind::Io, detail }),
            CompletionView::Faulted(detail) => Some(
                FailureView { task, path, kind: FailureKind::ExecutionFault, detail },
            ),
        }
    }
}

impl BatchState {
    /// The state before any candidate was seen.
    pub open spec fn initial(operation: Operation, keep_original: bool, verbose: bool, max_concurrency: usize) -> BatchState {
        BatchState {
            operation,
            keep_original,
            verbose,
            capacity: if max_concurrency == 0 { 1nat } else { max_concurrency as nat },
            paths: Seq::empty(),
            phases: Seq::empty(),
            failures: Seq::empty(),
        }
    }

    /// The number of tasks that hold a permit.
    pub open spec fn running(self) -> nat {
        count_phase(self.phases, Phase::Running)
    }

    /// The number of tasks that wait for a permit.
    pub open spec fn gated(self) -> nat {
        count_phase(self.phases, Phase::Gated)
    }

    /// The number of candidates that were eligible.
    pub open spec fn dispatched(self) -> nat {
        (self.phases.len() - count_phase(self.phases, Phase::Skipped)) as nat
    }

    /// No task waits and none runs.
    pub open spec fn settled(self) -> bool {
        self.gated() == 0 && self.running() == 0
    }

    /// What holds of every state that the transitions reach from `initial`.
    pub open spec fn consistent(self) -> bool {
        &&& self.capacity >= 1
        &&& self.paths.len() == self.phases.len()
        // never more holders than permits
        &&& self.running() <= self.capacity
        // no permit lies idle while a task waits
        &&& (self.gated() > 0 ==> self.running() == self.capacity)
        // each failed task has its one entry among the failures
        &&& self.failures.len() == count_phase(self.phases, Phase::Failed)
        &&& forall|k: int|
            0 <= k < self.failures.len() ==> {
                let f = #[trigger] self.failures[k];
                &&& 0 <= f.task < self.phases.len()
                &&& self.phases[f.task] == Phase::Failed
                &&& f.path == self.paths[f.task]
            }
        &&& forall|j: int, k: int|
            0 <= j < k < self.failures.len() ==> (#[trigger] self.failures[j]).task != (#[trigger] self.failures[k]).task
        &&& forall|i: int|
            0 <= i < self.phases.len() && #[trigger] self.phases[i] == Phase::Failed ==> self.has_failure_of(i)
    }

    /// Some entry of the failures is about `task`.
    pub open spec fn has_failure_of(self, task: int) -> bool {
        exists|k: int| 0 <= k < self.failures.len() && (#[trigger] self.failures[k]).task == task
    }

    /// The phase in which a new candidate starts.
    pub open spec fn entry_phase(self, path: Seq<char>, is_regular_file: bool) -> Phase {
        if classify_spec(path, is_regular_file, self.operation) != Eligibility::Eligible {
            Phase::Skipped
        } else if self.running() < self.capacity {
            Phase::Running
        } else {
            Phase::Gated
        }
    }

    /// The state after the candidate `path` was discovered.
    pub open spec fn discover(self, path: Seq<char>, is_regular_file: bool) -> BatchState {
        BatchState {
            paths: self.paths.push(path),
            phases: self.phases.push(self.entry_phase(path, is_regular_file)),
            ..self
        }
    }

    /// The announcement of a start, for a verbose batch.
    pub open spec fn start_notices(self, path: Seq<char>) -> Seq<Seq<char>> {
        if self.verbose {
            seq![start_notice(path, self.operation)]
        } else {
            Seq::empty()
        }
    }

    /// The order to start the transform of `task`.
    pub open spec fn launch(self, task: int) -> LaunchView {
        LaunchView { task, plan: plan_for(self.paths[task], self.operation, self.keep_original) }
    }

    /// What the discovery of `path` asks of the driver.
    pub open spec fn discover_step(self, path: Seq<char>, is_regular_file: bool) -> StepView {
        match classify_spec(path, is_regular_file, self.operation) {
            Eligibility::NotAFile => StepView { notices: Seq::empty(), launch: None },
            Eligibility::WrongSuffix => StepView {
                notices: if self.verbose { seq![skip_notice(path)] } else { Seq::empty() },
                launch: None,
            },
            Eligibility::Eligible => if self.running() < self.capacity {
                StepView {
                    notices: self.start_notices(path),
                    launch: Some(self.discover(path, is_regular_file).launch(self.phases.len() as int)),
                }
            } else {
                StepView { notices: Seq::empty(), launch: None }
            },
        }
    }

    /// A completion is accepted for a task that runs, and for no other.
    pub open spec fn accepts(self, task: int) -> bool {
        0 <= task < self.phases.len() && self.phases[task] == Phase::Running
    }

    /// The task that takes over the permit of a task that ends, or the
    /// number of candidates where none waits.
    pub open spec fn successor(self) -> int {
        first_gated(self.phases, 0)
    }

    /// The state after the running task `task` ended with `completion`: its
    /// outcome is recorded, and its permit passes to the task that has waited
    /// longest, if one waits.
    pub open spec fn complete(self, task: int, completion: CompletionView) -> BatchState {
        let ended = self.phases.update(task, completion.phase());
        let next = self.successor();
        BatchState {
            phases: if next < ended.len() { ended.update(next, Phase::Running) } else { ended },
            failures: match completion.failure(task, self.paths[task]) {
                Some(failure) => self.failures.push(failure),
                None => self.failures,
            },
            ..self
        }
    }

    /// The report of a failure as it occurs, for a verbose batch.
    pub open spec fn failure_notices(self, task: int, completion: CompletionView) -> Seq<Seq<char>> {
        match completion.failure(task, self.paths[task]) {
            Some(failure) if self.verbose => seq![failure.line()],
            _ => Seq::empty(),
        }
    }

    /// What the completion of `task` asks of the driver.
    pub open spec fn complete_step(self, task: int, completion: CompletionView) -> StepView {
        let next = self.successor();
        if next < self.phases.len() {
            StepView {
                notices: self.failure_notices(task, completion) + self.start_notices(self.paths[next]),
                launch: Some(self.launch(next)),
            }
        } else {
            StepView { notices: self.failure_notices(task, completion), launch: None }
        }
    }

    /// `outcome` is the outcome of `task`: that of its phase, and for a
    /// failed task the entry that the failures hold of it.
    pub open spec fn has_outcome(self, task: int, outcome: TaskOutcomeView) -> bool {
        &&& 0 <= task < self.phases.len()
        &&& match outcome {
            TaskOutcomeView::Skipped => self.phases[task] == Phase::Skipped,
            TaskOutcomeView::Succeeded => self.phases[task] == Phase::Succeeded,
            TaskOutcomeView::Failed(failure) => {
                &&& self.phases[task] == Phase::Failed
                &&& failure.task == task
                &&& self.failures.contains(failure)
            },
        }
    }

    /// The handling of `task` has ended.
    pub open spec fn ended(self, task: int) -> bool {
        &&& 0 <= task < self.phases.len()
        &&& self.phases[task] != Phase::Gated
        &&& self.phases[task] != Phase::Running
    }

    /// The result of a settled batch that took `elapsed_nanos`.
    pub open spec fn result(self, elapsed_nanos: nat) -> BatchResultView {
        BatchResultView { total_dispatched: self.dispatched(), failures: self.failures, elapsed_nanos }
    }
}

/// The initial state is consistent.
pub proof fn lemma_initial_consistent(operation: Operation, keep_original: bool, verbose: bool, max_concurrency: usize)
    ensures
        BatchState::initial(operation, keep_original, verbose, max_concurrency).consistent(),
        BatchState::initial(operation, keep_original, verbose, max_concurrency).settled(),
{
}

/// A discovery keeps the state consistent.
pub proof fn lemma_discover_consistent(state: BatchState, path: Seq<char>, is_regular_file: bool)
    requires
        state.consistent(),
    ensures
        state.discover(path, is_regular_file).consistent(),
{
    let next = state.discover(path, is_regular_file);
    let phase = state.entry_phase(path, is_regular_file);
    lemma_count_push(state.phases, phase, Phase::Running);
    lemma_count_push(state.phases, phase, Phase::Gated);
    lemma_count_push(state.phases, phase, Phase::Failed);
    assert forall|k: int| 0 <= k < next.failures.len() implies {
        let f = #[trigger] next.failures[k];
        &&& 0 <= f.task < next.phases.len()
        &&& next.phases[f.task] == Phase::Failed
        &&& f.path == next.paths[f.task]
    } by {
        let f = state.failures[k];
        assert(next.phases[f.task] == state.phases[f.task]);
    }
    assert forall|i: int| 0 <= i < next.phases.len() && #[trigger] next.phases[i] == Phase::Failed implies next.has_failure_of(i) by {
        assert(state.phases[i] == Phase::Failed);
        assert(state.has_failure_of(i));
    }
}

/// The completion of a running task keeps the state consistent.
pub proof fn lemma_complete_consistent(state: BatchState, task: int, completion: CompletionView)
    requires
        state.consistent(),
        state.accepts(task),
    ensures
        state.complete(task, completion).consistent(),
{
    let after = state.complete(task, completion);
    let ended = state.phases.update(task, completion.phase());
    let next = state.successor();
    lemma_first_gated(state.phases, 0);
    lemma_count_update(state.phases, task, completion.phase(), Phase::Running);
    lemma_count_update(state.phases, task, completion.phase(), Phase::Gated);
    lemma_count_update(state.phases, task, completion.phase(), Phase::Failed);
    lemma_count_occurs(state.phases, Phase::Gated);
    if next < ended.len() {
        lemma_count_update(ended, next, Phase::Running, Phase::Running);
        lemma_count_update(ended, next, Phase::Running, Phase::Gated);
        lemma_count_update(ended, next, Phase::Running, Phase::Failed);
    } else {
        assert(count_phase(state.phases, Phase::Gated) == 0) by {
            if count_phase(state.phases, Phase::Gated) > 0 {
                let i = choose|i: int| 0 <= i < state.phases.len() && state.phases[i] == Phase::Gated;
                assert(state.phases[i] != Phase::Gated);
            }
        }
    }
    assert forall|k: int| 0 <= k < after.failures.len() implies {
        let f = #[trigger] after.failures[k];
        &&& 0 <= f.task < after.phases.len()
        &&& after.phases[f.task] == Phase::Failed
        &&& f.path == after.paths[f.task]
    } by {
        if k < state.failures.len() {
            let f = state.failures[k];
            assert(state.phases[f.task] == Phase::Failed);
        }
    }
    assert forall|j: int, k: int| 0 <= j < k < after.failures.len() implies (#[trigger] after.failures[j]).task != (
    #[trigger] after.failures[k]).task by {
        if k == state.failures.len() {
            let f = state.failures[j];
            assert(state.phases[f.task] == Phase::Failed);
        }
    }
    assert forall|i: int| 0 <= i < after.phases.len() && #[trigger] after.phases[i] == Phase::Failed implies after.has_failure_of(i) by {
        if i == task {
            assert(after.failures[state.failures.len() as int].task == task);
        } else {
            assert(state.phases[i] == Phase::Failed);
            let k = choose|k: int| 0 <= k < state.failures.len() && (#[trigger] state.failures[k]).task == i;
            assert(after.failures[k].task == i);
        }
    }
}

} // verus!
