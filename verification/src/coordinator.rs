//! The batch coordinator: the state machine of `model` on machine values.
//!
//! The coordinator performs no input or output. A driver tells it of every
//! candidate that the pattern yields and of every transform that ends, and
//! does what the returned `Step` says: print the notices, start the launch.

use crate::gate::Gate;
use crate::model::{
    first_gated, lemma_complete_consistent, lemma_count_occurs, lemma_count_push, lemma_count_update,
    lemma_discover_consistent, lemma_first_gated, lemma_initial_consistent, BatchState, LaunchView, Phase, StepView,
};
use crate::outcome::{failure_views, BatchResult, Completion, Failure, FailureKind, TaskOutcome};
use crate::paths::{classify, Eligibility};
use crate::pattern::{glob_fault, resolve, InvalidPattern};
use crate::request::{BatchRequest, Operation};
use crate::transform::TransformPlan;
use vstd::prelude::*;
use vstd::string::*;

verus! {

/// The views of a sequence of strings, in the same order.
pub open spec fn text_views(lines: Seq<String>) -> Seq<Seq<char>> {
    lines.map_values(|line: String| line@)
}

/// A transform that the driver is to start now. The task holds a permit
/// until the driver reports its completion.
#[derive(Debug)]
pub struct Launch {
    pub task: usize,
    pub plan: TransformPlan,
}

impl View for Launch {
    type V = LaunchView;

    open spec fn view(&self) -> LaunchView {
        LaunchView { task: self.task as int, plan: self.plan@ }
    }
}

/// What a transition asks of the driver.
#[derive(Debug)]
pub struct Step {
    /// Lines to print, in order. Empty unless the batch is verbose.
    pub notices: Vec<String>,
    /// The transform to start, if a permit was granted.
    pub launch: Option<Launch>,
}

impl View for Step {
    type V = StepView;

    open spec fn view(&self) -> StepView {
        StepView {
            notices: text_views(self.notices@),
            launch: match self.launch {
                Some(launch) => Some(launch@),
                None => None,
            },
        }
    }
}

/// The coordinator of one batch.
#[derive(Debug)]
pub struct Coordinator {
    operation: Operation,
    keep_original: bool,
    verbose: bool,
    gate: Gate,
    paths: Vec<String>,
    phases: Vec<Phase>,
    failures: Vec<Failure>,
    /// No task before this index waits for a permit.
    cursor: usize,
    /// The number of tasks that wait for a permit.
    gated: usize,
    /// The number of candidates that were eligible.
    dispatched: usize,
}

impl View for Coordinator {
    type V = BatchState;

    closed spec fn view(&self) -> BatchState {
        BatchState {
            operation: self.operation,
            keep_original: self.keep_original,
            verbose: self.verbose,
            capacity: self.gate.spec_capacity(),
            paths: text_views(self.paths@),
            phases: self.phases@,
            failures: failure_views(self.failures@),
        }
    }
}

/// `first_gated` is the index at which a scan for a gated task stops.
proof fn lemma_scan_finds_first(phases: Seq<Phase>, from: int, stop: int)
    requires
        0 <= from <= stop <= phases.len(),
        forall|i: int| from <= i < stop ==> phases[i] != Phase::Gated,
        stop < phases.len() ==> phases[stop] == Phase::Gated,
    ensures
        first_gated(phases, from) == stop,
    decreases stop - from,
{
    if from < stop {
        lemma_scan_finds_first(phases, from + 1, stop);
    }
}

impl Coordinator {
    /// The coordinator's own bookkeeping agrees with the state it stands for,
    /// and that state is consistent.
    pub closed spec fn wf(&self) -> bool {
        &&& self.gate.wf()
        &&& self.gate.spec_held() == self@.running()
        &&& self.gated == self@.gated()
        &&& self.dispatched == self@.dispatched()
        &&& self.paths.len() == self.phases.len()
        &&& self.cursor <= self.phases.len()
        &&& forall|i: int| 0 <= i < self.cursor ==> self.phases@[i] != Phase::Gated
        &&& self@.consistent()
    }

    /// Every well-formed coordinator stands for a consistent state: in
    /// particular, no more tasks run than there are permits.
    pub proof fn lemma_wf_consistent(&self)
        requires
            self.wf(),
        ensures
            self@.consistent(),
            self@.running() <= self@.capacity,
    {
    }

    /// A coordinator for `request`, before any candidate was seen.
    pub fn new(request: &BatchRequest) -> (coordinator: Coordinator)
        ensures
            coordinator.wf(),
            coordinator@ == BatchState::initial(
                request.operation,
                request.keep_original,
                request.verbose,
                request.max_concurrency,
            ),
    {
        let coordinator = Coordinator {
            operation: request.operation,
            keep_original: request.keep_original,
            verbose: request.verbose,
            gate: Gate::new(request.max_concurrency),
            paths: Vec::new(),
            phases: Vec::new(),
            failures: Vec::new(),
            cursor: 0,
            gated: 0,
            dispatched: 0,
        };
        proof {
            lemma_initial_consistent(
                request.operation,
                request.keep_original,
                request.verbose,
                request.max_concurrency,
            );
            assert(coordinator@.paths =~= Seq::empty());
            assert(coordinator@.failures =~= Seq::empty());
        }
        coordinator
    }

    /// Opens a batch: resolves the pattern of `request` and, where it is
    /// well-formed, returns a fresh coordinator with the walker over the
    /// candidates. A malformed pattern ends the batch here, before any file
    /// is looked at and before anything is dispatched.
    pub fn open(request: &BatchRequest) -> (opened: Result<(Coordinator, glob::Paths), InvalidPattern>)
        ensures
            opened is Ok <==> glob_fault(request.pattern@) is None,
            opened matches Ok(batch) ==> {
                &&& batch.0.wf()
                &&& batch.0@ == BatchState::initial(
                    request.operation,
                    request.keep_original,
                    request.verbose,
                    request.max_concurrency,
                )
            },
            opened matches Err(error) ==> glob_fault(request.pattern@) == Some((error.pos, error.msg@)),
    {
        match resolve(request.pattern.as_str()) {
            Ok(candidates) => Ok((Coordinator::new(request), candidates)),
            Err(error) => Err(error),
        }
    }

    /// Takes in the candidate `path`, of which the file system said
    /// `is_regular_file`. An ineligible candidate is skipped and takes no
    /// permit. An eligible one becomes a task: it starts at once if a
    /// permit is free, and waits otherwise.
    pub fn discover(&mut self, path: String, is_regular_file: bool) -> (step: Step)
        requires
            old(self).wf(),
        ensures
            final(self).wf(),
            final(self)@ == old(self)@.discover(path@, is_regular_file),
            step@ == old(self)@.discover_step(path@, is_regular_file),
    {
        let ghost before = self@;
        proof {
            lemma_discover_consistent(before, path@, is_regular_file);
            lemma_count_push(before.phases, before.entry_phase(path@, is_regular_file), Phase::Running);
            lemma_count_push(before.phases, before.entry_phase(path@, is_regular_file), Phase::Gated);
            lemma_count_push(before.phases, before.entry_phase(path@, is_regular_file), Phase::Skipped);
            lemma_count_occurs(before.phases, Phase::Gated);
            lemma_count_occurs(before.phases, Phase::Skipped);
        }
        let mut notices: Vec<String> = Vec::new();
        let mut launch: Option<Launch> = None;
        let phase = match classify(path.as_str(), is_regular_file, self.operation) {
            Eligibility::NotAFile => Phase::Skipped,
            Eligibility::WrongSuffix => {
                if self.verbose {
                    notices.push(String::from_str("Skipping ").concat(path.as_str()));
                }
                Phase::Skipped
            },
            Eligibility::Eligible => {
                if self.gate.try_acquire() {
                    if self.verbose {
                        notices.push(start_line(path.as_str(), self.operation));
                    }
                    launch = Some(
                        Launch {
                            task: self.phases.len(),
                            plan: TransformPlan::new(path.as_str(), self.operation, self.keep_original),
                        },
                    );
                    Phase::Running
                } else {
                    Phase::Gated
                }
            },
        };
        self.paths.push(path);
        self.phases.push(phase);
        let total = self.phases.len();
        assert(self.gated <= before.phases.len() < total);
        assert(self.dispatched <= before.phases.len() < total);
        match phase {
            Phase::Skipped => {},
            Phase::Gated => {
                self.gated = self.gated + 1;
                self.dispatched = self.dispatched + 1;
            },
            _ => {
                self.dispatched = self.dispatched + 1;
            },
        }
        proof {
            assert(self@.paths =~= before.paths.push(path@));
            assert(self@.failures =~= before.failures);
            assert(self@ == before.discover(path@, is_regular_file));
        }
        let step = Step { notices, launch };
        proof {
            assert(step@.notices =~= before.discover_step(path@, is_regular_file).notices);
        }
        step
    }

    /// Takes in the end of the transform of `task`. The report is accepted
    /// only for a task that runs; any other changes nothing. The outcome is
    /// recorded, the permit is given back, and the task that has waited
    /// longest, if there is one, takes it and starts.
    pub fn complete(&mut self, task: usize, completion: Completion) -> (step: Option<Step>)
        requires
            old(self).wf(),
        ensures
            final(self).wf(),
            step is Some <==> old(self)@.accepts(task as int),
            match step {
                Some(step) => {
                    &&& final(self)@ == old(self)@.complete(task as int, completion@)
                    &&& step@ == old(self)@.complete_step(task as int, completion@)
                },
                None => *final(self) == *old(self),
            },
    {
        if task >= self.phases.len() {
            return None;
        }
        match self.phases[task] {
            Phase::Running => {},
            _ => {
                return None;
            },
        }
        let ghost before = self@;
        let ghost ended = before.phases.update(task as int, completion@.phase());
        proof {
            lemma_complete_consistent(before, task as int, completion@);
            lemma_first_gated(before.phases, 0);
            lemma_count_update(before.phases, task as int, completion@.phase(), Phase::Running);
            lemma_count_update(before.phases, task as int, completion@.phase(), Phase::Gated);
            lemma_count_update(before.phases, task as int, completion@.phase(), Phase::Skipped);
        }
        let mut notices: Vec<String> = Vec::new();
        let failed: Option<(FailureKind, String)> = match completion {
            Completion::Succeeded => None,
            Completion::IoFailed(detail) => Some((FailureKind::Io, detail)),
            Completion::Faulted(detail) => Some((FailureKind::ExecutionFault, detail)),
        };
        let phase = match failed {
            Some((kind, detail)) => {
                let failure = Failure { task, path: self.paths[task].clone(), kind, detail };
                if self.verbose {
                    notices.push(failure.describe());
                }
                self.failures.push(failure);
                Phase::Failed
            },
            None => Phase::Succeeded,
        };
        self.phases.set(task, phase);
        self.gate.release();
        proof {
            assert(self.phases@ == ended);
            assert(text_views(notices@) =~= before.failure_notices(task as int, completion@));
            assert(self@.failures =~= before.complete(task as int, completion@).failures);
        }
        let total = self.phases.len();
        let mut cursor = self.cursor;
        while cursor < total && self.phases[cursor] != Phase::Gated
            invariant
                self.cursor <= cursor <= total,
                total == self.phases.len(),
                self.phases@ == ended,
                forall|i: int| 0 <= i < cursor ==> ended[i] != Phase::Gated,
            decreases total - cursor,
        {
            cursor = cursor + 1;
        }
        proof {
            assert forall|i: int| 0 <= i < cursor implies before.phases[i] != Phase::Gated by {
                assert(ended[i] != Phase::Gated);
            }
            lemma_scan_finds_first(before.phases, 0, cursor as int);
        }
        let mut launch: Option<Launch> = None;
        if cursor < total {
            proof {
                lemma_count_update(ended, cursor as int, Phase::Running, Phase::Running);
                lemma_count_update(ended, cursor as int, Phase::Running, Phase::Gated);
                lemma_count_update(ended, cursor as int, Phase::Running, Phase::Skipped);
            }
            let granted = self.gate.try_acquire();
            assert(granted);
            self.phases.set(cursor, Phase::Running);
            self.gated = self.gated - 1;
            if self.verbose {
                notices.push(start_line(self.paths[cursor].as_str(), self.operation));
            }
            launch = Some(
                Launch {
                    task: cursor,
                    plan: TransformPlan::new(self.paths[cursor].as_str(), self.operation, self.keep_original),
                },
            );
            self.cursor = cursor + 1;
        } else {
            self.cursor = cursor;
        }
        proof {
            assert(self@.phases == before.complete(task as int, completion@).phases);
            assert(self@ == before.complete(task as int, completion@));
        }
        let step = Step { notices, launch };
        proof {
            assert(step@.notices =~= before.complete_step(task as int, completion@).notices);
        }
        Some(step)
    }

    /// Says whether no task waits and none runs.
    pub fn is_settled(&self) -> (settled: bool)
        requires
            self.wf(),
        ensures
            settled == self@.settled(),
    {
        self.gated == 0 && self.gate.held() == 0
    }

    /// Closes a settled batch that took `elapsed_nanos` and hands out its
    /// result. A batch in which a task still waits or runs is handed back as
    /// it is.
    pub fn finish(self, elapsed_nanos: u128) -> (result: Result<BatchResult, Coordinator>)
        requires
            self.wf(),
        ensures
            match result {
                Ok(result) => self@.settled() && result@ == self@.result(elapsed_nanos as nat),
                Err(coordinator) => !self@.settled() && coordinator == self,
            },
    {
        if self.is_settled() {
            Ok(BatchResult { total_dispatched: self.dispatched, failures: self.failures, elapsed_nanos })
        } else {
            Err(self)
        }
    }

    /// The number of candidates seen so far.
    pub fn task_count(&self) -> (count: usize)
        requires
            self.wf(),
        ensures
            count == self@.phases.len(),
            count == self@.paths.len(),
    {
        self.phases.len()
    }

    /// The number of permits of the batch.
    pub fn capacity(&self) -> (permits: usize)
        requires
            self.wf(),
        ensures
            permits == self@.capacity,
            permits >= 1,
    {
        self.gate.capacity()
    }

    /// The number of tasks that hold a permit: never more than there are.
    pub fn running(&self) -> (count: usize)
        requires
            self.wf(),
        ensures
            count == self@.running(),
            count <= self@.capacity,
    {
        self.gate.held()
    }

    /// The number of tasks that wait for a permit.
    pub fn waiting(&self) -> (count: usize)
        requires
            self.wf(),
        ensures
            count == self@.gated(),
            count > 0 ==> self@.running() == self@.capacity,
    {
        self.gated
    }

    /// The number of candidates that were eligible.
    pub fn dispatched(&self) -> (count: usize)
        requires
            self.wf(),
        ensures
            count == self@.dispatched(),
    {
        self.dispatched
    }

    /// The phase of `task`, if there is such a task.
    pub fn phase_of(&self, task: usize) -> (phase: Option<Phase>)
        requires
            self.wf(),
        ensures
            phase == if task < self@.phases.len() { Some(self@.phases[task as int]) } else { None },
    {
        if task < self.phases.len() {
            Some(self.phases[task])
        } else {
            None
        }
    }

    /// The outcome of `task`, once its handling has ended.
    pub fn outcome_of(&self, task: usize) -> (outcome: Option<TaskOutcome>)
        requires
            self.wf(),
        ensures
            outcome is Some <==> self@.ended(task as int),
            outcome matches Some(o) ==> self@.has_outcome(task as int, o@),
    {
        if task >= self.phases.len() {
            return None;
        }
        match self.phases[task] {
            Phase::Skipped => Some(TaskOutcome::Skipped),
            Phase::Succeeded => Some(TaskOutcome::Succeeded),
            Phase::Failed => {
                assert(self@.has_failure_of(task as int));
                let mut k: usize = 0;
                while self.failures[k].task != task
                    invariant
                        self.wf(),
                        self@.has_failure_of(task as int),
                        0 <= k < self.failures.len(),
                        forall|j: int| 0 <= j < k ==> (#[trigger] self.failures@[j]).task != task,
                    decreases self.failures.len() - k,
                {
                    proof {
                        let found = choose|j: int|
                            0 <= j < self@.failures.len() && (#[trigger] self@.failures[j]).task == task as int;
                        assert(self@.failures[found] == self.failures@[found]@);
                        assert(found > k);
                    }
                    k = k + 1;
                }
                let failure = self.failures[k].duplicate();
                proof {
                    assert(self@.failures[k as int] == failure@);
                }
                Some(TaskOutcome::Failed(failure))
            },
            _ => None,
        }
    }
}

/// Renders the line that announces the start of a transform.
fn start_line(path: &str, operation: Operation) -> (line: String)
    ensures
        line@ == crate::model::start_notice(path@, operation),
{
    match operation {
        Operation::Compress => String::from_str("Compressing ").concat(path),
        Operation::Decompress => String::from_str("Deompressing ").concat(path),
    }
}

} // verus!
