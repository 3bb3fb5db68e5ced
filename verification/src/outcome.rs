//! Outcomes of single tasks and the result of a whole batch.

use vstd::prelude::*;
use vstd::string::*;

verus! {

/// Why a task failed.
#[derive(Clone, Copy, Debug, PartialEq, Eq, Structural)]
pub enum FailureKind {
    /// The transform could not open, read, write or remove a file.
    Io,
    /// The runtime could not run the task to its end.
    ExecutionFault,
}

/// What the driver reports when the transform of a task has ended.
#[derive(Debug)]
pub enum Completion {
    Succeeded,
    /// The transform returned an I/O error, given here as text.
    IoFailed(String),
    /// The task itself did not run to its end; the runtime's account of it.
    Faulted(String),
}

/// A `Completion` as plain values.
pub enum CompletionView {
    Succeeded,
    IoFailed(Seq<char>),
    Faulted(Seq<char>),
}

impl View for Completion {
    type V = CompletionView;

    open spec fn view(&self) -> CompletionView {
        match self {
            Completion::Succeeded => CompletionView::Succeeded,
            Completion::IoFailed(detail) => CompletionView::IoFailed(detail@),
            Completion::Faulted(detail) => CompletionView::Faulted(detail@),
        }
    }
}

/// One failed task: which, on what file, and why.
#[derive(Debug)]
pub struct Failure {
    pub task: usize,
    pub path: String,
    pub kind: FailureKind,
    pub detail: String,
}

/// A `Failure` as plain values.
pub struct FailureView {
    pub task: int,
    pub path: Seq<char>,
    pub kind: FailureKind,
    pub detail: Seq<char>,
}

impl View for Failure {
    type V = FailureView;

    open spec fn view(&self) -> FailureView {
        FailureView { task: self.task as int, path: self.path@, kind: self.kind, detail: self.detail@ }
    }
}

/// The word that tells the two kinds of failure apart in a report.
pub open spec fn kind_label(kind: FailureKind) -> Seq<char> {
    match kind {
        FailureKind::Io => "IO"@,
        FailureKind::ExecutionFault => "Threading"@,
    }
}

impl FailureView {
    /// The line that reports this failure: the file, the kind, the reason.
    pub open spec fn line(self) -> Seq<char> {
        self.path + ": "@ + kind_label(self.kind) + "("@ + self.detail + ")"@
    }
}

impl Failure {
    /// Renders the failure as one line of the report.
    pub fn describe(&self) -> (line: String)
        ensures
            line@ == self@.line(),
    {
        let mut line = self.path.clone();
        line.append(": ");
        match self.kind {
            FailureKind::Io => line.append("IO"),
            FailureKind::ExecutionFault => line.append("Threading"),
        }
        line.append("(");
        line.append(self.detail.as_str());
        line.append(")");
        line
    }

    /// A copy of this failure.
    pub fn duplicate(&self) -> (copy: Failure)
        ensures
            copy@ == self@,
    {
        Failure { task: self.task, path: self.path.clone(), kind: self.kind, detail: self.detail.clone() }
    }
}

/// The one outcome of a candidate whose handling has ended.
#[derive(Debug)]
pub enum TaskOutcome {
    /// The candidate was not eligible: nothing was done to it.
    Skipped,
    Succeeded,
    Failed(Failure),
}

/// A `TaskOutcome` as plain values.
pub enum TaskOutcomeView {
    Skipped,
    Succeeded,
    Failed(FailureView),
}

impl View for TaskOutcome {
    type V = TaskOutcomeView;

    open spec fn view(&self) -> TaskOutcomeView {
        match self {
            TaskOutcome::Skipped => TaskOutcomeView::Skipped,
            TaskOutcome::Succeeded => TaskOutcomeView::Succeeded,
            TaskOutcome::Failed(failure) => TaskOutcomeView::Failed(failure@),
        }
    }
}

/// The views of a sequence of failures, in the same order.
pub open spec fn failure_views(failures: Seq<Failure>) -> Seq<FailureView> {
    failures.map_values(|f: Failure| f@)
}

/// The lines of a report joined by line feeds, with none at the end.
pub open spec fn joined_lines(failures: Seq<FailureView>) -> Seq<char>
    decreases failures.len(),
{
    if failures.len() == 0 {
        Seq::empty()
    } else if failures.len() == 1 {
        failures[0].line()
    } else {
        joined_lines(failures.drop_last()) + "\n"@ + failures.last().line()
    }
}

/// What a finished batch wrote when every task succeeded or was skipped.
pub open spec fn success_message() -> Seq<char> {
    "finished without errors"@
}

/// The sole product of a run.
#[derive(Debug)]
pub struct BatchResult {
    /// The number of candidates that were eligible, hence handed to the transform.
    pub total_dispatched: usize,
    /// The failed tasks in the order in which they ended. That order is the
    /// order of completion, not of discovery: two runs over the same files
    /// may list the same failures differently.
    pub failures: Vec<Failure>,
    /// Wall-clock time of the whole batch, in nanoseconds.
    pub elapsed_nanos: u128,
}

/// A `BatchResult` as plain values.
pub struct BatchResultView {
    pub total_dispatched: nat,
    pub failures: Seq<FailureView>,
    pub elapsed_nanos: nat,
}

impl BatchResultView {
    /// A batch succeeds when no task failed.
    pub open spec fn succeeded(self) -> bool {
        self.failures.len() == 0
    }

    pub open spec fn exit_code(self) -> u8 {
        if self.succeeded() { 0 } else { 1 }
    }

    /// The closing report: the success message, or every failure on a line of its own.
    pub open spec fn summary(self) -> Seq<char> {
        if self.succeeded() { success_message() } else { joined_lines(self.failures) }
    }
}

impl View for BatchResult {
    type V = BatchResultView;

    open spec fn view(&self) -> BatchResultView {
        BatchResultView {
            total_dispatched: self.total_dispatched as nat,
            failures: failure_views(self.failures@),
            elapsed_nanos: self.elapsed_nanos as nat,
        }
    }
}

impl BatchResult {
    /// Says whether the batch succeeded: whether no task failed.
    pub fn succeeded(&self) -> (ok: bool)
        ensures
            ok == self@.succeeded(),
    {
        self.failures.len() == 0
    }

    /// The exit code of the process: 0 for a batch without failures, 1 otherwise.
    pub fn exit_code(&self) -> (code: u8)
        ensures
            code == self@.exit_code(),
            code == 0 <==> self@.failures.len() == 0,
    {
        if self.succeeded() { 0 } else { 1 }
    }

    /// The closing report of the batch.
    pub fn summary(&self) -> (text: String)
        ensures
            text@ == self@.summary(),
    {
        if self.failures.len() == 0 {
            return String::from_str("finished without errors");
        }
        let mut text = self.failures[0].describe();
        let mut i: usize = 1;
        assert(failure_views(self.failures@).subrange(0, 1) =~= seq![self.failures@[0]@]);
        while i < self.failures.len()
            invariant
                1 <= i <= self.failures.len(),
                text@ == joined_lines(failure_views(self.failures@).subrange(0, i as int)),
            decreases self.failures.len() - i,
        {
            let line = self.failures[i].describe();
            text.append("\n");
            text.append(line.as_str());
            proof {
                let all = failure_views(self.failures@);
                assert(all.subrange(0, i + 1).drop_last() =~= all.subrange(0, i as int));
            }
            i = i + 1;
        }
        assert(failure_views(self.failures@).subrange(0, i as int) =~= failure_views(self.failures@));
        text
    }
}

} // verus!
