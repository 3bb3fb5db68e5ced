//! What holds of every batch, proved of the state machine in `model`.

use crate::model::{
    count_phase, lemma_complete_consistent, lemma_count_occurs, lemma_count_push, lemma_discover_consistent,
    lemma_initial_consistent, BatchState, Phase,
};
use crate::outcome::{CompletionView, TaskOutcomeView};
use crate::paths::{carries_compressed_suffix, classify_spec, Eligibility};
use crate::request::Operation;
use vstd::prelude::*;

verus! {

/// One thing that the driver tells the coordinator.
pub enum Event {
    /// The pattern yielded a path, and the file system said whether it is a regular file.
    Discovered { path: Seq<char>, is_regular_file: bool },
    /// The transform of a task ended.
    Completed { task: int, completion: CompletionView },
}

impl BatchState {
    /// The state after `event`. A completion that is not accepted changes nothing.
    pub open spec fn after(self, event: Event) -> BatchState {
        match event {
            Event::Discovered { path, is_regular_file } => self.discover(path, is_regular_file),
            Event::Completed { task, completion } => if self.accepts(task) {
                self.complete(task, completion)
            } else {
                self
            },
        }
    }

    /// The state after `events`, in their order.
    pub open spec fn after_all(self, events: Seq<Event>) -> BatchState
        decreases events.len(),
    {
        if events.len() == 0 {
            self
        } else {
            self.after_all(events.drop_last()).after(events.last())
        }
    }

    /// Every candidate so far was skipped, and nothing failed.
    pub open spec fn idle(self) -> bool {
        &&& self.failures.len() == 0
        &&& forall|i: int| 0 <= i < self.phases.len() ==> self.phases[i] == Phase::Skipped
    }
}

/// An event is about a candidate that is not eligible: a discovery that the
/// filter turns away.
pub open spec fn discovers_ineligible(event: Event, operation: Operation) -> bool {
    match event {
        Event::Discovered { path, is_regular_file } => classify_spec(path, is_regular_file, operation)
            != Eligibility::Eligible,
        Event::Completed { .. } => false,
    }
}

/// Whatever the driver reports and in whatever order, the batch stays
/// consistent: at no moment do more tasks hold a permit than there are
/// permits, and there are as many as were asked for, or one where none was.
pub proof fn lemma_gate_bounds_every_state(
    operation: Operation,
    keep_original: bool,
    verbose: bool,
    max_concurrency: usize,
    events: Seq<Event>,
)
    ensures
        ({
            let state = BatchState::initial(operation, keep_original, verbose, max_concurrency).after_all(events);
            &&& state.consistent()
            &&& state.running() <= state.capacity
            &&& state.capacity == if max_concurrency == 0 { 1nat } else { max_concurrency as nat }
        }),
    decreases events.len(),
{
    let start = BatchState::initial(operation, keep_original, verbose, max_concurrency);
    if events.len() == 0 {
        lemma_initial_consistent(operation, keep_original, verbose, max_concurrency);
    } else {
        lemma_gate_bounds_every_state(operation, keep_original, verbose, max_concurrency, events.drop_last());
        let before = start.after_all(events.drop_last());
        match events.last() {
            Event::Discovered { path, is_regular_file } => {
                lemma_discover_consistent(before, path, is_regular_file);
            },
            Event::Completed { task, completion } => {
                if before.accepts(task) {
                    lemma_complete_consistent(before, task, completion);
                }
            },
        }
    }
}

/// A batch that sees no eligible candidate succeeds: it is settled, it has
/// dispatched nothing, it has no failure, and its exit code is 0.
pub proof fn lemma_nothing_eligible_succeeds(
    operation: Operation,
    keep_original: bool,
    verbose: bool,
    max_concurrency: usize,
    events: Seq<Event>,
    elapsed_nanos: nat,
)
    requires
        forall|i: int| 0 <= i < events.len() ==> discovers_ineligible(#[trigger] events[i], operation),
    ensures
        ({
            let state = BatchState::initial(operation, keep_original, verbose, max_concurrency).after_all(events);
            let result = state.result(elapsed_nanos);
            &&& state.idle()
            &&& state.settled()
            &&& result.total_dispatched == 0
            &&& result.failures =~= Seq::empty()
            &&& result.succeeded()
            &&& result.exit_code() == 0
        }),
    decreases events.len(),
{
    let start = BatchState::initial(operation, keep_original, verbose, max_concurrency);
    let state = start.after_all(events);
    if events.len() > 0 {
        let front = events.drop_last();
        assert forall|i: int| 0 <= i < front.len() implies discovers_ineligible(#[trigger] front[i], operation) by {
            assert(front[i] == events[i]);
        }
        lemma_nothing_eligible_succeeds(operation, keep_original, verbose, max_concurrency, front, elapsed_nanos);
        let before = start.after_all(front);
        assert(discovers_ineligible(events[events.len() - 1], operation));
        assert(before.operation == operation) by {
            lemma_settings_stay(start, front);
        }
        lemma_idle_is_settled(before);
        lemma_count_push(before.phases, Phase::Skipped, Phase::Skipped);
        lemma_count_push(before.phases, Phase::Skipped, Phase::Running);
        lemma_count_push(before.phases, Phase::Skipped, Phase::Gated);
    }
    lemma_idle_is_settled(state);
}

/// No event changes what the batch was asked to do.
pub proof fn lemma_settings_stay(state: BatchState, events: Seq<Event>)
    ensures
        state.after_all(events).operation == state.operation,
        state.after_all(events).keep_original == state.keep_original,
        state.after_all(events).verbose == state.verbose,
        state.after_all(events).capacity == state.capacity,
    decreases events.len(),
{
    if events.len() > 0 {
        lemma_settings_stay(state, events.drop_last());
    }
}

/// A batch in which every candidate was skipped is settled and has dispatched nothing.
pub proof fn lemma_idle_is_settled(state: BatchState)
    requires
        state.idle(),
    ensures
        state.settled(),
        state.dispatched() == 0,
{
    lemma_count_occurs(state.phases, Phase::Running);
    lemma_count_occurs(state.phases, Phase::Gated);
    lemma_all_counted(state.phases, Phase::Skipped);
}

/// Where every entry is `phase`, the count of `phase` is the length.
pub proof fn lemma_all_counted(phases: Seq<Phase>, phase: Phase)
    requires
        forall|i: int| 0 <= i < phases.len() ==> phases[i] == phase,
    ensures
        count_phase(phases, phase) == phases.len(),
    decreases phases.len(),
{
    if phases.len() > 0 {
        let front = phases.drop_last();
        assert forall|i: int| 0 <= i < front.len() implies front[i] == phase by {
            assert(front[i] == phases[i]);
        }
        lemma_all_counted(front, phase);
    }
}

/// Compressing skips what is compressed already: a candidate that carries
/// the compressed suffix is skipped, whatever else holds of it. No transform
/// is started for it, no permit is taken, and no failure is recorded.
pub proof fn lemma_compressed_candidate_is_skipped(state: BatchState, path: Seq<char>, is_regular_file: bool)
    requires
        state.operation == Operation::Compress,
        carries_compressed_suffix(path),
    ensures
        ({
            let next = state.discover(path, is_regular_file);
            let task = state.phases.len() as int;
            &&& next.phases[task] == Phase::Skipped
            &&& next.has_outcome(task, TaskOutcomeView::Skipped)
            &&& next.failures == state.failures
            &&& next.running() == state.running()
            &&& state.discover_step(path, is_regular_file).launch is None
        }),
{
    lemma_count_push(state.phases, Phase::Skipped, Phase::Running);
}

/// In a settled batch the handling of every candidate has ended: each has
/// one outcome, and a failed one has its entry among the failures.
pub proof fn lemma_settled_means_all_ended(state: BatchState)
    requires
        state.consistent(),
        state.settled(),
    ensures
        forall|task: int| 0 <= task < state.phases.len() ==> state.ended(task),
        forall|task: int|
            0 <= task < state.phases.len() && #[trigger] state.phases[task] == Phase::Failed ==> state.has_failure_of(
                task,
            ),
        state.failures.len() == count_phase(state.phases, Phase::Failed),
{
    lemma_count_occurs(state.phases, Phase::Running);
    lemma_count_occurs(state.phases, Phase::Gated);
}

} // verus!
