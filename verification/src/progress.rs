//! Doing a number of things one after the other, until one of them fails.
//!
//! The writes of a graph, the statements of a write and the versions of a
//! migration are done this way: what failed is reported, and nothing after it
//! is done.
use vstd::prelude::*;

verus! {

/// What is to be done next.
#[derive(Debug, PartialEq, Eq)]
pub enum Progress<E> {
    /// Do the step with this index.
    At { index: usize },
    /// Every step was done.
    Done,
    /// A step failed: nothing is left to do.
    Failed { error: E },
}

/// The step with this index, or the end where there are no more than `count`.
pub open spec fn step_or_done<E>(index: int, count: usize) -> Progress<E> {
    if index < count {
        Progress::At { index: index as usize }
    } else {
        Progress::Done
    }
}

/// What follows `progress` where doing what it asks had this outcome.
pub open spec fn progress_after<E>(
    progress: Progress<E>,
    count: usize,
    outcome: Result<(), E>,
) -> Progress<E> {
    match progress {
        Progress::At { index } => match outcome {
            Ok(_) => step_or_done(index + 1, count),
            Err(error) => Progress::Failed { error },
        },
        ended => ended,
    }
}

/// What is to be done after these outcomes, from the start.
pub open spec fn progress_reached<E>(count: usize, outcomes: Seq<Result<(), E>>) -> Progress<E>
    decreases outcomes.len(),
{
    if outcomes.len() == 0 {
        step_or_done(0, count)
    } else {
        progress_after(progress_reached(count, outcomes.drop_last()), count, outcomes.last())
    }
}

impl<E> Progress<E> {
    /// What is to be done first of `count` steps.
    pub fn start(count: usize) -> (first: Progress<E>)
        ensures
            first == progress_reached::<E>(count, Seq::empty()),
    {
        if count > 0 {
            Progress::At { index: 0 }
        } else {
            Progress::Done
        }
    }

    /// What is to be done next of `count` steps, where doing what this asks had
    /// this outcome.
    pub fn next(self, count: usize, outcome: Result<(), E>) -> (next: Progress<E>)
        ensures
            next == progress_after(self, count, outcome),
    {
        match self {
            Progress::At { index } => match outcome {
                Ok(()) => {
                    if index < count && index + 1 < count {
                        Progress::At { index: index + 1 }
                    } else {
                        Progress::Done
                    }
                },
                Err(error) => Progress::Failed { error },
            },
            ended => ended,
        }
    }
}

proof fn lemma_successes_lead_on<E>(count: usize, outcomes: Seq<Result<(), E>>)
    requires
        outcomes.len() <= count,
        forall|i: int| 0 <= i < outcomes.len() ==> (#[trigger] outcomes[i]) is Ok,
    ensures
        progress_reached(count, outcomes) == step_or_done::<E>(outcomes.len() as int, count),
    decreases outcomes.len(),
{
    if outcomes.len() > 0 {
        let front = outcomes.drop_last();
        assert forall|i: int| 0 <= i < front.len() implies (#[trigger] front[i]) is Ok by {
            assert(front[i] == outcomes[i]);
        }
        lemma_successes_lead_on(count, front);
        assert(outcomes[outcomes.len() - 1] == outcomes.last());
    }
}

/// The first failure is the end: whatever outcomes come after it, no further
/// step is done and that failure is what is reported.
pub proof fn law_first_failure_is_the_end<E>(
    count: usize,
    outcomes: Seq<Result<(), E>>,
    failed: int,
)
    requires
        0 <= failed < outcomes.len(),
        failed < count,
        forall|i: int| 0 <= i < failed ==> (#[trigger] outcomes[i]) is Ok,
        outcomes[failed] is Err,
    ensures
        progress_reached(count, outcomes) == (Progress::Failed {
            error: outcomes[failed]->Err_0,
        }),
    decreases outcomes.len(),
{
    let front = outcomes.drop_last();
    assert forall|i: int| 0 <= i < front.len() implies front[i] == #[trigger] outcomes[i] by {}
    if failed == outcomes.len() - 1 {
        lemma_successes_lead_on(count, front);
    } else {
        law_first_failure_is_the_end(count, front, failed);
    }
}

/// A step is done only once every step before it was done, each with success.
pub proof fn law_step_follows_success<E>(count: usize, outcomes: Seq<Result<(), E>>)
    ensures
        progress_reached(count, outcomes) matches Progress::At { index } ==> {
            &&& index < count
            &&& index == outcomes.len()
            &&& forall|i: int| 0 <= i < outcomes.len() ==> (#[trigger] outcomes[i]) is Ok
        },
    decreases outcomes.len(),
{
    if outcomes.len() > 0 {
        let front = outcomes.drop_last();
        law_step_follows_success(count, front);
        assert forall|i: int| 0 <= i < front.len() implies front[i] == #[trigger] outcomes[i] by {}
        assert(outcomes[outcomes.len() - 1] == outcomes.last());
    }
}

/// Everything counts as done exactly where every step was done with success.
pub proof fn law_done_means_every_step_succeeded<E>(count: usize, outcomes: Seq<Result<(), E>>)
    ensures
        progress_reached(count, outcomes) is Done <==> count <= outcomes.len() && forall|i: int|
            0 <= i < count ==> (#[trigger] outcomes[i]) is Ok,
    decreases outcomes.len(),
{
    if outcomes.len() > 0 {
        let front = outcomes.drop_last();
        law_done_means_every_step_succeeded(count, front);
        law_step_follows_success(count, front);
        assert forall|i: int| 0 <= i < front.len() implies front[i] == #[trigger] outcomes[i] by {}
        assert(outcomes[outcomes.len() - 1] == outcomes.last());
        if count <= outcomes.len() && forall|i: int|
            0 <= i < count ==> (#[trigger] outcomes[i]) is Ok {
            if count < outcomes.len() {
                assert forall|i: int| 0 <= i < count implies (#[trigger] front[i]) is Ok by {
                    assert(front[i] == outcomes[i]);
                }
            } else {
                lemma_successes_lead_on(count, outcomes);
            }
        }
    }
}

} // verus!
