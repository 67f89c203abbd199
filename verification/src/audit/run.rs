//! A full audit run: its stages, the boundary it records, and what it reports.
use vstd::prelude::*;
use vstd::string::*;

use crate::audit::Outcome;
use crate::domain::finding::{Reachability, ReachabilityFinding};
use crate::error::EvaluationError;
use crate::evaluate::engine::RuleIntersectionEvaluator;
use crate::evaluate::path::PathCandidate;
use crate::ports::RegulatedBoundaryRecord;

verus! {

/// The stages of a run.
///
/// Their order matters: migrations come before any write, so that the
/// constraints that keep nodes unique are there; the boundary is there before
/// anything is judged against it; and the graph is written in full before it is
/// read.
#[derive(Debug, Clone, Copy, PartialEq, Eq, Structural)]
pub enum Stage {
    /// Check that the database service is up.
    Preflight,
    /// Find out which account the run is for.
    Identify,
    /// Connect to the database.
    Connect,
    /// Bring the schema up to date.
    Migrate,
    /// Record the boundary.
    Boundary,
    /// Collect the topology and write it.
    Ingest,
    /// Read the path candidates back.
    Assemble,
    /// Judge them.
    Evaluate,
}

impl Stage {
    /// The place of this stage in a run.
    pub open spec fn rank(self) -> int {
        match self {
            Stage::Preflight => 0,
            Stage::Identify => 1,
            Stage::Connect => 2,
            Stage::Migrate => 3,
            Stage::Boundary => 4,
            Stage::Ingest => 5,
            Stage::Assemble => 6,
            Stage::Evaluate => 7,
        }
    }

    /// The stage that follows where this one succeeded, or none where the run
    /// is complete.
    pub open spec fn following(self) -> Option<Stage> {
        match self {
            Stage::Preflight => Some(Stage::Identify),
            Stage::Identify => Some(Stage::Connect),
            Stage::Connect => Some(Stage::Migrate),
            Stage::Migrate => Some(Stage::Boundary),
            Stage::Boundary => Some(Stage::Ingest),
            Stage::Ingest => Some(Stage::Assemble),
            Stage::Assemble => Some(Stage::Evaluate),
            Stage::Evaluate => None,
        }
    }

    /// The stage that follows where this one succeeded, or none where the run
    /// is complete.
    pub fn next(self) -> (next: Option<Stage>)
        ensures
            next == self.following(),
            next is None <==> self is Evaluate,
            next matches Some(stage) ==> stage.rank() == self.rank() + 1,
    {
        match self {
            Stage::Preflight => Some(Stage::Identify),
            Stage::Identify => Some(Stage::Connect),
            Stage::Connect => Some(Stage::Migrate),
            Stage::Migrate => Some(Stage::Boundary),
            Stage::Boundary => Some(Stage::Ingest),
            Stage::Ingest => Some(Stage::Assemble),
            Stage::Assemble => Some(Stage::Evaluate),
            Stage::Evaluate => None,
        }
    }

    /// How a failure in this stage is introduced.
    pub open spec fn context_text(self) -> Seq<char> {
        match self {
            Stage::Preflight => "stage: preflight"@,
            Stage::Identify | Stage::Ingest => "stage: ingest"@,
            Stage::Connect => "stage: connect"@,
            Stage::Migrate => "stage: migrate"@,
            Stage::Boundary => "stage: boundary"@,
            Stage::Assemble => "stage: evaluate (candidate assembly)"@,
            Stage::Evaluate => "stage: evaluate"@,
        }
    }

    /// How a failure in this stage is introduced.
    pub fn context(self) -> (text: &'static str)
        ensures
            text@ == self.context_text(),
    {
        match self {
            Stage::Preflight => "stage: preflight",
            Stage::Identify | Stage::Ingest => "stage: ingest",
            Stage::Connect => "stage: connect",
            Stage::Migrate => "stage: migrate",
            Stage::Boundary => "stage: boundary",
            Stage::Assemble => "stage: evaluate (candidate assembly)",
            Stage::Evaluate => "stage: evaluate",
        }
    }
}

/// Whether `stages` are the stages of a run that went as far as the last of
/// them: it began with the preflight check, and each stage came right after the
/// one before it.
pub open spec fn is_run(stages: Seq<Stage>) -> bool {
    &&& stages.len() > 0 ==> stages[0] is Preflight
    &&& forall|i: int|
        0 < i < stages.len() ==> (#[trigger] stages[i]).rank() == stages[i - 1].rank() + 1
}

/// A stage is entered only once every stage of a lower rank was passed: among
/// others, nothing is written before the schema is up to date, and nothing is
/// read before everything was written.
pub proof fn law_stages_come_in_order(stages: Seq<Stage>, entered: int, earlier: Stage)
    requires
        is_run(stages),
        0 <= entered < stages.len(),
        earlier.rank() < stages[entered].rank(),
    ensures
        exists|i: int| 0 <= i < entered && #[trigger] stages[i] == earlier,
{
    lemma_stage_at(stages, entered);
    let i = earlier.rank();
    lemma_stage_at(stages, i);
    assert(stages[i] == earlier);
}

proof fn lemma_stage_at(stages: Seq<Stage>, at: int)
    requires
        is_run(stages),
        0 <= at < stages.len(),
    ensures
        stages[at].rank() == at,
    decreases at,
{
    if at > 0 {
        lemma_stage_at(stages, at - 1);
    }
}

/// What is to be done next in a run.
#[derive(Debug)]
pub enum RunStep {
    /// Go through this stage.
    Perform(Stage),
    /// Every stage succeeded.
    Completed,
    /// A stage failed: the run is over.
    Stopped {
        /// The stage that failed.
        stage: Stage,
        /// How its failure is introduced.
        context: &'static str,
        /// Its failure.
        error: anyhow::Error,
    },
}

/// What a `RunStep` holds.
pub ghost enum RunStepView {
    Perform(Stage),
    Completed,
    Stopped { stage: Stage, context: Seq<char>, error: anyhow::Error },
}

impl DeepView for RunStep {
    type V = RunStepView;

    open spec fn deep_view(&self) -> RunStepView {
        match self {
            RunStep::Perform(stage) => RunStepView::Perform(*stage),
            RunStep::Completed => RunStepView::Completed,
            RunStep::Stopped { stage, context, error } => RunStepView::Stopped {
                stage: *stage,
                context: context@,
                error: *error,
            },
        }
    }
}

/// What follows `step` where doing what it asks had this outcome: the next
/// stage after a success, and the end of the run after a failure.
pub open spec fn step_after(step: RunStepView, outcome: Result<(), anyhow::Error>) -> RunStepView {
    match step {
        RunStepView::Perform(stage) => match outcome {
            Ok(_) => match stage.following() {
                Some(next) => RunStepView::Perform(next),
                None => RunStepView::Completed,
            },
            Err(error) => RunStepView::Stopped { stage, context: stage.context_text(), error },
        },
        ended => ended,
    }
}

/// What is to be done after these outcomes, from the start of the run.
pub open spec fn step_reached(outcomes: Seq<Result<(), anyhow::Error>>) -> RunStepView
    decreases outcomes.len(),
{
    if outcomes.len() == 0 {
        RunStepView::Perform(Stage::Preflight)
    } else {
        step_after(step_reached(outcomes.drop_last()), outcomes.last())
    }
}

impl RunStep {
    /// What is to be done first.
    pub fn start() -> (first: RunStep)
        ensures
            first.deep_view() == step_reached(Seq::empty()),
    {
        RunStep::Perform(Stage::Preflight)
    }

    /// What is to be done next, where doing what this asks had this outcome.
    pub fn next(self, outcome: Result<(), anyhow::Error>) -> (next: RunStep)
        ensures
            next.deep_view() == step_after(self.deep_view(), outcome),
    {
        match self {
            RunStep::Perform(stage) => match outcome {
                Ok(()) => match stage.next() {
                    Some(next) => RunStep::Perform(next),
                    None => RunStep::Completed,
                },
                Err(error) => RunStep::Stopped { stage, context: stage.context(), error },
            },
            ended => ended,
        }
    }
}

/// How many stages a run has.
pub open spec fn stage_count() -> int {
    8
}

/// A stage is gone through only once every stage before it was, each with
/// success.
pub proof fn law_stage_follows_success(outcomes: Seq<Result<(), anyhow::Error>>)
    ensures
        step_reached(outcomes) matches RunStepView::Perform(stage) ==> stage.rank()
            == outcomes.len() && forall|i: int|
            0 <= i < outcomes.len() ==> (#[trigger] outcomes[i]) is Ok,
    decreases outcomes.len(),
{
    if outcomes.len() > 0 {
        let front = outcomes.drop_last();
        law_stage_follows_success(front);
        assert forall|i: int| 0 <= i < front.len() implies front[i] == #[trigger] outcomes[i] by {}
        assert(outcomes[outcomes.len() - 1] == outcomes.last());
    }
}

proof fn lemma_successes_lead_on(outcomes: Seq<Result<(), anyhow::Error>>)
    requires
        outcomes.len() <= stage_count(),
        forall|i: int| 0 <= i < outcomes.len() ==> (#[trigger] outcomes[i]) is Ok,
    ensures
        outcomes.len() < stage_count() ==> (step_reached(outcomes) matches RunStepView::Perform(
            stage,
        ) && stage.rank() == outcomes.len()),
        outcomes.len() == stage_count() ==> step_reached(outcomes) is Completed,
    decreases outcomes.len(),
{
    if outcomes.len() > 0 {
        let front = outcomes.drop_last();
        assert forall|i: int| 0 <= i < front.len() implies (#[trigger] front[i]) is Ok by {
            assert(front[i] == outcomes[i]);
        }
        lemma_successes_lead_on(front);
        assert(outcomes[outcomes.len() - 1] == outcomes.last());
    }
}

/// The first stage that fails ends the run: whatever comes after it, no further
/// stage is gone through, and that stage's failure is what the run reports,
/// introduced as a failure of that stage.
pub proof fn law_first_failed_stage_ends_the_run(
    outcomes: Seq<Result<(), anyhow::Error>>,
    failed: Stage,
)
    requires
        failed.rank() < outcomes.len(),
        forall|i: int| 0 <= i < failed.rank() ==> (#[trigger] outcomes[i]) is Ok,
        outcomes[failed.rank()] is Err,
    ensures
        step_reached(outcomes) == (RunStepView::Stopped {
            stage: failed,
            context: failed.context_text(),
            error: outcomes[failed.rank()]->Err_0,
        }),
    decreases outcomes.len(),
{
    let front = outcomes.drop_last();
    assert forall|i: int| 0 <= i < front.len() implies front[i] == #[trigger] outcomes[i] by {}
    if failed.rank() == outcomes.len() - 1 {
        lemma_successes_lead_on(front);
    } else {
        law_first_failed_stage_ends_the_run(front, failed);
    }
}

/// A run is complete exactly where every stage succeeded.
pub proof fn law_completed_means_every_stage_succeeded(
    outcomes: Seq<Result<(), anyhow::Error>>,
)
    ensures
        step_reached(outcomes) is Completed <==> stage_count() <= outcomes.len() && forall|i: int|
            0 <= i < stage_count() ==> (#[trigger] outcomes[i]) is Ok,
    decreases outcomes.len(),
{
    if outcomes.len() > 0 {
        let front = outcomes.drop_last();
        law_completed_means_every_stage_succeeded(front);
        law_stage_follows_success(front);
        assert forall|i: int| 0 <= i < front.len() implies front[i] == #[trigger] outcomes[i] by {}
        assert(outcomes[outcomes.len() - 1] == outcomes.last());
        if stage_count() < outcomes.len() {
            if forall|i: int| 0 <= i < stage_count() ==> (#[trigger] outcomes[i]) is Ok {
                assert forall|i: int| 0 <= i < stage_count() implies (#[trigger] front[i]) is Ok by {
                    assert(front[i] == outcomes[i]);
                }
            }
        } else if stage_count() == outcomes.len() {
            if forall|i: int| 0 <= i < stage_count() ==> (#[trigger] outcomes[i]) is Ok {
                lemma_successes_lead_on(outcomes);
            }
        }
    }
}

/// The id of the boundary of an account.
pub open spec fn boundary_id_text(account_id: Seq<char>) -> Seq<char> {
    "boundary-"@ + account_id
}

/// The id of the boundary of an account.
pub fn boundary_id(account_id: &str) -> (id: String)
    ensures
        id@ == boundary_id_text(account_id@),
{
    let mut id = String::from_str("boundary-");
    id.append(account_id);
    id
}

/// The boundary of an account, as it is recorded.
pub fn boundary_record(account_id: &str) -> (record: RegulatedBoundaryRecord)
    ensures
        record.deep_view() == (crate::ports::RegulatedBoundaryRecordView {
            id: boundary_id_text(account_id@),
            account_id: account_id@,
            name: boundary_id_text(account_id@),
            regime: "unspecified"@,
            description: None,
        }),
{
    RegulatedBoundaryRecord {
        id: boundary_id(account_id),
        account_id: account_id.to_string(),
        name: boundary_id(account_id),
        regime: "unspecified".to_string(),
        description: None,
    }
}

/// Whether `finding` is what judging `candidate` gave at some moment.
pub open spec fn is_finding_of(
    finding: crate::domain::finding::ReachabilityFindingView,
    candidate: crate::evaluate::path::PathCandidateView,
) -> bool {
    exists|seconds: u64|
        finding == crate::evaluate::engine::finding_for(
            candidate,
            #[trigger] crate::calendar::timestamp(seconds as nat),
        )
}

/// Judges every candidate, in order.
pub fn evaluate_all(candidates: &[PathCandidate]) -> (findings: Result<
    Vec<ReachabilityFinding>,
    EvaluationError,
>)
    ensures
        findings is Ok,
        findings->Ok_0@.len() == candidates@.len(),
        forall|i: int|
            0 <= i < candidates@.len() ==> is_finding_of(
                (#[trigger] findings->Ok_0@[i]).deep_view(),
                candidates@[i].deep_view(),
            ),
{
    let evaluator = RuleIntersectionEvaluator;
    let mut findings: Vec<ReachabilityFinding> = Vec::new();
    let mut i: usize = 0;
    while i < candidates.len()
        invariant
            0 <= i <= candidates@.len(),
            findings@.len() == i,
            forall|j: int|
                0 <= j < i ==> is_finding_of(
                    (#[trigger] findings@[j]).deep_view(),
                    candidates@[j].deep_view(),
                ),
        decreases candidates@.len() - i,
    {
        match evaluator.evaluate(&candidates[i]) {
            Ok(finding) => findings.push(finding),
            Err(error) => {
                return Err(error);
            },
        }
        i = i + 1;
    }
    Ok(findings)
}

/// How many of the findings are of a reachable path.
pub open spec fn reachable_count(
    findings: Seq<crate::domain::finding::ReachabilityFindingView>,
) -> nat
    decreases findings.len(),
{
    if findings.len() == 0 {
        0
    } else {
        reachable_count(findings.drop_last()) + if findings.last().reachability is Reachable {
            1nat
        } else {
            0nat
        }
    }
}

/// How many of the findings are indeterminate.
pub open spec fn indeterminate_count(
    findings: Seq<crate::domain::finding::ReachabilityFindingView>,
) -> nat
    decreases findings.len(),
{
    if findings.len() == 0 {
        0
    } else {
        indeterminate_count(findings.drop_last())
            + if findings.last().reachability is Indeterminate {
            1nat
        } else {
            0nat
        }
    }
}

/// What a run with these findings reports.
pub fn findings_to_outcome(findings: &[ReachabilityFinding]) -> (outcome: Outcome)
    ensures
        outcome is Clean <==> reachable_count(findings.deep_view()) == 0 && indeterminate_count(
            findings.deep_view(),
        ) == 0,
        outcome matches Outcome::FindingsPresent { reachable, indeterminate } ==> reachable
            == reachable_count(findings.deep_view()) && indeterminate == indeterminate_count(
            findings.deep_view(),
        ),
{
    let ghost model = findings.deep_view();
    let mut reachable: usize = 0;
    let mut indeterminate: usize = 0;
    let mut i: usize = 0;
    assert(model.take(0) =~= Seq::empty());
    while i < findings.len()
        invariant
            0 <= i <= findings@.len(),
            model == findings.deep_view(),
            reachable == reachable_count(model.take(i as int)),
            indeterminate == indeterminate_count(model.take(i as int)),
            reachable <= i,
            indeterminate <= i,
        decreases findings@.len() - i,
    {
        proof {
            assert(model.take(i + 1).drop_last() =~= model.take(i as int));
            assert(model.take(i + 1).last() == findings@[i as int].deep_view());
        }
        match &findings[i].reachability {
            Reachability::Reachable => {
                reachable = reachable + 1;
            },
            Reachability::NotReachable => {},
            Reachability::Indeterminate { .. } => {
                indeterminate = indeterminate + 1;
            },
        }
        i = i + 1;
    }
    assert(model.take(i as int) =~= model);
    if reachable == 0 && indeterminate == 0 {
        Outcome::Clean
    } else {
        Outcome::FindingsPresent { reachable, indeterminate }
    }
}

/// Nothing is counted exactly where every path is known not to be reachable:
/// what could not be settled is never reported as clean.
pub proof fn law_clean_means_nothing_reachable(
    findings: Seq<crate::domain::finding::ReachabilityFindingView>,
)
    ensures
        reachable_count(findings) == 0 && indeterminate_count(findings) == 0 <==> forall|i: int|
            0 <= i < findings.len() ==> (#[trigger] findings[i]).reachability is NotReachable,
    decreases findings.len(),
{
    if findings.len() > 0 {
        let front = findings.drop_last();
        law_clean_means_nothing_reachable(front);
        assert(findings[findings.len() - 1] == findings.last());
        assert forall|i: int| 0 <= i < front.len() implies front[i] == #[trigger] findings[i] by {}
        if reachable_count(findings) == 0 && indeterminate_count(findings) == 0 {
            assert forall|i: int| 0 <= i < findings.len() implies (
            #[trigger] findings[i]).reachability is NotReachable by {
                if i < front.len() {
                    assert(front[i] == findings[i]);
                }
            }
        }
        if forall|i: int|
            0 <= i < findings.len() ==> (#[trigger] findings[i]).reachability is NotReachable {
            assert forall|i: int| 0 <= i < front.len() implies (
            #[trigger] front[i]).reachability is NotReachable by {
                assert(front[i] == findings[i]);
            }
        }
    }
}

/// What a run reports does not depend on when each path was judged: two sets of
/// findings of the same candidates are counted alike.
pub proof fn law_outcome_ignores_the_clock(
    a: Seq<crate::domain::finding::ReachabilityFindingView>,
    b: Seq<crate::domain::finding::ReachabilityFindingView>,
    candidates: Seq<crate::evaluate::path::PathCandidateView>,
)
    requires
        a.len() == candidates.len(),
        b.len() == candidates.len(),
        forall|i: int| 0 <= i < a.len() ==> is_finding_of(#[trigger] a[i], candidates[i]),
        forall|i: int| 0 <= i < b.len() ==> is_finding_of(#[trigger] b[i], candidates[i]),
    ensures
        reachable_count(a) == reachable_count(b),
        indeterminate_count(a) == indeterminate_count(b),
    decreases a.len(),
{
    if a.len() > 0 {
        let front = candidates.drop_last();
        assert forall|i: int| 0 <= i < a.len() - 1 implies is_finding_of(
            #[trigger] a.drop_last()[i],
            front[i],
        ) by {
            assert(a.drop_last()[i] == a[i]);
        }
        assert forall|i: int| 0 <= i < b.len() - 1 implies is_finding_of(
            #[trigger] b.drop_last()[i],
            front[i],
        ) by {
            assert(b.drop_last()[i] == b[i]);
        }
        law_outcome_ignores_the_clock(a.drop_last(), b.drop_last(), front);
        let last = a.len() - 1;
        assert(is_finding_of(a[last], candidates[last]));
        assert(is_finding_of(b[last], candidates[last]));
    }
}

} // verus!
