//! How one version is applied: its statements in one transaction, then the
//! record of the version in a second one.
//!
//! The record cannot share a transaction with the statements: the database
//! forbids a data write after a schema change in the same transaction.
use vstd::prelude::*;

use crate::error::MigrationError;

verus! {

/// What is to be done next for one version.
#[derive(Debug)]
pub enum ApplyPhase {
    /// Start the transaction of the statements.
    Start,
    /// Run the statement with this index.
    Statement { index: usize },
    /// Commit the statements.
    Commit,
    /// Start the transaction of the record.
    StartRecord,
    /// Record the version.
    Record,
    /// Commit the record.
    CommitRecord,
    /// Roll the open transaction back, then give up.
    RollBack { error: MigrationError },
    /// The version is applied and recorded: nothing is left to do.
    Applied,
    /// The version was given up: nothing is left to do.
    Failed { error: MigrationError },
}

/// The phase that follows `phase` where doing what it asks had this outcome.
pub open spec fn phase_after(
    phase: ApplyPhase,
    version: u32,
    statements: usize,
    outcome: Result<(), neo4rs::Error>,
) -> ApplyPhase {
    match outcome {
        Ok(_) => match phase {
            ApplyPhase::Start => statement_or_commit(0, statements),
            ApplyPhase::Statement { index } => statement_or_commit(index + 1, statements),
            ApplyPhase::Commit => ApplyPhase::StartRecord,
            ApplyPhase::StartRecord => ApplyPhase::Record,
            ApplyPhase::Record => ApplyPhase::CommitRecord,
            ApplyPhase::CommitRecord => ApplyPhase::Applied,
            ApplyPhase::RollBack { error } => ApplyPhase::Failed { error },
            done => done,
        },
        Err(source) => match phase {
            ApplyPhase::Start | ApplyPhase::StartRecord => ApplyPhase::Failed {
                error: MigrationError::StartTransaction { version, source },
            },
            ApplyPhase::Statement { index } => ApplyPhase::RollBack {
                error: MigrationError::StatementFailed { version, statement_index: index, source },
            },
            ApplyPhase::Record => ApplyPhase::RollBack {
                error: MigrationError::RecordVersion { version, source },
            },
            ApplyPhase::Commit | ApplyPhase::CommitRecord => ApplyPhase::Failed {
                error: MigrationError::Commit { version, source },
            },
            ApplyPhase::RollBack { error } => ApplyPhase::Failed { error },
            done => done,
        },
    }
}

/// The statement with this index, or the commit where there is none.
pub open spec fn statement_or_commit(index: int, statements: usize) -> ApplyPhase {
    if index < statements {
        ApplyPhase::Statement { index: index as usize }
    } else {
        ApplyPhase::Commit
    }
}

impl ApplyPhase {
    /// The phase that follows this one, for a version of so many statements,
    /// where doing what this one asks had this outcome. A rollback that fails
    /// changes nothing: the error that called for it stands.
    pub fn next(
        self,
        version: u32,
        statements: usize,
        outcome: Result<(), neo4rs::Error>,
    ) -> (next: ApplyPhase)
        ensures
            next == phase_after(self, version, statements, outcome),
    {
        match outcome {
            Ok(()) => match self {
                ApplyPhase::Start => {
                    if statements > 0 {
                        ApplyPhase::Statement { index: 0 }
                    } else {
                        ApplyPhase::Commit
                    }
                },
                ApplyPhase::Statement { index } => {
                    if index < statements && index + 1 < statements {
                        ApplyPhase::Statement { index: index + 1 }
                    } else {
                        ApplyPhase::Commit
                    }
                },
                ApplyPhase::Commit => ApplyPhase::StartRecord,
                ApplyPhase::StartRecord => ApplyPhase::Record,
                ApplyPhase::Record => ApplyPhase::CommitRecord,
                ApplyPhase::CommitRecord => ApplyPhase::Applied,
                ApplyPhase::RollBack { error } => ApplyPhase::Failed { error },
                ApplyPhase::Applied => ApplyPhase::Applied,
                ApplyPhase::Failed { error } => ApplyPhase::Failed { error },
            },
            Err(source) => match self {
                ApplyPhase::Start | ApplyPhase::StartRecord => ApplyPhase::Failed {
                    error: MigrationError::StartTransaction { version, source },
                },
                ApplyPhase::Statement { index } => ApplyPhase::RollBack {
                    error: MigrationError::StatementFailed {
                        version,
                        statement_index: index,
                        source,
                    },
                },
                ApplyPhase::Record => ApplyPhase::RollBack {
                    error: MigrationError::RecordVersion { version, source },
                },
                ApplyPhase::Commit | ApplyPhase::CommitRecord => ApplyPhase::Failed {
                    error: MigrationError::Commit { version, source },
                },
                ApplyPhase::RollBack { error } => ApplyPhase::Failed { error },
                ApplyPhase::Applied => ApplyPhase::Applied,
                ApplyPhase::Failed { error } => ApplyPhase::Failed { error },
            },
        }
    }
}

/// The phase reached after these outcomes, from the start.
pub open spec fn phase_reached(
    version: u32,
    statements: usize,
    outcomes: Seq<Result<(), neo4rs::Error>>,
) -> ApplyPhase
    decreases outcomes.len(),
{
    if outcomes.len() == 0 {
        ApplyPhase::Start
    } else {
        phase_after(
            phase_reached(version, statements, outcomes.drop_last()),
            version,
            statements,
            outcomes.last(),
        )
    }
}

/// The phase after so many successes in a row.
pub open spec fn phase_at(statements: usize, successes: int) -> ApplyPhase {
    if successes <= 0 {
        ApplyPhase::Start
    } else if successes <= statements {
        ApplyPhase::Statement { index: (successes - 1) as usize }
    } else if successes == statements + 1 {
        ApplyPhase::Commit
    } else if successes == statements + 2 {
        ApplyPhase::StartRecord
    } else if successes == statements + 3 {
        ApplyPhase::Record
    } else if successes == statements + 4 {
        ApplyPhase::CommitRecord
    } else {
        ApplyPhase::Applied
    }
}

/// Whether the first `count` outcomes are there and are successes.
pub open spec fn succeeded(outcomes: Seq<Result<(), neo4rs::Error>>, count: int) -> bool {
    &&& count <= outcomes.len()
    &&& forall|i: int| 0 <= i < count ==> (#[trigger] outcomes[i]) is Ok
}

proof fn lemma_phase_reached(version: u32, statements: usize, outcomes: Seq<Result<(), neo4rs::Error>>)
    ensures
        ({
            let phase = phase_reached(version, statements, outcomes);
            let steps = if outcomes.len() <= statements + 5 {
                outcomes.len() as int
            } else {
                statements + 5
            };
            phase is RollBack || phase is Failed || (phase == phase_at(statements, steps)
                && succeeded(outcomes, steps))
        }),
    decreases outcomes.len(),
{
    if outcomes.len() > 0 {
        let front = outcomes.drop_last();
        lemma_phase_reached(version, statements, front);
        assert forall|i: int| 0 <= i < front.len() implies front[i] == #[trigger] outcomes[i] by {}
        assert(outcomes[outcomes.len() - 1] == outcomes.last());
    }
}

/// A version is recorded only once the transaction of its statements was
/// started, each of them ran and the whole was committed.
pub proof fn law_record_follows_commit(
    version: u32,
    statements: usize,
    outcomes: Seq<Result<(), neo4rs::Error>>,
)
    requires
        phase_reached(version, statements, outcomes) is StartRecord || phase_reached(
            version,
            statements,
            outcomes,
        ) is Record || phase_reached(version, statements, outcomes) is CommitRecord
            || phase_reached(version, statements, outcomes) is Applied,
    ensures
        succeeded(outcomes, statements + 2),
{
    lemma_phase_reached(version, statements, outcomes);
}

/// A version counts as applied only once its record was committed too.
pub proof fn law_applied_means_recorded(
    version: u32,
    statements: usize,
    outcomes: Seq<Result<(), neo4rs::Error>>,
)
    requires
        phase_reached(version, statements, outcomes) is Applied,
    ensures
        succeeded(outcomes, statements + 5),
{
    lemma_phase_reached(version, statements, outcomes);
}

/// Where everything succeeds, the version ends up applied after its statements
/// and the five steps around them.
pub proof fn law_success_applies(
    version: u32,
    statements: usize,
    outcomes: Seq<Result<(), neo4rs::Error>>,
)
    requires
        outcomes.len() == statements + 5,
        succeeded(outcomes, outcomes.len() as int),
    ensures
        phase_reached(version, statements, outcomes) is Applied,
{
    lemma_success_phase(version, statements, outcomes);
}

proof fn lemma_success_phase(version: u32, statements: usize, outcomes: Seq<Result<(), neo4rs::Error>>)
    requires
        outcomes.len() <= statements + 5,
        succeeded(outcomes, outcomes.len() as int),
    ensures
        phase_reached(version, statements, outcomes) == phase_at(statements, outcomes.len() as int),
    decreases outcomes.len(),
{
    if outcomes.len() > 0 {
        let front = outcomes.drop_last();
        assert forall|i: int| 0 <= i < front.len() implies (#[trigger] front[i]) is Ok by {
            assert(front[i] == outcomes[i]);
        }
        lemma_success_phase(version, statements, front);
        assert(outcomes[outcomes.len() - 1] == outcomes.last());
    }
}

/// The first statement that fails is rolled back, and whatever becomes of the
/// rollback the version is given up with that statement's failure: neither the
/// commit nor the record is reached.
pub proof fn law_failed_statement_gives_up(
    version: u32,
    statements: usize,
    outcomes: Seq<Result<(), neo4rs::Error>>,
    failed: usize,
    rollback: Result<(), neo4rs::Error>,
)
    requires
        failed < statements,
        outcomes.len() == failed + 2,
        succeeded(outcomes, failed + 1),
        outcomes.last() is Err,
    ensures
        phase_reached(version, statements, outcomes.push(rollback)) == (ApplyPhase::Failed {
            error: MigrationError::StatementFailed {
                version,
                statement_index: failed,
                source: outcomes.last()->Err_0,
            },
        }),
{
    let front = outcomes.drop_last();
    assert forall|i: int| 0 <= i < front.len() implies (#[trigger] front[i]) is Ok by {
        assert(front[i] == outcomes[i]);
    }
    lemma_success_phase(version, statements, front);
    assert(phase_reached(version, statements, outcomes) is RollBack);
    assert(outcomes.push(rollback).drop_last() =~= outcomes);
}

} // verus!
