//! Migrations: which version a file has, which statements it holds, and which
//! migrations a run applies.
use vstd::prelude::*;

use crate::error::MigrationError;
use crate::migrations::apply::ApplyPhase;

verus! {

proof fn lemma_first_piece(front: Seq<char>, sep: char, rest: Seq<char>)
    requires
        !front.contains(sep),
    ensures
        crate::text::split(front + seq![sep] + rest, sep)[0] == front,
        crate::text::split(front + seq![sep] + rest, sep).len() > 1,
    decreases rest.len(),
{
    let text = front + seq![sep] + rest;
    if rest.len() == 0 {
        crate::laws::texts::law_split_without_separator(front, sep);
        crate::laws::texts::law_split_adds_a_piece(front, sep, rest);
    } else {
        let shorter = rest.drop_last();
        lemma_first_piece(front, sep, shorter);
        assert(text.drop_last() =~= front + seq![sep] + shorter);
        let before = crate::text::split(front + seq![sep] + shorter, sep);
        if text.last() == sep {
            assert(before.push(Seq::empty())[0] == before[0]);
        } else {
            assert(before.drop_last()[0] == before[0]);
        }
    }
}

/// A file's version is the number before its first underscore, and the whole
/// name where there is none.
pub proof fn law_version_of_a_file(prefix: Seq<char>, rest: Seq<char>)
    requires
        !prefix.contains('_'),
    ensures
        crate::migrations::version_prefix(prefix + seq!['_'] + rest) == crate::text::u32_value(
            prefix,
        ),
        crate::migrations::version_prefix(prefix) == crate::text::u32_value(prefix),
{
    lemma_first_piece(prefix, '_', rest);
    crate::laws::texts::law_split_without_separator(prefix, '_');
}

/// What is kept of a sequence with one more element.
proof fn lemma_filter_push<A>(items: Seq<A>, item: A, keep: spec_fn(A) -> bool)
    ensures
        items.push(item).filter(keep) == (if keep(item) {
            items.filter(keep).push(item)
        } else {
            items.filter(keep)
        }),
{
    reveal(Seq::filter);
    assert(items.push(item).drop_last() =~= items);
}

proof fn lemma_insert_keeps_same_version(
    sorted: Seq<crate::migrations::MigrationView>,
    migration: crate::migrations::MigrationView,
    version: u32,
)
    requires
        crate::migrations::versions_ascend(sorted),
    ensures
        crate::migrations::insert_by_version(sorted, migration).filter(
            |m: crate::migrations::MigrationView| m.version == version,
        ) == sorted.push(migration).filter(
            |m: crate::migrations::MigrationView| m.version == version,
        ),
    decreases sorted.len(),
{
    let keep = |m: crate::migrations::MigrationView| m.version == version;
    if sorted.len() > 0 && sorted.last().version > migration.version {
        let front = sorted.drop_last();
        let last = sorted.last();
        assert forall|i: int, j: int| 0 <= i <= j < front.len() implies (
        #[trigger] front[i]).version <= (#[trigger] front[j]).version by {
            assert(sorted[i].version <= sorted[j].version);
        }
        lemma_insert_keeps_same_version(front, migration, version);
        let inserted = crate::migrations::insert_by_version(front, migration);
        assert(front.push(last) =~= sorted);
        lemma_filter_push(inserted, last, keep);
        lemma_filter_push(front, migration, keep);
        lemma_filter_push(front, last, keep);
        lemma_filter_push(sorted, migration, keep);
    }
}

/// Files of one version keep the order in which they were given.
pub proof fn law_one_version_keeps_its_order(
    files: Seq<(Seq<char>, Seq<char>)>,
    version: u32,
)
    ensures
        crate::migrations::in_version_order(files).filter(
            |m: crate::migrations::MigrationView| m.version == version,
        ) == crate::migrations::in_file_order(files).filter(
            |m: crate::migrations::MigrationView| m.version == version,
        ),
    decreases files.len(),
{
    reveal(Seq::filter);
    let given = crate::migrations::in_file_order(files);
    if files.len() > 0 {
        let front = files.drop_last();
        law_one_version_keeps_its_order(front, version);
        crate::migrations::law_migrations_ascend(front);
        let sorted = crate::migrations::in_version_order(front);
        lemma_insert_keeps_same_version(sorted, given.last(), version);
        assert(crate::migrations::in_file_order(front) =~= given.drop_last());
        assert(sorted.push(given.last()).drop_last() =~= sorted);
    } else {
        assert(crate::migrations::in_version_order(files) =~= given);
    }
}

/// Each migration has the name and the content of its file, and the version
/// that its name gives.
pub proof fn law_migrations_are_their_files(files: Seq<(Seq<char>, Seq<char>)>, i: int)
    requires
        0 <= i < files.len(),
        crate::migrations::version_prefix(files[i].0) matches Some(version) && version
            <= u32::MAX,
    ensures
        ({
            let migration = crate::migrations::in_file_order(files)[i];
            &&& migration.filename == files[i].0
            &&& migration.content == files[i].1
            &&& crate::migrations::version_prefix(files[i].0) == Some(migration.version as nat)
        }),
{
}

/// A line is a comment exactly where its first two characters that are no white
/// space are slashes, one behind the other.
pub proof fn law_comment_lines(blank: Seq<char>, rest: Seq<char>)
    requires
        forall|i: int| 0 <= i < blank.len() ==> crate::text::is_space(#[trigger] blank[i]),
        rest.len() > 0 ==> !crate::text::is_space(rest[0]),
    ensures
        crate::migrations::is_comment(blank + rest) <==> rest.len() >= 2 && rest[0] == '/'
            && rest[1] == '/',
    decreases blank.len(),
{
    if blank.len() == 0 {
        assert(blank + rest =~= rest);
    } else {
        law_comment_lines(blank.skip(1), rest);
        assert((blank + rest).skip(1) =~= blank.skip(1) + rest);
        assert((blank + rest)[0] == blank[0]);
    }
}

/// Leaving out the comments leaves the other lines, with line feeds between
/// them.
pub proof fn law_comment_lines_are_left_out(lines: Seq<Seq<char>>)
    ensures
        crate::migrations::without_comments(lines) == crate::laws::texts::joined_by(
            lines.filter(|line: Seq<char>| !crate::migrations::is_comment(line)),
            '\n',
        ),
        crate::migrations::all_comments(lines) <==> lines.filter(
            |line: Seq<char>| !crate::migrations::is_comment(line),
        ).len() == 0,
    decreases lines.len(),
{
    reveal(Seq::filter);
    let keep = |line: Seq<char>| !crate::migrations::is_comment(line);
    let kept = lines.filter(keep);
    if lines.len() > 0 {
        let front = lines.drop_last();
        let before = front.filter(keep);
        law_comment_lines_are_left_out(front);
        assert(lines[lines.len() - 1] == lines.last());
        assert(crate::migrations::all_comments(lines) <==> crate::migrations::all_comments(front)
            && crate::migrations::is_comment(lines.last())) by {
            if crate::migrations::all_comments(lines) {
                assert forall|i: int| 0 <= i < front.len() implies crate::migrations::is_comment(
                    #[trigger] front[i],
                ) by {
                    assert(front[i] == lines[i]);
                }
            }
            if crate::migrations::all_comments(front) && crate::migrations::is_comment(
                lines.last(),
            ) {
                assert forall|i: int| 0 <= i < lines.len() implies crate::migrations::is_comment(
                    #[trigger] lines[i],
                ) by {
                    if i < front.len() {
                        assert(front[i] == lines[i]);
                    }
                }
            }
        }
        if !crate::migrations::is_comment(lines.last()) {
            assert(kept == before.push(lines.last()));
            assert(kept.drop_last() =~= before);
            if before.len() > 0 {
                assert(crate::laws::texts::joined_by(before, '\n').push('\n') + lines.last()
                    =~= crate::laws::texts::joined_by(before, '\n') + seq!['\n'] + lines.last());
            }
        }
    }
}

/// The statements of a source are what semicolons mark off in the lines that
/// are no comments, trimmed, but for those with nothing in them.
pub proof fn law_statements_of_a_source(source: Seq<char>)
    ensures
        crate::migrations::statements(source) == crate::text::split(
            crate::laws::texts::joined_by(
                crate::text::lines(source).filter(
                    |line: Seq<char>| !crate::migrations::is_comment(line),
                ),
                '\n',
            ),
            ';',
        ).map_values(|piece: Seq<char>| crate::text::trim(piece)).filter(
            |piece: Seq<char>| piece.len() > 0,
        ),
{
    law_comment_lines_are_left_out(crate::text::lines(source));
    lemma_trimmed_pieces(
        crate::text::split(
            crate::migrations::without_comments(crate::text::lines(source)),
            ';',
        ),
    );
}

proof fn lemma_trimmed_pieces(pieces: Seq<Seq<char>>)
    ensures
        crate::migrations::trimmed_pieces(pieces) == pieces.map_values(
            |piece: Seq<char>| crate::text::trim(piece),
        ).filter(|piece: Seq<char>| piece.len() > 0),
    decreases pieces.len(),
{
    reveal(Seq::filter);
    let trim = |piece: Seq<char>| crate::text::trim(piece);
    if pieces.len() > 0 {
        lemma_trimmed_pieces(pieces.drop_last());
        assert(pieces.map_values(trim).drop_last() =~= pieces.drop_last().map_values(trim));
    }
}

/// A run applies exactly the migrations whose versions are not recorded, with
/// their statements and in their order, and reports them as applied and the
/// others as skipped.
pub proof fn law_pending_migrations(
    migrations: Seq<crate::migrations::MigrationView>,
    applied: Seq<u32>,
)
    ensures
        crate::migrations::pending(migrations, applied) == migrations.filter(
            |m: crate::migrations::MigrationView| !applied.contains(m.version),
        ).map_values(
            |m: crate::migrations::MigrationView|
                crate::migrations::PendingMigrationView {
                    version: m.version,
                    statements: crate::migrations::statements(m.content),
                },
        ),
        crate::migrations::versions(migrations, applied, false) == migrations.filter(
            |m: crate::migrations::MigrationView| !applied.contains(m.version),
        ).map_values(|m: crate::migrations::MigrationView| m.version),
        crate::migrations::versions(migrations, applied, true) == migrations.filter(
            |m: crate::migrations::MigrationView| applied.contains(m.version),
        ).map_values(|m: crate::migrations::MigrationView| m.version),
    decreases migrations.len(),
{
    reveal(Seq::filter);
    let open = |m: crate::migrations::MigrationView| !applied.contains(m.version);
    let done = |m: crate::migrations::MigrationView| applied.contains(m.version);
    let version = |m: crate::migrations::MigrationView| m.version;
    let step = |m: crate::migrations::MigrationView|
        crate::migrations::PendingMigrationView {
            version: m.version,
            statements: crate::migrations::statements(m.content),
        };
    if migrations.len() > 0 {
        law_pending_migrations(migrations.drop_last(), applied);
    }
    assert(crate::migrations::pending(migrations, applied) =~= migrations.filter(open).map_values(
        step,
    ));
    assert(crate::migrations::versions(migrations, applied, false) =~= migrations.filter(
        open,
    ).map_values(version));
    assert(crate::migrations::versions(migrations, applied, true) =~= migrations.filter(
        done,
    ).map_values(version));
}

/// What a failure does at each step: before a transaction there is nothing to
/// undo, a statement or the record is rolled back, and a commit that fails is
/// reported as such. Each names the version, and a statement its place. A
/// rollback keeps the error, whether or not it works.
pub proof fn law_failures_of_a_migration(
    version: u32,
    statements: usize,
    index: usize,
    source: neo4rs::Error,
    error: MigrationError,
    outcome: Result<(), neo4rs::Error>,
)
    ensures
        ({
            let failed = Err::<(), neo4rs::Error>(source);
            let after = |phase: ApplyPhase|
                crate::migrations::apply::phase_after(phase, version, statements, failed);
            &&& after(ApplyPhase::Start) == (ApplyPhase::Failed {
                error: MigrationError::StartTransaction { version, source },
            })
            &&& after(ApplyPhase::StartRecord) == (ApplyPhase::Failed {
                error: MigrationError::StartTransaction { version, source },
            })
            &&& after(ApplyPhase::Statement { index }) == (ApplyPhase::RollBack {
                error: MigrationError::StatementFailed { version, statement_index: index, source },
            })
            &&& after(ApplyPhase::Record) == (ApplyPhase::RollBack {
                error: MigrationError::RecordVersion { version, source },
            })
            &&& after(ApplyPhase::Commit) == (ApplyPhase::Failed {
                error: MigrationError::Commit { version, source },
            })
            &&& after(ApplyPhase::CommitRecord) == (ApplyPhase::Failed {
                error: MigrationError::Commit { version, source },
            })
            &&& crate::migrations::apply::phase_after(
                ApplyPhase::RollBack { error },
                version,
                statements,
                outcome,
            ) == (ApplyPhase::Failed { error })
            &&& crate::migrations::apply::phase_after(
                ApplyPhase::Failed { error },
                version,
                statements,
                outcome,
            ) == (ApplyPhase::Failed { error })
        }),
{
}

/// Where every step succeeds, a migration starts a transaction, runs its
/// statements one by one in their order, commits, starts a second transaction,
/// records the version and commits again, and is then applied.
pub proof fn law_phases_in_turn(
    version: u32,
    statements: usize,
    outcomes: Seq<Result<(), neo4rs::Error>>,
)
    requires
        forall|i: int| 0 <= i < outcomes.len() ==> (#[trigger] outcomes[i]) is Ok,
    ensures
        ({
            let phase = crate::migrations::apply::phase_reached(version, statements, outcomes);
            let done = outcomes.len();
            &&& done == 0 ==> phase == ApplyPhase::Start
            &&& 1 <= done <= statements ==> (phase matches ApplyPhase::Statement { index }
                && index + 1 == done)
            &&& done == statements + 1 ==> phase == ApplyPhase::Commit
            &&& done == statements + 2 ==> phase == ApplyPhase::StartRecord
            &&& done == statements + 3 ==> phase == ApplyPhase::Record
            &&& done == statements + 4 ==> phase == ApplyPhase::CommitRecord
            &&& done >= statements + 5 ==> phase == ApplyPhase::Applied
        }),
    decreases outcomes.len(),
{
    if outcomes.len() > 0 {
        let front = outcomes.drop_last();
        assert forall|i: int| 0 <= i < front.len() implies (#[trigger] front[i]) is Ok by {
            assert(front[i] == outcomes[i]);
        }
        law_phases_in_turn(version, statements, front);
        assert(outcomes[outcomes.len() - 1] == outcomes.last());
    }
}

/// The file that is reported is one whose name has no number before its first
/// underscore, and every file before it has one.
pub proof fn law_first_misnamed_file(files: Seq<(Seq<char>, Seq<char>)>, i: int, j: int)
    requires
        crate::migrations::is_first_malformed(files, i),
        0 <= j < files.len(),
    ensures
        0 <= i < files.len(),
        crate::migrations::version_prefix(files[i].0) is None,
        crate::migrations::version_prefix(files[j].0) is None ==> i <= j,
{
}

} // verus!
