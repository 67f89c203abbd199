//! Schema migrations: which versions to apply, in which order, from which
//! statements, and when a version may be recorded as applied.
pub mod apply;

use vstd::prelude::*;

use crate::error::MigrationError;
use crate::text::{chars_of, lines_of, parse_u32, split_chars, start_of_text, text_of, trim_chars};

verus! {

/// Creates the constraint under which a version is recorded once. No migration
/// can create it, since it guards the record of the migrations themselves.
pub const SCHEMA_MIGRATION_CONSTRAINT: &'static str =
    "CREATE CONSTRAINT schema_migration_version_unique IF NOT EXISTS FOR (n:SchemaMigration) REQUIRE n.version IS UNIQUE";

/// Reads the versions recorded so far.
pub const READ_APPLIED_VERSIONS: &'static str =
    "MATCH (n:SchemaMigration) RETURN n.version AS version";

/// Records the version that is bound to `$version`.
pub const RECORD_VERSION: &'static str =
    "MERGE (n:SchemaMigration {version: $version}) SET n.applied_at = datetime()";

/// Which migration versions a run applied, and which it found recorded.
#[derive(Debug, Clone, PartialEq, Eq)]
pub struct MigrationSummary {
    pub applied: Vec<u32>,
    pub skipped: Vec<u32>,
}

impl Default for MigrationSummary {
    fn default() -> (summary: Self)
        ensures
            summary.applied@ == Seq::<u32>::empty(),
            summary.skipped@ == Seq::<u32>::empty(),
    {
        MigrationSummary { applied: Vec::new(), skipped: Vec::new() }
    }
}

/// One migration file with the version that its name gives it.
#[derive(Debug, Clone, PartialEq, Eq)]
pub struct Migration {
    pub version: u32,
    pub filename: String,
    pub content: String,
}

/// What a `Migration` holds.
pub ghost struct MigrationView {
    pub version: u32,
    pub filename: Seq<char>,
    pub content: Seq<char>,
}

impl DeepView for Migration {
    type V = MigrationView;

    open spec fn deep_view(&self) -> MigrationView {
        MigrationView {
            version: self.version,
            filename: self.filename@,
            content: self.content@,
        }
    }
}

/// The version that a file name gives: the number before its first underscore.
pub open spec fn version_prefix(filename: Seq<char>) -> Option<nat> {
    crate::text::u32_value(crate::text::split(filename, '_')[0])
}

/// Parses the number before the first `_` of a migration's file name, as in
/// `"0002_indexes.cypher"`, which gives 2.
pub fn parse_version_prefix(filename: &str) -> (version: Result<u32, MigrationError>)
    ensures
        version is Ok <==> version_prefix(filename@) is Some,
        version is Ok ==> version->Ok_0 == version_prefix(filename@)->0,
        version matches Err(error) ==> (error matches MigrationError::MalformedFilename {
            filename: name,
        } && name@ == filename@),
{
    let chars = chars_of(filename);
    let pieces = split_chars(&chars, '_');
    proof {
        crate::text::lemma_split_len(filename@, '_');
        assert(pieces@[0].deep_view() =~= pieces@[0]@);
        assert(pieces.deep_view()[0] == pieces@[0].deep_view());
    }
    match parse_u32(&pieces[0]) {
        Some(version) => Ok(version),
        None => Err(MigrationError::MalformedFilename { filename: filename.to_string() }),
    }
}

/// `sorted` with `migration` put after every migration whose version is not
/// higher.
pub open spec fn insert_by_version(
    sorted: Seq<MigrationView>,
    migration: MigrationView,
) -> Seq<MigrationView>
    decreases sorted.len(),
{
    if sorted.len() == 0 || sorted.last().version <= migration.version {
        sorted.push(migration)
    } else {
        insert_by_version(sorted.drop_last(), migration).push(sorted.last())
    }
}

/// The migrations in `files`, pairs of a name and a content, in the order in
/// which they are applied: ascending by version, files of one version in the
/// order given. Every name must give a version.
pub open spec fn in_version_order(files: Seq<(Seq<char>, Seq<char>)>) -> Seq<MigrationView>
    decreases files.len(),
{
    if files.len() == 0 {
        Seq::empty()
    } else {
        insert_by_version(
            in_version_order(files.drop_last()),
            MigrationView {
                version: version_prefix(files.last().0)->0 as u32,
                filename: files.last().0,
                content: files.last().1,
            },
        )
    }
}

/// The first file whose name gives no version.
pub open spec fn is_first_malformed(files: Seq<(Seq<char>, Seq<char>)>, index: int) -> bool {
    &&& 0 <= index < files.len()
    &&& version_prefix(files[index].0) is None
    &&& forall|i: int| 0 <= i < index ==> version_prefix((#[trigger] files[i]).0) is Some
}

/// Whether versions never go down.
pub open spec fn versions_ascend(migrations: Seq<MigrationView>) -> bool {
    forall|i: int, j: int|
        0 <= i <= j < migrations.len() ==> (#[trigger] migrations[i]).version <= (
        #[trigger] migrations[j]).version
}

proof fn lemma_insert_keeps_order(
    sorted: Seq<MigrationView>,
    migration: MigrationView,
    bound: int,
)
    requires
        versions_ascend(sorted),
        migration.version <= bound,
        forall|i: int| 0 <= i < sorted.len() ==> (#[trigger] sorted[i]).version <= bound,
    ensures
        versions_ascend(insert_by_version(sorted, migration)),
        forall|i: int|
            0 <= i < insert_by_version(sorted, migration).len() ==> (#[trigger] insert_by_version(
                sorted,
                migration,
            )[i]).version <= bound,
    decreases sorted.len(),
{
    if sorted.len() > 0 {
        let front = sorted.drop_last();
        let last = sorted.last();
        assert(last == sorted[sorted.len() - 1]);
        if last.version > migration.version {
            assert forall|i: int| 0 <= i < front.len() implies (#[trigger] front[i]).version
                <= last.version by {
                assert(front[i] == sorted[i]);
            }
            lemma_insert_keeps_order(front, migration, last.version as int);
        } else {
            let result = insert_by_version(sorted, migration);
            assert forall|i: int, j: int| 0 <= i <= j < result.len() implies (
            #[trigger] result[i]).version <= (#[trigger] result[j]).version by {
                if j == sorted.len() && i < j {
                    assert(sorted[i].version <= sorted[sorted.len() - 1].version);
                }
            }
        }
    }
}

/// Migrations are applied in ascending version order, whatever order the files
/// come in and however their names compare as text.
pub proof fn law_migrations_ascend(files: Seq<(Seq<char>, Seq<char>)>)
    ensures
        versions_ascend(in_version_order(files)),
    decreases files.len(),
{
    if files.len() > 0 {
        law_migrations_ascend(files.drop_last());
        lemma_insert_keeps_order(
            in_version_order(files.drop_last()),
            MigrationView {
                version: version_prefix(files.last().0)->0 as u32,
                filename: files.last().0,
                content: files.last().1,
            },
            u32::MAX as int,
        );
    }
}

proof fn lemma_insert_migration_multiset(sorted: Seq<MigrationView>, migration: MigrationView)
    ensures
        insert_by_version(sorted, migration).to_multiset() == sorted.to_multiset().insert(
            migration,
        ),
    decreases sorted.len(),
{
    broadcast use vstd::seq_lib::group_to_multiset_ensures;

    if sorted.len() > 0 && sorted.last().version > migration.version {
        let front = sorted.drop_last();
        lemma_insert_migration_multiset(front, migration);
        assert(front.push(sorted.last()) =~= sorted);
        assert(insert_by_version(sorted, migration).to_multiset() =~= sorted.to_multiset().insert(
            migration,
        ));
    }
}

/// The migrations in `files` as they come.
pub open spec fn in_file_order(files: Seq<(Seq<char>, Seq<char>)>) -> Seq<MigrationView> {
    files.map_values(
        |file: (Seq<char>, Seq<char>)|
            MigrationView {
                version: version_prefix(file.0)->0 as u32,
                filename: file.0,
                content: file.1,
            },
    )
}

/// Ordering the migrations loses none and adds none.
pub proof fn law_ordering_keeps_every_migration(files: Seq<(Seq<char>, Seq<char>)>)
    ensures
        in_version_order(files).to_multiset() == in_file_order(files).to_multiset(),
    decreases files.len(),
{
    broadcast use vstd::seq_lib::group_to_multiset_ensures;

    if files.len() > 0 {
        law_ordering_keeps_every_migration(files.drop_last());
        let given = in_file_order(files);
        lemma_insert_migration_multiset(in_version_order(files.drop_last()), given.last());
        assert(in_file_order(files.drop_last()) =~= given.drop_last());
        assert(given.drop_last().push(given.last()) =~= given);
    } else {
        assert(in_version_order(files) =~= in_file_order(files));
    }
}

fn insert_migration(sorted: &mut Vec<Migration>, migration: Migration)
    ensures
        final(sorted).deep_view() == insert_by_version(
            old(sorted).deep_view(),
            migration.deep_view(),
        ),
{
    let ghost model = sorted.deep_view();
    let ghost inserted = migration.deep_view();
    let mut k: usize = sorted.len();
    assert(model.take(k as int) =~= model);
    assert(insert_by_version(model, inserted) =~= insert_by_version(model.take(k as int), inserted)
        + model.skip(k as int));
    while k > 0 && sorted[k - 1].version > migration.version
        invariant
            0 <= k <= sorted@.len(),
            model == sorted.deep_view(),
            inserted == migration.deep_view(),
            insert_by_version(model, inserted) == insert_by_version(model.take(k as int), inserted)
                + model.skip(k as int),
        decreases k,
    {
        proof {
            let part = model.take(k as int);
            assert(part.last() == sorted@[k - 1].deep_view());
            assert(part.drop_last() =~= model.take(k - 1));
            assert(insert_by_version(part, inserted) + model.skip(k as int) =~= insert_by_version(
                model.take(k - 1),
                inserted,
            ) + model.skip(k - 1));
        }
        k = k - 1;
    }
    proof {
        let part = model.take(k as int);
        if k > 0 {
            assert(part.last() == sorted@[k - 1].deep_view());
        }
        assert(insert_by_version(part, inserted) == part.push(inserted));
    }
    sorted.insert(k, migration);
    assert(sorted.deep_view() =~= model.take(k as int).push(inserted) + model.skip(k as int));
}

/// The migrations in `files`, pairs of a name and a content, in the order in
/// which they are applied. Fails on the first file whose name gives no version.
pub fn ordered_migrations(files: &[(&str, &str)]) -> (ordered: Result<
    Vec<Migration>,
    MigrationError,
>)
    ensures
        ordered is Ok <==> forall|i: int|
            0 <= i < files@.len() ==> version_prefix((#[trigger] files@[i]).0@) is Some,
        ordered matches Ok(migrations) ==> migrations.deep_view() == in_version_order(
            files.deep_view(),
        ),
        ordered matches Err(error) ==> (error matches MigrationError::MalformedFilename {
            filename,
        } && exists|i: int|
            is_first_malformed(files.deep_view(), i) && filename@ == (#[trigger] files@[i]).0@),
{
    let ghost model = files.deep_view();
    let mut sorted: Vec<Migration> = Vec::new();
    let mut i: usize = 0;
    assert(sorted.deep_view() =~= Seq::empty());
    assert(model.take(0) =~= Seq::empty());
    while i < files.len()
        invariant
            0 <= i <= files@.len(),
            model == files.deep_view(),
            forall|j: int|
                0 <= j < i ==> version_prefix((#[trigger] files@[j]).0@) is Some,
            sorted.deep_view() == in_version_order(model.take(i as int)),
        decreases files@.len() - i,
    {
        proof {
            assert(model.take(i + 1).drop_last() =~= model.take(i as int));
            assert(model.take(i + 1).last() == model[i as int]);
            assert(model[i as int].0 == files@[i as int].0@);
            assert(model[i as int].1 == files@[i as int].1@);
        }
        let filename = files[i].0;
        let content = files[i].1;
        match parse_version_prefix(filename) {
            Ok(version) => {
                let migration = Migration {
                    version,
                    filename: filename.to_string(),
                    content: content.to_string(),
                };
                insert_migration(&mut sorted, migration);
            },
            Err(error) => {
                proof {
                    assert forall|j: int| 0 <= j < i implies version_prefix(
                        (#[trigger] model[j]).0,
                    ) is Some by {
                        assert(model[j].0 == files@[j].0@);
                    }
                    assert(is_first_malformed(model, i as int));
                }
                return Err(error);
            },
        }
        i = i + 1;
    }
    assert(model.take(i as int) =~= model);
    Ok(sorted)
}

/// Whether a line holds a comment alone.
pub open spec fn is_comment(line: Seq<char>) -> bool {
    let text = crate::text::trim_start(line);
    text.len() >= 2 && text[0] == '/' && text[1] == '/'
}

/// Those of `lines` that are no comment, each but the first after a line feed.
pub open spec fn without_comments(lines: Seq<Seq<char>>) -> Seq<char>
    decreases lines.len(),
{
    if lines.len() == 0 {
        Seq::empty()
    } else {
        let before = lines.drop_last();
        if is_comment(lines.last()) {
            without_comments(before)
        } else if all_comments(before) {
            lines.last()
        } else {
            without_comments(before).push('\n') + lines.last()
        }
    }
}

/// Whether every line is a comment.
pub open spec fn all_comments(lines: Seq<Seq<char>>) -> bool {
    forall|i: int| 0 <= i < lines.len() ==> is_comment(#[trigger] lines[i])
}

/// Those of `pieces` that hold more than white space, trimmed.
pub open spec fn trimmed_pieces(pieces: Seq<Seq<char>>) -> Seq<Seq<char>>
    decreases pieces.len(),
{
    if pieces.len() == 0 {
        Seq::empty()
    } else {
        let before = trimmed_pieces(pieces.drop_last());
        let piece = crate::text::trim(pieces.last());
        if piece.len() == 0 {
            before
        } else {
            before.push(piece)
        }
    }
}

/// The statements of a migration's source: what semicolons mark off once the
/// comment lines are gone, trimmed, and without the empty ones.
pub open spec fn statements(source: Seq<char>) -> Seq<Seq<char>> {
    trimmed_pieces(crate::text::split(without_comments(crate::text::lines(source)), ';'))
}

/// No statement is empty, and none starts or ends with white space.
pub proof fn law_statements_are_trimmed(source: Seq<char>)
    ensures
        forall|i: int|
            0 <= i < statements(source).len() ==> (#[trigger] statements(source)[i]).len() > 0
                && !crate::text::is_space(statements(source)[i][0]) && !crate::text::is_space(
                statements(source)[i].last(),
            ),
{
    lemma_pieces_are_trimmed(
        crate::text::split(without_comments(crate::text::lines(source)), ';'),
    );
}

proof fn lemma_pieces_are_trimmed(pieces: Seq<Seq<char>>)
    ensures
        forall|i: int|
            0 <= i < trimmed_pieces(pieces).len() ==> (#[trigger] trimmed_pieces(pieces)[i]).len()
                > 0 && !crate::text::is_space(trimmed_pieces(pieces)[i][0])
                && !crate::text::is_space(trimmed_pieces(pieces)[i].last()),
    decreases pieces.len(),
{
    if pieces.len() > 0 {
        lemma_pieces_are_trimmed(pieces.drop_last());
        crate::text::lemma_trim_ends(pieces.last());
        let before = trimmed_pieces(pieces.drop_last());
        let all = trimmed_pieces(pieces);
        assert forall|i: int| 0 <= i < all.len() implies (#[trigger] all[i]).len() > 0
            && !crate::text::is_space(all[i][0]) && !crate::text::is_space(all[i].last()) by {
            if i < before.len() {
                assert(all[i] == before[i]);
            } else {
                assert(all[i] == crate::text::trim(pieces.last()));
            }
        }
    }
}

/// Comment lines never reach the statements: a file with more of them, wherever
/// they stand, has the same statements.
pub proof fn law_comments_are_ignored(
    before: Seq<Seq<char>>,
    comment: Seq<char>,
    after: Seq<Seq<char>>,
)
    requires
        is_comment(comment),
    ensures
        without_comments(before.push(comment) + after) == without_comments(before + after),
    decreases after.len(),
{
    let with = before.push(comment) + after;
    let plain = before + after;
    if after.len() == 0 {
        assert(with.drop_last() =~= before);
        assert(plain =~= before);
    } else {
        law_comments_are_ignored(before, comment, after.drop_last());
        let with_front = before.push(comment) + after.drop_last();
        let plain_front = before + after.drop_last();
        assert(with.drop_last() =~= with_front);
        assert(plain.drop_last() =~= plain_front);
        assert(with.last() == after.last());
        assert(plain.last() == after.last());
        assert(all_comments(with_front) == all_comments(plain_front)) by {
            if all_comments(with_front) {
                assert forall|i: int| 0 <= i < plain_front.len() implies is_comment(
                    #[trigger] plain_front[i],
                ) by {
                    if i < before.len() {
                        assert(plain_front[i] == with_front[i]);
                    } else {
                        assert(plain_front[i] == with_front[i + 1]);
                    }
                }
            }
            if all_comments(plain_front) {
                assert forall|i: int| 0 <= i < with_front.len() implies is_comment(
                    #[trigger] with_front[i],
                ) by {
                    if i < before.len() {
                        assert(with_front[i] == plain_front[i]);
                    } else if i == before.len() {
                        assert(with_front[i] == comment);
                    } else {
                        assert(with_front[i] == plain_front[i - 1]);
                    }
                }
            }
        }
    }
}

fn comment_line(line: &Vec<char>) -> (comment: bool)
    ensures
        comment == is_comment(line@),
{
    let start = start_of_text(line);
    proof {
        let text = crate::text::trim_start(line@);
        if text.len() >= 2 {
            assert(text[0] == line@[start as int]);
            assert(text[1] == line@[start + 1]);
        }
    }
    line.len() - start >= 2 && line[start] == '/' && line[start + 1] == '/'
}

/// Splits a migration's source into its statements.
///
/// Comment lines go before the split: a semicolon may stand in a comment's
/// prose, and there it ends no statement.
pub fn split_statements(source: &str) -> (found: Vec<String>)
    ensures
        found.deep_view() == statements(source@),
{
    let chars = chars_of(source);
    let lines = lines_of(&chars);
    let ghost model = lines.deep_view();
    let mut code: Vec<char> = Vec::new();
    let mut bare: bool = true;
    let mut i: usize = 0;
    assert(code@ =~= without_comments(model.take(0)));
    while i < lines.len()
        invariant
            0 <= i <= lines@.len(),
            model == lines.deep_view(),
            bare == all_comments(model.take(i as int)),
            bare ==> code@.len() == 0,
            code@ == without_comments(model.take(i as int)),
        decreases lines@.len() - i,
    {
        let ghost before = model.take(i as int);
        let ghost now = model.take(i + 1);
        proof {
            assert(now.drop_last() =~= before);
            assert(now.last() == lines@[i as int].deep_view());
            assert(lines@[i as int].deep_view() =~= lines@[i as int]@);
        }
        let comment = comment_line(&lines[i]);
        assert(all_comments(now) == (all_comments(before) && is_comment(now.last()))) by {
            assert forall|j: int| 0 <= j < before.len() implies before[j] == #[trigger] now[j] by {}
            assert(now[i as int] == now.last());
            if all_comments(now) {
                assert forall|j: int| 0 <= j < before.len() implies is_comment(
                    #[trigger] before[j],
                ) by {
                    assert(before[j] == now[j]);
                }
            }
        }
        if !comment {
            if !bare {
                code.push('\n');
            }
            append_chars(&mut code, &lines[i]);
            assert(code@ =~= without_comments(now));
            bare = false;
        }
        i = i + 1;
    }
    assert(model.take(i as int) =~= model);
    trimmed_statements(&split_chars(&code, ';'))
}

fn append_chars(code: &mut Vec<char>, line: &Vec<char>)
    ensures
        final(code)@ == old(code)@ + line@,
{
    let mut i: usize = 0;
    let ghost before = code@;
    assert(before + line@.take(0) =~= before);
    while i < line.len()
        invariant
            0 <= i <= line@.len(),
            code@ == before + line@.take(i as int),
        decreases line@.len() - i,
    {
        code.push(line[i]);
        i = i + 1;
        assert(code@ =~= before + line@.take(i as int));
    }
    assert(line@.take(i as int) =~= line@);
}

fn trimmed_statements(pieces: &Vec<Vec<char>>) -> (found: Vec<String>)
    ensures
        found.deep_view() == trimmed_pieces(pieces.deep_view()),
{
    let ghost model = pieces.deep_view();
    let mut found: Vec<String> = Vec::new();
    let mut i: usize = 0;
    assert(found.deep_view() =~= Seq::empty());
    assert(model.take(0) =~= Seq::empty());
    while i < pieces.len()
        invariant
            0 <= i <= pieces@.len(),
            model == pieces.deep_view(),
            found.deep_view() == trimmed_pieces(model.take(i as int)),
        decreases pieces@.len() - i,
    {
        let ghost before = found.deep_view();
        proof {
            assert(model.take(i + 1).drop_last() =~= model.take(i as int));
            assert(model.take(i + 1).last() == pieces@[i as int].deep_view());
            assert(pieces@[i as int].deep_view() =~= pieces@[i as int]@);
        }
        let piece = trim_chars(&pieces[i]);
        if piece.len() > 0 {
            let statement = text_of(piece, 0, piece.len());
            assert(statement@ =~= piece@);
            found.push(statement);
            assert(found.deep_view() =~= before.push(piece@));
        }
        i = i + 1;
    }
    assert(model.take(i as int) =~= model);
    found
}

/// One migration that is still to be applied.
#[derive(Debug, Clone, PartialEq, Eq)]
pub struct PendingMigration {
    pub version: u32,
    pub statements: Vec<String>,
}

/// What a `PendingMigration` holds.
pub ghost struct PendingMigrationView {
    pub version: u32,
    pub statements: Seq<Seq<char>>,
}

impl DeepView for PendingMigration {
    type V = PendingMigrationView;

    open spec fn deep_view(&self) -> PendingMigrationView {
        PendingMigrationView { version: self.version, statements: self.statements.deep_view() }
    }
}

/// What a run has to do, and what it reports once all of that is done.
#[derive(Debug, Clone, PartialEq, Eq)]
pub struct MigrationPlan {
    pub pending: Vec<PendingMigration>,
    pub summary: MigrationSummary,
}

/// The migrations whose versions are not recorded, with their statements, in
/// the order given.
pub open spec fn pending(migrations: Seq<MigrationView>, applied: Seq<u32>) -> Seq<
    PendingMigrationView,
>
    decreases migrations.len(),
{
    if migrations.len() == 0 {
        Seq::empty()
    } else {
        let before = pending(migrations.drop_last(), applied);
        let migration = migrations.last();
        if applied.contains(migration.version) {
            before
        } else {
            before.push(
                PendingMigrationView {
                    version: migration.version,
                    statements: statements(migration.content),
                },
            )
        }
    }
}

/// The versions of the migrations that are recorded, in the order given, or of
/// those that are not.
pub open spec fn versions(
    migrations: Seq<MigrationView>,
    applied: Seq<u32>,
    recorded: bool,
) -> Seq<u32>
    decreases migrations.len(),
{
    if migrations.len() == 0 {
        Seq::empty()
    } else {
        let before = versions(migrations.drop_last(), applied, recorded);
        if applied.contains(migrations.last().version) == recorded {
            before.push(migrations.last().version)
        } else {
            before
        }
    }
}

/// Plans a run over `migrations` where `applied` are the recorded versions.
pub fn plan_migrations(migrations: &[Migration], applied: &[u32]) -> (plan: MigrationPlan)
    ensures
        plan.pending.deep_view() == pending(migrations.deep_view(), applied@),
        plan.summary.applied@ == versions(migrations.deep_view(), applied@, false),
        plan.summary.skipped@ == versions(migrations.deep_view(), applied@, true),
{
    let ghost model = migrations.deep_view();
    let mut todo: Vec<PendingMigration> = Vec::new();
    let mut summary = MigrationSummary::default();
    let mut i: usize = 0;
    assert(todo.deep_view() =~= Seq::empty());
    assert(model.take(0) =~= Seq::empty());
    while i < migrations.len()
        invariant
            0 <= i <= migrations@.len(),
            model == migrations.deep_view(),
            todo.deep_view() == pending(model.take(i as int), applied@),
            summary.applied@ == versions(model.take(i as int), applied@, false),
            summary.skipped@ == versions(model.take(i as int), applied@, true),
        decreases migrations@.len() - i,
    {
        let ghost before = todo.deep_view();
        proof {
            assert(model.take(i + 1).drop_last() =~= model.take(i as int));
            assert(model.take(i + 1).last() == migrations@[i as int].deep_view());
        }
        let version = migrations[i].version;
        if holds_version(applied, version) {
            summary.skipped.push(version);
        } else {
            let step = PendingMigration {
                version,
                statements: split_statements(migrations[i].content.as_str()),
            };
            todo.push(step);
            assert(todo.deep_view() =~= before.push(step.deep_view()));
            summary.applied.push(version);
        }
        i = i + 1;
    }
    assert(model.take(i as int) =~= model);
    MigrationPlan { pending: todo, summary }
}

fn holds_version(versions: &[u32], version: u32) -> (holds: bool)
    ensures
        holds == versions@.contains(version),
{
    let mut i: usize = 0;
    while i < versions.len()
        invariant
            0 <= i <= versions@.len(),
            forall|j: int| 0 <= j < i ==> versions@[j] != version,
        decreases versions@.len() - i,
    {
        if versions[i] == version {
            assert(versions@[i as int] == version);
            return true;
        }
        i = i + 1;
    }
    false
}

/// A run applies exactly the versions that it plans for, in the same order.
pub proof fn law_summary_names_the_pending(migrations: Seq<MigrationView>, applied: Seq<u32>)
    ensures
        versions(migrations, applied, false) == pending(migrations, applied).map_values(
            |step: PendingMigrationView| step.version,
        ),
    decreases migrations.len(),
{
    let picked = pending(migrations, applied).map_values(|step: PendingMigrationView| step.version);
    if migrations.len() > 0 {
        law_summary_names_the_pending(migrations.drop_last(), applied);
        let before = pending(migrations.drop_last(), applied);
        if applied.contains(migrations.last().version) {
            assert(pending(migrations, applied) == before);
        } else {
            assert(picked =~= before.map_values(|step: PendingMigrationView| step.version).push(
                migrations.last().version,
            ));
        }
    }
    assert(versions(migrations, applied, false) =~= picked);
}

/// A second run, after one that recorded every version it applied, applies
/// nothing and skips every migration.
pub proof fn law_second_run_applies_nothing(migrations: Seq<MigrationView>, applied: Seq<u32>)
    ensures
        pending(migrations, applied + versions(migrations, applied, false)).len() == 0,
        versions(migrations, applied + versions(migrations, applied, false), true)
            == migrations.map_values(|migration: MigrationView| migration.version),
{
    let added = versions(migrations, applied, false);
    let recorded = applied + added;
    assert forall|v: u32| applied.contains(v) || added.contains(v) implies
        #[trigger] recorded.contains(v) by {
        if applied.contains(v) {
            let k = choose|k: int| 0 <= k < applied.len() && applied[k] == v;
            assert(recorded[k] == v);
        } else {
            let k = choose|k: int| 0 <= k < added.len() && added[k] == v;
            assert(recorded[applied.len() + k] == v);
        }
    }
    lemma_recorded_versions_are_skipped(migrations, applied, recorded);
}

proof fn lemma_recorded_versions_are_skipped(
    migrations: Seq<MigrationView>,
    applied: Seq<u32>,
    recorded: Seq<u32>,
)
    requires
        forall|v: u32|
            applied.contains(v) || versions(migrations, applied, false).contains(v)
                ==> #[trigger] recorded.contains(v),
    ensures
        pending(migrations, recorded).len() == 0,
        versions(migrations, recorded, true) == migrations.map_values(
            |migration: MigrationView| migration.version,
        ),
    decreases migrations.len(),
{
    if migrations.len() > 0 {
        let front = migrations.drop_last();
        let before = versions(front, applied, false);
        let all = versions(migrations, applied, false);
        let last = migrations.last().version;
        assert forall|v: u32| applied.contains(v) || before.contains(v) implies
            #[trigger] recorded.contains(v) by {
            if before.contains(v) {
                let k = choose|k: int| 0 <= k < before.len() && before[k] == v;
                assert(all[k] == v);
                assert(all.contains(v));
            }
        }
        lemma_recorded_versions_are_skipped(front, applied, recorded);
        if !applied.contains(last) {
            assert(all == before.push(last));
            assert(all[before.len() as int] == last);
            assert(all.contains(last));
        }
        assert(recorded.contains(last));
        assert(versions(migrations, recorded, true) =~= migrations.map_values(
            |migration: MigrationView| migration.version,
        ));
    } else {
        assert(versions(migrations, recorded, true) =~= migrations.map_values(
            |migration: MigrationView| migration.version,
        ));
    }
}

} // verus!
