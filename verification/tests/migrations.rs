//! Ordering, splitting and applying the schema migrations.
use aws_net_hound::error::MigrationError;
use aws_net_hound::migrations::apply::ApplyPhase;
use aws_net_hound::migrations::{
    ordered_migrations, parse_version_prefix, plan_migrations, split_statements, MigrationSummary,
};

#[test]
fn parse_version_prefix_malformed_filename_returns_error() {
    // Arrange
    let filename = "constraints.cypher";

    // Act
    let result = parse_version_prefix(filename);

    // Assert
    assert!(matches!(
        result,
        Err(MigrationError::MalformedFilename { filename }) if filename == "constraints.cypher"
    ));
}

#[test]
fn split_statements_ignores_semicolon_inside_comment_prose() {
    // Arrange
    let source = "// terminated by a semicolon `;` in prose, not code\nCREATE CONSTRAINT a IF NOT EXISTS FOR (n:A) REQUIRE n.id IS UNIQUE;\n";

    // Act
    let statements = split_statements(source);

    // Assert
    assert_eq!(
        statements,
        vec!["CREATE CONSTRAINT a IF NOT EXISTS FOR (n:A) REQUIRE n.id IS UNIQUE"]
    );
}

#[test]
fn split_statements_ignores_comments_and_blank_lines() {
    // Arrange
    let source = "// header comment\n\nCREATE CONSTRAINT a IF NOT EXISTS FOR (n:A) REQUIRE n.id IS UNIQUE;\n\n// another comment\nCREATE CONSTRAINT b IF NOT EXISTS FOR (n:B) REQUIRE n.id IS UNIQUE;\n";

    // Act
    let statements = split_statements(source);

    // Assert
    assert_eq!(statements.len(), 2);
    assert_eq!(
        statements[0],
        "CREATE CONSTRAINT a IF NOT EXISTS FOR (n:A) REQUIRE n.id IS UNIQUE"
    );
    assert_eq!(
        statements[1],
        "CREATE CONSTRAINT b IF NOT EXISTS FOR (n:B) REQUIRE n.id IS UNIQUE"
    );
}

#[test]
fn migration_ordering_sorts_by_numeric_prefix_not_lexicographically() {
    let files: &[(&str, &str)] = &[("0010_later.cypher", "b"), ("0009_earlier.cypher", "a")];

    let parsed = ordered_migrations(files).unwrap_or_else(|e| panic!("expected Ok: {e:?}"));

    assert_eq!(
        parsed.iter().map(|m| m.version).collect::<Vec<_>>(),
        vec![9, 10]
    );
    assert_eq!(parsed[0].filename, "0009_earlier.cypher");
    assert_eq!(parsed[0].content, "a");
}

#[test]
fn prefixes_are_read_as_numbers() {
    assert_eq!(parse_version_prefix("0002_indexes.cypher").ok(), Some(2));
    assert_eq!(
        parse_version_prefix("4294967295_last.cypher").ok(),
        Some(4294967295)
    );
    assert_eq!(parse_version_prefix("+7_signed.cypher").ok(), Some(7));
    assert_eq!(parse_version_prefix("12").ok(), Some(12));
    for filename in ["_none.cypher", "4294967296_much.cypher", "-1_below.cypher", "", "+_sign"] {
        assert!(matches!(
            parse_version_prefix(filename),
            Err(MigrationError::MalformedFilename { filename: reported }) if reported == filename
        ));
    }
}

#[test]
fn first_malformed_name_is_reported() {
    let result = ordered_migrations(&[("1_a", ""), ("b", ""), ("c", "")]);

    assert!(matches!(
        result,
        Err(MigrationError::MalformedFilename { filename }) if filename == "b"
    ));
}

#[test]
fn statements_span_lines_and_lose_outer_space() {
    let source = "  CREATE\r\n  INDEX a ;\n   // done; really\n\u{a0}CREATE INDEX b\u{2003};;\n ; ";

    assert_eq!(
        split_statements(source),
        vec!["CREATE\n  INDEX a", "CREATE INDEX b"]
    );
}

#[test]
fn source_of_comments_alone_has_no_statements() {
    assert_eq!(split_statements("// a\n  // b;\n"), Vec::<String>::new());
    assert_eq!(split_statements(""), Vec::<String>::new());
}

const FILES: &[(&str, &str)] = &[("0002_b.cypher", "B;"), ("0001_a.cypher", "A1;\nA2;")];

#[test]
fn run_migrations_on_clean_database_applies_all_versions() {
    let ordered = ordered_migrations(FILES).unwrap_or_else(|e| panic!("expected Ok: {e:?}"));

    let plan = plan_migrations(&ordered, &[]);

    assert_eq!(plan.summary.applied, vec![1, 2]);
    assert!(plan.summary.skipped.is_empty());
    assert_eq!(plan.pending[0].statements, vec!["A1", "A2"]);
    assert_eq!(plan.pending[1].statements, vec!["B"]);
}

#[test]
fn run_migrations_twice_is_idempotent() {
    let ordered = ordered_migrations(FILES).unwrap_or_else(|e| panic!("expected Ok: {e:?}"));
    let first = plan_migrations(&ordered, &[]);

    let second = plan_migrations(&ordered, &first.summary.applied);

    assert!(second.pending.is_empty());
    assert_eq!(
        second.summary,
        MigrationSummary {
            applied: Vec::new(),
            skipped: vec![1, 2],
        }
    );
}

#[test]
fn run_migrations_records_version_only_after_success() {
    let failing_source = "CREATE CONSTRAINT bogus_ok_unique IF NOT EXISTS FOR (n:Bogus) REQUIRE n.id IS UNIQUE;\nTHIS IS NOT VALID CYPHER;";
    let statements = split_statements(failing_source).len();
    let failed = || Err(neo4rs::Error::UnexpectedMessage("syntax error".to_string()));

    let mut phase = ApplyPhase::Start;
    for outcome in [Ok(()), Ok(()), failed(), Ok(())] {
        assert!(!matches!(phase, ApplyPhase::Record));
        phase = phase.next(999, statements, outcome);
    }

    assert!(matches!(
        phase,
        ApplyPhase::Failed {
            error: MigrationError::StatementFailed {
                version: 999,
                statement_index: 1,
                source: neo4rs::Error::UnexpectedMessage(text),
            },
        } if text == "syntax error"
    ));
}

#[test]
fn version_is_applied_in_two_transactions() {
    let mut phase = ApplyPhase::Start;
    let mut names = vec![format!("{phase:?}")];
    while !matches!(phase, ApplyPhase::Applied) {
        phase = phase.next(1, 2, Ok(()));
        names.push(format!("{phase:?}"));
    }

    assert_eq!(
        names,
        vec![
            "Start",
            "Statement { index: 0 }",
            "Statement { index: 1 }",
            "Commit",
            "StartRecord",
            "Record",
            "CommitRecord",
            "Applied",
        ]
    );
}

#[test]
fn failures_around_the_statements_are_told_apart() {
    let failed = || Err(neo4rs::Error::ConnectionError);

    assert!(matches!(
        ApplyPhase::Start.next(3, 0, failed()),
        ApplyPhase::Failed {
            error: MigrationError::StartTransaction {
                version: 3,
                source: neo4rs::Error::ConnectionError,
            },
        }
    ));
    assert!(matches!(
        ApplyPhase::Commit.next(3, 0, failed()),
        ApplyPhase::Failed {
            error: MigrationError::Commit {
                version: 3,
                source: neo4rs::Error::ConnectionError,
            },
        }
    ));
    let rolled_back = ApplyPhase::Record.next(3, 0, failed());
    assert!(matches!(
        rolled_back,
        ApplyPhase::RollBack {
            error: MigrationError::RecordVersion {
                version: 3,
                source: neo4rs::Error::ConnectionError,
            },
        }
    ));
    assert!(matches!(
        rolled_back.next(3, 0, failed()),
        ApplyPhase::Failed {
            error: MigrationError::RecordVersion { .. }
        }
    ));
}
