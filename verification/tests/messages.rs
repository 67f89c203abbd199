//! The errors as sentences.
use std::time::Duration;

use aws_net_hound::audit::config::ConfigError;
use aws_net_hound::audit::preflight::{PreflightError, ServiceHealth};
use aws_net_hound::error::{
    CandidateAssemblyError, ErrorSource, EvaluationError, GraphWriteError, IngestError,
    MappingError, MigrationError, ResolveError,
};

fn text(value: &str) -> String {
    value.to_string()
}

fn mapping_error() -> MappingError {
    MappingError::InvalidField {
        resource_id: text("sg-1"),
        field: "port_range",
        reason: text("out of range"),
    }
}

#[test]
fn graph_errors_in_words() {
    let write = GraphWriteError::Write {
        source: ErrorSource::Message(text("gone")),
    };
    assert_eq!(write.message(), "failed to write to the graph");
    let transport = ResolveError::Transport {
        source: anyhow::Error::msg("gone"),
    };
    assert_eq!(
        transport.message(),
        "transport failure while resolving a reference"
    );
    let malformed = ResolveError::MalformedInput {
        reason: text("empty"),
    };
    assert_eq!(
        malformed.message(),
        "malformed input while resolving a reference: empty"
    );
}

#[test]
fn evaluation_errors_in_words() {
    assert_eq!(
        EvaluationError::EmptyPath.message(),
        "path candidate is empty, no hops to evaluate"
    );
    let invalid = EvaluationError::InvalidHop {
        index: 12,
        reason: text("no address"),
    };
    assert_eq!(
        invalid.message(),
        "path candidate has an invalid hop at index 12: no address"
    );
    assert_eq!(
        EvaluationError::UnsupportedProtocol { value: -7 }.message(),
        "unsupported protocol number -7"
    );
}

#[test]
fn assembly_errors_in_words() {
    let query = CandidateAssemblyError::Query {
        source: neo4rs::Error::ConnectionError,
    };
    assert_eq!(query.message(), "failed to query path candidates");
    let unreadable = CandidateAssemblyError::Deserialize {
        source: neo4rs::DeError::NoSuchProperty,
    };
    assert_eq!(
        unreadable.message(),
        "failed to deserialize a path candidate row"
    );
    assert_eq!(
        CandidateAssemblyError::MalformedRow { field: "protocol" }.message(),
        "path candidate row has a malformed field: protocol"
    );
}

#[test]
fn ingest_errors_in_words() {
    assert_eq!(
        mapping_error().message(),
        "resource sg-1: field `port_range` is invalid: out of range"
    );
    let messages = [
        IngestError::RegionNotResolved,
        IngestError::Describe {
            operation: "DescribeRouteTables",
            source: anyhow::Error::msg("throttled"),
        },
        IngestError::Mapping {
            source: mapping_error(),
        },
        IngestError::Write {
            source: GraphWriteError::Write {
                source: ErrorSource::Message(text("gone")),
            },
        },
        IngestError::AccountIdResolution {
            source: ErrorSource::Message(text("gone")),
        },
    ]
    .map(|error| error.message());
    assert_eq!(
        messages,
        [
            "no AWS region resolved: set `IngestConfig::region`, \
             `AWS_REGION`/`AWS_DEFAULT_REGION`, or a profile default region",
            "EC2 DescribeRouteTables failed",
            "failed to map a describe response into a domain type",
            "failed to write the collected resources",
            "failed to resolve the AWS account id",
        ]
    );
}

#[test]
fn migration_errors_in_words() {
    let source = || neo4rs::Error::ConnectionError;
    let messages = [
        MigrationError::MalformedFilename {
            filename: text("b.cypher"),
        },
        MigrationError::Bootstrap { source: source() },
        MigrationError::ReadAppliedVersions { source: source() },
        MigrationError::ReadAppliedVersionsDeserialize {
            source: neo4rs::DeError::NoSuchProperty,
        },
        MigrationError::StartTransaction {
            version: 3,
            source: source(),
        },
        MigrationError::StatementFailed {
            version: 3,
            statement_index: 10,
            source: source(),
        },
        MigrationError::RecordVersion {
            version: 3,
            source: source(),
        },
        MigrationError::Commit {
            version: 3,
            source: source(),
        },
    ]
    .map(|error| error.message());
    assert_eq!(
        messages,
        [
            "migration file name `b.cypher` does not start with a numeric version prefix",
            "failed to bootstrap the schema_migration_version_unique constraint",
            "failed to read applied migration versions",
            "failed to deserialize an applied migration version",
            "failed to start a transaction for migration version 3",
            "migration version 3 failed at statement 10",
            "failed to record migration version 3 as applied",
            "failed to commit migration version 3",
        ]
    );
}

#[test]
fn config_errors_in_words() {
    let unreadable = ConfigError::UnreadableFile {
        path: std::path::PathBuf::from("audit.yaml"),
        source: std::io::Error::other("gone"),
    };
    assert_eq!(unreadable.message(), "failed to read config file");
    assert_eq!(
        ConfigError::EmptyBoundary.message(),
        "boundary has no selectors: at least one of vpc_ids, cidrs, or tags must be non-empty"
    );
    let invalid = ConfigError::InvalidRegion {
        region: text("US\"EAST"),
    };
    assert_eq!(
        invalid.message(),
        "invalid region \"US\\\"EAST\": expected a lowercase region string containing '-'"
    );
}

#[test]
fn preflight_errors_in_words() {
    let messages = [
        PreflightError::DockerUnavailable {
            reason: text("no such file"),
        },
        PreflightError::ComposePsFailed {
            stderr: text("boom"),
        },
        PreflightError::UnexpectedOutput {
            line: text("neo4j|?"),
        },
        PreflightError::ServiceAbsent,
        PreflightError::NotHealthy {
            waited: Duration::from_millis(180_250),
            last_state: ServiceHealth::Starting,
        },
    ]
    .map(|error| error.message());
    assert_eq!(
        messages,
        [
            "Docker is not available (no such file). Start Docker Desktop (or the Docker daemon) and retry.",
            "`docker compose ps` failed: boom. If this mentions NEO4J_PASSWORD, set it (see .env.example) and retry.",
            "unrecognized `docker compose ps` output line: \"neo4j|?\"",
            "neo4j service is not up; run `docker compose up -d` in crates/audit-local/ and retry",
            "neo4j did not become healthy within 180.25s (last state: Starting)",
        ]
    );
}
