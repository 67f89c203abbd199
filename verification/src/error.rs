//! Error types of the library.
//!
//! Where a failure comes from a driver or an SDK, the error holds that failure
//! whole, so that its causes can still be told apart.
use vstd::prelude::*;
use vstd::string::*;

use crate::text::{push_decimal, push_signed_decimal};

verus! {

/// An error with the errors that caused it, `anyhow::Error`. It is carried
/// along; what the classification of AWS failures reads of it is named there.
#[verifier::external_type_specification]
#[verifier::external_body]
pub struct ExAnyhowError(anyhow::Error);

/// A failure of the database driver, `neo4rs::Error`. It is carried along and
/// nothing is read of it.
#[verifier::external_type_specification]
#[verifier::external_body]
pub struct ExDriverError(neo4rs::Error);

/// A value that the database driver could not deserialize, `neo4rs::DeError`.
/// It is carried along and nothing is read of it.
#[verifier::external_type_specification]
#[verifier::external_body]
pub struct ExDeserializeError(neo4rs::DeError);

/// What a failure comes from.
#[derive(Debug)]
pub enum ErrorSource {
    /// What was found wrong here.
    Message(String),
    /// A failure of a driver or an SDK.
    Error(anyhow::Error),
}

/// Errors of a graph write.
///
/// Reserved for genuine write failures: an unresolved cross-account reference
/// is not an error.
#[derive(Debug)]
#[non_exhaustive]
pub enum GraphWriteError {
    /// The underlying write to the graph failed.
    Write { source: ErrorSource },
}

impl GraphWriteError {
    /// What `message` says of this error.
    pub open spec fn text(self) -> Seq<char> {
        match self {
            GraphWriteError::Write { .. } => {
                "failed to write to the graph"@
            },
        }
    }

    /// The error as a sentence, up to the failure that it holds.
    pub fn message(&self) -> (message: String)
        ensures
            message@ == self.text(),
    {
        match self {
            GraphWriteError::Write { .. } => String::from_str(
                "failed to write to the graph",
            ),
        }
    }
}

/// Errors of resolving a reference.
///
/// An unresolvable cross-account reference is a successful outcome, not one of
/// these.
#[derive(Debug)]
#[non_exhaustive]
pub enum ResolveError {
    /// A transport-level failure occurred while resolving a reference.
    Transport { source: anyhow::Error },
    /// The input was malformed and could not be interpreted as a reference.
    MalformedInput { reason: String },
}

impl ResolveError {
    /// What `message` says of this error.
    pub open spec fn text(self) -> Seq<char> {
        match self {
            ResolveError::Transport { .. } => {
                "transport failure while resolving a reference"@
            },
            ResolveError::MalformedInput { reason } => {
                "malformed input while resolving a reference: "@
                    + reason@
            },
        }
    }

    /// The error as a sentence, up to the failure that it holds.
    pub fn message(&self) -> (message: String)
        ensures
            message@ == self.text(),
    {
        match self {
            ResolveError::Transport { .. } => String::from_str(
                "transport failure while resolving a reference",
            ),
            ResolveError::MalformedInput { reason } => {
                let mut message = String::from_str("malformed input while resolving a reference: ");
                message.append(reason.as_str());
                message
            },
        }
    }
}

/// Errors of evaluating a path.
#[derive(Debug, Clone, PartialEq, Eq)]
#[non_exhaustive]
pub enum EvaluationError {
    /// The path candidate had no hops to evaluate.
    EmptyPath,
    /// A hop within the path candidate was structurally invalid.
    InvalidHop { index: usize, reason: String },
    /// A protocol number that stands for no supported protocol.
    UnsupportedProtocol { value: i32 },
}

impl EvaluationError {
    /// What `message` says of this error.
    pub open spec fn text(self) -> Seq<char> {
        match self {
            EvaluationError::EmptyPath => {
                "path candidate is empty, no hops to evaluate"@
            },
            EvaluationError::InvalidHop { index, reason } => {
                "path candidate has an invalid hop at index "@
                    + crate::text::decimal(index as nat)
                    + ": "@
                    + reason@
            },
            EvaluationError::UnsupportedProtocol { value } => {
                "unsupported protocol number "@
                    + crate::text::signed_decimal(value as int)
            },
        }
    }

    /// The error as a sentence.
    pub fn message(&self) -> (message: String)
        ensures
            message@ == self.text(),
    {
        match self {
            EvaluationError::EmptyPath => String::from_str(
                "path candidate is empty, no hops to evaluate",
            ),
            EvaluationError::InvalidHop { index, reason } => {
                let mut message = String::from_str("path candidate has an invalid hop at index ");
                push_decimal(&mut message, *index as u64);
                message.append(": ");
                message.append(reason.as_str());
                message
            },
            EvaluationError::UnsupportedProtocol { value } => {
                let mut message = String::from_str("unsupported protocol number ");
                push_signed_decimal(&mut message, *value as i64);
                message
            },
        }
    }
}

/// Errors of reading path candidates out of the graph.
#[derive(Debug)]
#[non_exhaustive]
pub enum CandidateAssemblyError {
    /// The graph query failed.
    Query { source: neo4rs::Error },
    /// A returned row could not be deserialized.
    Deserialize { source: neo4rs::DeError },
    /// A returned row held a field of an unexpected shape.
    MalformedRow { field: &'static str },
}

impl CandidateAssemblyError {
    /// What `message` says of this error.
    pub open spec fn text(self) -> Seq<char> {
        match self {
            CandidateAssemblyError::Query { .. } => {
                "failed to query path candidates"@
            },
            CandidateAssemblyError::Deserialize { .. } => {
                "failed to deserialize a path candidate row"@
            },
            CandidateAssemblyError::MalformedRow { field } => {
                "path candidate row has a malformed field: "@
                    + field@
            },
        }
    }

    /// The error as a sentence, up to the failure that it holds.
    pub fn message(&self) -> (message: String)
        ensures
            message@ == self.text(),
    {
        match self {
            CandidateAssemblyError::Query { .. } => String::from_str(
                "failed to query path candidates",
            ),
            CandidateAssemblyError::Deserialize { .. } => String::from_str(
                "failed to deserialize a path candidate row",
            ),
            CandidateAssemblyError::MalformedRow { field } => {
                let mut message = String::from_str("path candidate row has a malformed field: ");
                message.append(field);
                message
            },
        }
    }
}

/// What a `CandidateAssemblyError` holds.
pub ghost enum CandidateAssemblyErrorView {
    Query { source: neo4rs::Error },
    Deserialize { source: neo4rs::DeError },
    MalformedRow { field: Seq<char> },
}

impl DeepView for CandidateAssemblyError {
    type V = CandidateAssemblyErrorView;

    open spec fn deep_view(&self) -> CandidateAssemblyErrorView {
        match self {
            CandidateAssemblyError::Query { source } => CandidateAssemblyErrorView::Query {
                source: *source,
            },
            CandidateAssemblyError::Deserialize { source } => {
                CandidateAssemblyErrorView::Deserialize { source: *source }
            },
            CandidateAssemblyError::MalformedRow { field } => {
                CandidateAssemblyErrorView::MalformedRow { field: field@ }
            },
        }
    }
}

/// Errors of mapping an API answer into domain types.
///
/// Reserved for structurally malformed input. A cross-account security group
/// reference is not malformed: it is mapped as unresolved.
#[derive(Debug, Clone, PartialEq, Eq)]
#[non_exhaustive]
pub enum MappingError {
    /// A field was missing, out of range, or otherwise could not be mapped.
    InvalidField {
        /// The AWS resource the offending field belongs to.
        resource_id: String,
        /// The field's path within the resource, e.g. `"port_range"`.
        field: &'static str,
        /// Why the field could not be mapped.
        reason: String,
    },
}

impl MappingError {
    /// What `message` says of this error.
    pub open spec fn text(self) -> Seq<char> {
        match self {
            MappingError::InvalidField { resource_id, field, reason } => {
                "resource "@
                    + resource_id@
                    + ": field `"@
                    + field@
                    + "` is invalid: "@
                    + reason@
            },
        }
    }

    /// The error as a sentence.
    pub fn message(&self) -> (message: String)
        ensures
            message@ == self.text(),
    {
        match self {
            MappingError::InvalidField { resource_id, field, reason } => {
                let mut message = String::from_str("resource ");
                message.append(resource_id.as_str());
                message.append(": field `");
                message.append(field);
                message.append("` is invalid: ");
                message.append(reason.as_str());
                message
            },
        }
    }
}

/// What a `MappingError` holds.
pub ghost enum MappingErrorView {
    InvalidField { resource_id: Seq<char>, field: Seq<char>, reason: Seq<char> },
}

impl DeepView for MappingError {
    type V = MappingErrorView;

    open spec fn deep_view(&self) -> MappingErrorView {
        match self {
            MappingError::InvalidField { resource_id, field, reason } => {
                MappingErrorView::InvalidField {
                    resource_id: resource_id@,
                    field: field@,
                    reason: reason@,
                }
            },
        }
    }
}

/// Errors of ingestion.
#[derive(Debug)]
#[non_exhaustive]
pub enum IngestError {
    /// No AWS region was available. A region is never guessed or defaulted.
    RegionNotResolved,
    /// A paginated `Describe*` call failed after its retries were exhausted.
    Describe {
        /// The operation, e.g. `"DescribeSecurityGroups"`.
        operation: &'static str,
        source: anyhow::Error,
    },
    /// An answer could not be mapped into domain types.
    Mapping { source: MappingError },
    /// The graph could not be written.
    Write { source: GraphWriteError },
    /// The account that the credentials belong to could not be told.
    AccountIdResolution { source: ErrorSource },
}

impl IngestError {
    /// What `message` says of this error.
    pub open spec fn text(self) -> Seq<char> {
        match self {
            IngestError::RegionNotResolved => {
                "no AWS region resolved: set `IngestConfig::region`, `AWS_REGION`/`AWS_DEFAULT_REGION`, or a profile default region"@
            },
            IngestError::Describe { operation, .. } => {
                "EC2 "@
                    + operation@
                    + " failed"@
            },
            IngestError::Mapping { .. } => {
                "failed to map a describe response into a domain type"@
            },
            IngestError::Write { .. } => {
                "failed to write the collected resources"@
            },
            IngestError::AccountIdResolution { .. } => {
                "failed to resolve the AWS account id"@
            },
        }
    }

    /// The error as a sentence, up to the failure that it holds.
    pub fn message(&self) -> (message: String)
        ensures
            message@ == self.text(),
    {
        match self {
            IngestError::RegionNotResolved => String::from_str(
                "no AWS region resolved: set `IngestConfig::region`, `AWS_REGION`/`AWS_DEFAULT_REGION`, or a profile default region",
            ),
            IngestError::Describe { operation, .. } => {
                let mut message = String::from_str("EC2 ");
                message.append(operation);
                message.append(" failed");
                message
            },
            IngestError::Mapping { .. } => String::from_str(
                "failed to map a describe response into a domain type",
            ),
            IngestError::Write { .. } => String::from_str(
                "failed to write the collected resources",
            ),
            IngestError::AccountIdResolution { .. } => String::from_str(
                "failed to resolve the AWS account id",
            ),
        }
    }
}

/// Errors of running the schema migrations.
#[derive(Debug)]
#[non_exhaustive]
pub enum MigrationError {
    /// A migration's file name has no number before its first underscore.
    MalformedFilename { filename: String },
    /// The constraint that guards the version records could not be created.
    Bootstrap { source: neo4rs::Error },
    /// The query for the recorded versions failed.
    ReadAppliedVersions { source: neo4rs::Error },
    /// A recorded version was no integer.
    ReadAppliedVersionsDeserialize { source: neo4rs::DeError },
    /// A transaction for this version could not be started.
    StartTransaction { version: u32, source: neo4rs::Error },
    /// A statement of this version failed.
    StatementFailed { version: u32, statement_index: usize, source: neo4rs::Error },
    /// The version could not be recorded.
    RecordVersion { version: u32, source: neo4rs::Error },
    /// A transaction for this version could not be committed.
    Commit { version: u32, source: neo4rs::Error },
}

impl MigrationError {
    /// What `message` says of this error.
    pub open spec fn text(self) -> Seq<char> {
        match self {
            MigrationError::MalformedFilename { filename } => {
                "migration file name `"@
                    + filename@
                    + "` does not start with a numeric version prefix"@
            },
            MigrationError::Bootstrap { .. } => {
                "failed to bootstrap the schema_migration_version_unique constraint"@
            },
            MigrationError::ReadAppliedVersions { .. } => {
                "failed to read applied migration versions"@
            },
            MigrationError::ReadAppliedVersionsDeserialize { .. } => {
                "failed to deserialize an applied migration version"@
            },
            MigrationError::StartTransaction { version, .. } => {
                "failed to start a transaction for migration version "@
                    + crate::text::decimal(version as nat)
            },
            MigrationError::StatementFailed { version, statement_index, .. } => {
                "migration version "@
                    + crate::text::decimal(version as nat)
                    + " failed at statement "@
                    + crate::text::decimal(statement_index as nat)
            },
            MigrationError::RecordVersion { version, .. } => {
                "failed to record migration version "@
                    + crate::text::decimal(version as nat)
                    + " as applied"@
            },
            MigrationError::Commit { version, .. } => {
                "failed to commit migration version "@
                    + crate::text::decimal(version as nat)
            },
        }
    }

    /// The error as a sentence, up to the failure that it holds.
    pub fn message(&self) -> (message: String)
        ensures
            message@ == self.text(),
    {
        match self {
            MigrationError::MalformedFilename { filename } => {
                let mut message = String::from_str("migration file name `");
                message.append(filename.as_str());
                message.append("` does not start with a numeric version prefix");
                message
            },
            MigrationError::Bootstrap { .. } => String::from_str(
                "failed to bootstrap the schema_migration_version_unique constraint",
            ),
            MigrationError::ReadAppliedVersions { .. } => String::from_str(
                "failed to read applied migration versions",
            ),
            MigrationError::ReadAppliedVersionsDeserialize { .. } => String::from_str(
                "failed to deserialize an applied migration version",
            ),
            MigrationError::StartTransaction { version, .. } => {
                let mut message = String::from_str("failed to start a transaction for migration version ");
                push_decimal(&mut message, *version as u64);
                message
            },
            MigrationError::StatementFailed { version, statement_index, .. } => {
                let mut message = String::from_str("migration version ");
                push_decimal(&mut message, *version as u64);
                message.append(" failed at statement ");
                push_decimal(&mut message, *statement_index as u64);
                message
            },
            MigrationError::RecordVersion { version, .. } => {
                let mut message = String::from_str("failed to record migration version ");
                push_decimal(&mut message, *version as u64);
                message.append(" as applied");
                message
            },
            MigrationError::Commit { version, .. } => {
                let mut message = String::from_str("failed to commit migration version ");
                push_decimal(&mut message, *version as u64);
                message
            },
        }
    }
}

} // verus!
