//! What an operator is told of a failed AWS call.
//!
//! A failure is classified by the error codes that the SDK hands out, never by
//! the wording of a rendered message, and the sentence for the operator never
//! holds anything of the failure itself: no request, no account, no payload.
use vstd::prelude::*;
use vstd::string::*;

use aws_credential_types::provider::error::CredentialsError;
use aws_sdk_sts::error::ProvideErrorMetadata;
use aws_sdk_sts::operation::get_caller_identity::GetCallerIdentityError;
use aws_smithy_runtime_api::client::orchestrator::HttpResponse;
use aws_smithy_runtime_api::client::result::SdkError;

use crate::text::{quote, same_text};

verus! {

/// How loading credentials failed.
#[derive(Debug, Clone, Copy, PartialEq, Eq, Structural)]
pub enum CredentialsFailure {
    NotLoaded,
    TimedOut,
    InvalidConfiguration,
    Provider,
    Unhandled,
}

/// What is read of one error in a chain of causes.
pub ghost struct CauseView {
    /// How loading credentials failed, where this is such a failure.
    pub credentials: Option<CredentialsFailure>,
    /// The error code, where this is a failure to identify the caller that has
    /// one.
    pub identity_code: Option<Seq<char>>,
}

/// A failure of one of the `Describe*` calls.
#[derive(Debug, Clone, PartialEq, Eq)]
pub struct DescribeFailure {
    /// The call that failed.
    pub operation: String,
    /// Its error code, where it has one.
    pub code: Option<String>,
}

/// What a `DescribeFailure` holds.
pub ghost struct DescribeFailureView {
    pub operation: Seq<char>,
    pub code: Option<Seq<char>>,
}

impl DeepView for DescribeFailure {
    type V = DescribeFailureView;

    open spec fn deep_view(&self) -> DescribeFailureView {
        DescribeFailureView { operation: self.operation@, code: self.code.deep_view() }
    }
}

/// The class that a failure was recognized as.
pub ghost enum ClassView {
    ProfileNotFound { profile: Seq<char> },
    ExpiredCredentials,
    AccessDenied { operation: Seq<char>, iam_action: Seq<char> },
    Throttled,
}

/// A failed AWS call in terms that an operator can act on. Each of them keeps
/// the whole error, for diagnosis alone.
#[derive(Debug)]
#[non_exhaustive]
pub enum AwsFailure {
    /// The configured profile does not exist.
    ProfileNotFound { profile: String, source: anyhow::Error },
    /// Credentials were valid at some point and have expired.
    ExpiredCredentials { source: anyhow::Error },
    /// The caller lacks the permission that the call needs.
    AccessDenied { operation: &'static str, iam_action: &'static str, source: anyhow::Error },
    /// The call was throttled until no retry was left.
    Throttled { source: anyhow::Error },
    /// Any other failure.
    Other { source: anyhow::Error },
}

impl AwsFailure {
    /// The class of this failure, if it has one.
    pub open spec fn class(&self) -> Option<ClassView> {
        match *self {
            AwsFailure::ProfileNotFound { profile, .. } => Some(
                ClassView::ProfileNotFound { profile: profile@ },
            ),
            AwsFailure::ExpiredCredentials { .. } => Some(ClassView::ExpiredCredentials),
            AwsFailure::AccessDenied { operation, iam_action, .. } => Some(
                ClassView::AccessDenied { operation: operation@, iam_action: iam_action@ },
            ),
            AwsFailure::Throttled { .. } => Some(ClassView::Throttled),
            AwsFailure::Other { .. } => None,
        }
    }

    /// The error that this failure keeps.
    pub open spec fn kept(&self) -> anyhow::Error {
        match *self {
            AwsFailure::ProfileNotFound { source, .. } => source,
            AwsFailure::ExpiredCredentials { source } => source,
            AwsFailure::AccessDenied { source, .. } => source,
            AwsFailure::Throttled { source } => source,
            AwsFailure::Other { source } => source,
        }
    }
}

/// What the operator is told of a failure of this class.
pub open spec fn operator_message(class: Option<ClassView>) -> Seq<char> {
    match class {
        Some(ClassView::ProfileNotFound { profile }) => "AWS profile "@
            + crate::text::debug_quoted(profile)
            + " not found — check ~/.aws/config and ~/.aws/credentials"@,
        Some(ClassView::ExpiredCredentials) =>
            "AWS credentials expired — refresh your SSO session (e.g. `aws sso login`) and retry"@,
        Some(ClassView::AccessDenied { operation, iam_action }) => "access denied calling "@
            + operation + " — the caller's IAM identity needs the "@ + iam_action
            + " permission"@,
        Some(ClassView::Throttled) =>
            "AWS request throttled after retries were exhausted — retry later or reduce concurrency"@,
        None => "unclassified AWS ingestion failure"@,
    }
}

impl AwsFailure {
    /// The sentence for the operator. It says nothing of the error kept.
    pub fn message(&self) -> (message: String)
        ensures
            message@ == operator_message(self.class()),
    {
        match self {
            AwsFailure::ProfileNotFound { profile, .. } => {
                let mut message = String::from_str("AWS profile ");
                message.append(quote(profile.as_str()).as_str());
                message.append(" not found — check ~/.aws/config and ~/.aws/credentials");
                message
            },
            AwsFailure::ExpiredCredentials { .. } => String::from_str(
                "AWS credentials expired — refresh your SSO session (e.g. `aws sso login`) and retry",
            ),
            AwsFailure::AccessDenied { operation, iam_action, .. } => {
                let mut message = String::from_str("access denied calling ");
                message.append(operation);
                message.append(" — the caller's IAM identity needs the ");
                message.append(iam_action);
                message.append(" permission");
                message
            },
            AwsFailure::Throttled { .. } => String::from_str(
                "AWS request throttled after retries were exhausted — retry later or reduce concurrency",
            ),
            AwsFailure::Other { .. } => String::from_str("unclassified AWS ingestion failure"),
        }
    }
}

/// The IAM action that a call needs.
pub open spec fn iam_action(operation: Seq<char>) -> Seq<char> {
    if operation == "DescribeSecurityGroups"@ {
        "ec2:DescribeSecurityGroups"@
    } else if operation == "DescribeNetworkAcls"@ {
        "ec2:DescribeNetworkAcls"@
    } else if operation == "DescribeRouteTables"@ {
        "ec2:DescribeRouteTables"@
    } else if operation == "DescribeNetworkInterfaces"@ {
        "ec2:DescribeNetworkInterfaces"@
    } else if operation == "DescribeVpcPeeringConnections"@ {
        "ec2:DescribeVpcPeeringConnections"@
    } else if operation == "GetCallerIdentity"@ {
        "sts:GetCallerIdentity"@
    } else {
        "the required EC2 read permission"@
    }
}

/// The read-only IAM action that a call needs.
pub fn iam_action_for(operation: &'static str) -> (action: &'static str)
    ensures
        action@ == iam_action(operation@),
{
    if same_text(operation, "DescribeSecurityGroups") {
        "ec2:DescribeSecurityGroups"
    } else if same_text(operation, "DescribeNetworkAcls") {
        "ec2:DescribeNetworkAcls"
    } else if same_text(operation, "DescribeRouteTables") {
        "ec2:DescribeRouteTables"
    } else if same_text(operation, "DescribeNetworkInterfaces") {
        "ec2:DescribeNetworkInterfaces"
    } else if same_text(operation, "DescribeVpcPeeringConnections") {
        "ec2:DescribeVpcPeeringConnections"
    } else if same_text(operation, "GetCallerIdentity") {
        "sts:GetCallerIdentity"
    } else {
        "the required EC2 read permission"
    }
}

/// Whether a code says that credentials have expired.
pub open spec fn says_expired(code: Seq<char>) -> bool {
    code == "ExpiredToken"@ || code == "RequestExpired"@ || code == "ExpiredTokenException"@
}

/// Whether a code says that a permission is missing.
pub open spec fn says_denied(code: Seq<char>) -> bool {
    code == "UnauthorizedOperation"@ || code == "AccessDenied"@ || code
        == "AccessDeniedException"@ || code == "AuthFailure"@
}

/// Whether a code says that the call was throttled.
pub open spec fn says_throttled(code: Seq<char>) -> bool {
    code == "RequestLimitExceeded"@ || code == "Throttling"@ || code == "ThrottlingException"@
}

/// The class that an error code gives a failed call.
pub open spec fn code_class(operation: Seq<char>, code: Option<Seq<char>>) -> Option<ClassView> {
    match code {
        None => None,
        Some(code) => if says_expired(code) {
            Some(ClassView::ExpiredCredentials)
        } else if says_denied(code) {
            Some(ClassView::AccessDenied { operation, iam_action: iam_action(operation) })
        } else if says_throttled(code) {
            Some(ClassView::Throttled)
        } else {
            None
        },
    }
}

/// The class that a failure to load credentials gives, where `profile` is the
/// profile that was asked for.
pub open spec fn credentials_class(
    failure: CredentialsFailure,
    profile: Option<Seq<char>>,
) -> Option<ClassView> {
    match failure {
        CredentialsFailure::NotLoaded | CredentialsFailure::InvalidConfiguration => Some(
            ClassView::ProfileNotFound {
                profile: match profile {
                    Some(name) => name,
                    None => "default"@,
                },
            },
        ),
        _ => None,
    }
}

/// Whether `operation` is one of the calls that list an account's network.
pub open spec fn is_describe_call(operation: Seq<char>) -> bool {
    ||| operation == "DescribeSecurityGroups"@
    ||| operation == "DescribeNetworkAcls"@
    ||| operation == "DescribeRouteTables"@
    ||| operation == "DescribeNetworkInterfaces"@
    ||| operation == "DescribeVpcPeeringConnections"@
}

/// The class that a `Describe*` failure gives a failed call. It counts only
/// where it is of the call that failed, and that is one of those that list an
/// account's network.
pub open spec fn described_class(operation: Seq<char>, failure: DescribeFailureView) -> Option<
    ClassView,
> {
    if is_describe_call(operation) && failure.operation == operation {
        code_class(operation, failure.code)
    } else {
        None
    }
}

/// The class that one cause gives a failed call: that of a failure to load
/// credentials, else that of a failure to identify the caller, else that of a
/// `Describe*` failure.
pub open spec fn cause_class(
    operation: Seq<char>,
    cause: CauseView,
    described: Option<DescribeFailureView>,
    profile: Option<Seq<char>>,
) -> Option<ClassView> {
    let by_credentials = match cause.credentials {
        Some(failure) => credentials_class(failure, profile),
        None => None,
    };
    let by_identity = code_class(operation, cause.identity_code);
    if by_credentials is Some {
        by_credentials
    } else if by_identity is Some {
        by_identity
    } else {
        match described {
            Some(failure) => described_class(operation, failure),
            None => None,
        }
    }
}

/// What is known of the `Describe*` failure at a place in a chain.
pub open spec fn described_at(
    described: Seq<Option<DescribeFailureView>>,
    link: int,
) -> Option<DescribeFailureView> {
    if 0 <= link < described.len() {
        described[link]
    } else {
        None
    }
}

/// The class that a chain of causes gives a failed call, from the cause at
/// `link` on: that of the first cause that gives one.
pub open spec fn chain_class(
    operation: Seq<char>,
    chain: Seq<CauseView>,
    described: Seq<Option<DescribeFailureView>>,
    profile: Option<Seq<char>>,
    link: int,
) -> Option<ClassView>
    decreases chain.len() - link,
{
    if link < 0 || link >= chain.len() {
        None
    } else {
        let class = cause_class(operation, chain[link], described_at(described, link), profile);
        if class is Some {
            class
        } else {
            chain_class(operation, chain, described, profile, link + 1)
        }
    }
}

/// The causes that `error` holds, itself first.
pub uninterp spec fn chain_of(error: anyhow::Error) -> Seq<CauseView>;

/// `anyhow::Error::chain`: the number of errors in the chain of causes.
#[verifier::external_body]
fn chain_len(error: &anyhow::Error) -> (len: usize)
    ensures
        len == chain_of(*error).len(),
{
    error.chain().len()
}

/// `anyhow::Error::chain` and `CredentialsError`: how loading credentials
/// failed, where the error at this place in the chain is such a failure.
#[verifier::external_body]
fn credentials_failure_at(error: &anyhow::Error, link: usize) -> (failure: Option<
    CredentialsFailure,
>)
    requires
        link < chain_of(*error).len(),
    ensures
        failure == chain_of(*error)[link as int].credentials,
{
    let cause = error.chain().nth(link)?;
    cause.downcast_ref::<CredentialsError>().map(|error| match error {
        CredentialsError::CredentialsNotLoaded(_) => CredentialsFailure::NotLoaded,
        CredentialsError::ProviderTimedOut(_) => CredentialsFailure::TimedOut,
        CredentialsError::InvalidConfiguration(_) => CredentialsFailure::InvalidConfiguration,
        CredentialsError::ProviderError(_) => CredentialsFailure::Provider,
        _ => CredentialsFailure::Unhandled,
    })
}

/// `anyhow::Error::chain` and `ProvideErrorMetadata::code`: the error code,
/// where the error at this place in the chain is a failure to identify the
/// caller that has one.
#[verifier::external_body]
fn identity_code_at(error: &anyhow::Error, link: usize) -> (code: Option<String>)
    requires
        link < chain_of(*error).len(),
    ensures
        code.deep_view() == chain_of(*error)[link as int].identity_code,
{
    let cause = error.chain().nth(link)?;
    let error = cause.downcast_ref::<SdkError<GetCallerIdentityError, HttpResponse>>()?;
    error.code().map(String::from)
}

/// The class that a failure was recognized as, before the error is attached.
#[derive(Debug, Clone, PartialEq, Eq)]
pub enum Class {
    ProfileNotFound { profile: String },
    ExpiredCredentials,
    AccessDenied { operation: &'static str, iam_action: &'static str },
    Throttled,
}

impl DeepView for Class {
    type V = ClassView;

    open spec fn deep_view(&self) -> ClassView {
        match *self {
            Class::ProfileNotFound { profile } => ClassView::ProfileNotFound { profile: profile@ },
            Class::ExpiredCredentials => ClassView::ExpiredCredentials,
            Class::AccessDenied { operation, iam_action } => ClassView::AccessDenied {
                operation: operation@,
                iam_action: iam_action@,
            },
            Class::Throttled => ClassView::Throttled,
        }
    }
}

impl Class {
    /// The failure of this class that keeps `source`.
    pub fn into_failure(self, source: anyhow::Error) -> (failure: AwsFailure)
        ensures
            failure.class() == Some(self.deep_view()),
            failure.kept() == source,
    {
        match self {
            Class::ProfileNotFound { profile } => AwsFailure::ProfileNotFound { profile, source },
            Class::ExpiredCredentials => AwsFailure::ExpiredCredentials { source },
            Class::AccessDenied { operation, iam_action } => AwsFailure::AccessDenied {
                operation,
                iam_action,
                source,
            },
            Class::Throttled => AwsFailure::Throttled { source },
        }
    }
}

/// Classifies a failed call by its error code.
pub fn classify_code(operation: &'static str, code: Option<&str>) -> (class: Option<Class>)
    ensures
        class.deep_view() == code_class(operation@, code.deep_view()),
{
    match code {
        None => None,
        Some(code) => {
            if same_text(code, "ExpiredToken") || same_text(code, "RequestExpired") || same_text(
                code,
                "ExpiredTokenException",
            ) {
                Some(Class::ExpiredCredentials)
            } else if same_text(code, "UnauthorizedOperation") || same_text(code, "AccessDenied")
                || same_text(code, "AccessDeniedException") || same_text(code, "AuthFailure") {
                Some(Class::AccessDenied { operation, iam_action: iam_action_for(operation) })
            } else if same_text(code, "RequestLimitExceeded") || same_text(code, "Throttling")
                || same_text(code, "ThrottlingException") {
                Some(Class::Throttled)
            } else {
                None
            }
        },
    }
}

/// Classifies a failure to load credentials, where `profile` is the profile
/// that was asked for.
pub fn classify_credentials_error(failure: CredentialsFailure, profile: Option<&str>) -> (class:
    Option<Class>)
    ensures
        class.deep_view() == credentials_class(failure, profile.deep_view()),
{
    match failure {
        CredentialsFailure::NotLoaded | CredentialsFailure::InvalidConfiguration => {
            let name = match profile {
                Some(name) => name,
                None => "default",
            };
            Some(Class::ProfileNotFound { profile: name.to_string() })
        },
        _ => None,
    }
}

/// Whether `operation` is one of the calls that list an account's network.
fn lists_network(operation: &str) -> (lists: bool)
    ensures
        lists == is_describe_call(operation@),
{
    same_text(operation, "DescribeSecurityGroups") || same_text(operation, "DescribeNetworkAcls")
        || same_text(operation, "DescribeRouteTables") || same_text(
        operation,
        "DescribeNetworkInterfaces",
    ) || same_text(operation, "DescribeVpcPeeringConnections")
}

/// Classifies a `Describe*` failure. It counts only where it is of the call
/// that failed, and that is one of those that list an account's network.
pub fn classify_describe_error(operation: &'static str, described: &DescribeFailure) -> (class:
    Option<Class>)
    ensures
        class.deep_view() == described_class(operation@, described.deep_view()),
{
    if !lists_network(operation) || !same_text(described.operation.as_str(), operation) {
        return None;
    }
    match &described.code {
        Some(code) => classify_code(operation, Some(code.as_str())),
        None => None,
    }
}

/// Classifies a failed call by one cause of its failure.
pub fn classify_cause(
    operation: &'static str,
    credentials: Option<CredentialsFailure>,
    identity_code: Option<&str>,
    described: Option<&DescribeFailure>,
    profile: Option<&str>,
) -> (class: Option<Class>)
    ensures
        class.deep_view() == cause_class(
            operation@,
            CauseView { credentials, identity_code: identity_code.deep_view() },
            described.deep_view(),
            profile.deep_view(),
        ),
{
    if let Some(failure) = credentials {
        let class = classify_credentials_error(failure, profile);
        if class.is_some() {
            return class;
        }
    }
    let class = classify_code(operation, identity_code);
    if class.is_some() {
        return class;
    }
    match described {
        Some(failure) => classify_describe_error(operation, failure),
        None => None,
    }
}

/// Classifies the failure of `operation` by the causes of `error`, the first
/// one that gives a class deciding. `described` says which links of the chain
/// are `Describe*` failures, and `profile` is the profile that was asked for.
/// The whole error is kept, whatever the class.
pub fn classify(
    operation: &'static str,
    error: anyhow::Error,
    described: &[Option<DescribeFailure>],
    profile: Option<&str>,
) -> (failure: AwsFailure)
    ensures
        failure.class() == chain_class(
            operation@,
            chain_of(error),
            described.deep_view(),
            profile.deep_view(),
            0,
        ),
        failure.kept() == error,
{
    let ghost chain = chain_of(error);
    let len = chain_len(&error);
    let mut link: usize = 0;
    while link < len
        invariant
            0 <= link <= len,
            len == chain_of(error).len(),
            chain == chain_of(error),
            chain_class(operation@, chain, described.deep_view(), profile.deep_view(), 0)
                == chain_class(
                operation@,
                chain,
                described.deep_view(),
                profile.deep_view(),
                link as int,
            ),
        decreases len - link,
    {
        let credentials = credentials_failure_at(&error, link);
        let identity_code = identity_code_at(&error, link);
        let code: Option<&str> = match &identity_code {
            Some(code) => Some(code.as_str()),
            None => None,
        };
        let here: Option<&DescribeFailure> = if link < described.len() {
            match &described[link] {
                Some(failure) => Some(failure),
                None => None,
            }
        } else {
            None
        };
        proof {
            assert(code.deep_view() == chain[link as int].identity_code);
            assert(here.deep_view() == described_at(described.deep_view(), link as int));
        }
        match classify_cause(operation, credentials, code, here, profile) {
            Some(class) => {
                return class.into_failure(error);
            },
            None => {},
        }
        link = link + 1;
    }
    AwsFailure::Other { source: error }
}

/// What an operator is told is one of five sentences, and the only words in
/// them that vary are the call, the permission it needs and the profile asked
/// for: nothing of the chain of causes reaches the operator.
pub proof fn law_message_holds_nothing_of_the_error(
    operation: Seq<char>,
    chain: Seq<CauseView>,
    described: Seq<Option<DescribeFailureView>>,
    profile: Option<Seq<char>>,
    link: int,
)
    ensures
        ({
            let class = chain_class(operation, chain, described, profile, link);
            ||| class is None
            ||| class == Some(ClassView::ExpiredCredentials)
            ||| class == Some(ClassView::Throttled)
            ||| class == Some(
                ClassView::AccessDenied { operation, iam_action: iam_action(operation) },
            )
            ||| class == credentials_class(CredentialsFailure::NotLoaded, profile)
        }),
    decreases chain.len() - link,
{
    if 0 <= link < chain.len() {
        law_message_holds_nothing_of_the_error(operation, chain, described, profile, link + 1);
    }
}

/// A cause that gives no class, put before a chain, changes nothing.
pub proof fn law_silent_cause_is_passed_over(
    operation: Seq<char>,
    cause: CauseView,
    described: Option<DescribeFailureView>,
    chain: Seq<CauseView>,
    others: Seq<Option<DescribeFailureView>>,
    profile: Option<Seq<char>>,
)
    requires
        cause_class(operation, cause, described, profile) is None,
    ensures
        chain_class(
            operation,
            seq![cause] + chain,
            seq![described] + others,
            profile,
            0,
        ) == chain_class(operation, chain, others, profile, 0),
{
    lemma_chain_shift(operation, cause, described, chain, others, profile, 0);
    assert((seq![cause] + chain)[0] == cause);
    assert((seq![described] + others)[0] == described);
}

proof fn lemma_chain_shift(
    operation: Seq<char>,
    cause: CauseView,
    described: Option<DescribeFailureView>,
    chain: Seq<CauseView>,
    others: Seq<Option<DescribeFailureView>>,
    profile: Option<Seq<char>>,
    link: int,
)
    requires
        0 <= link,
    ensures
        chain_class(operation, seq![cause] + chain, seq![described] + others, profile, link + 1)
            == chain_class(operation, chain, others, profile, link),
    decreases chain.len() - link,
{
    if link < chain.len() {
        lemma_chain_shift(operation, cause, described, chain, others, profile, link + 1);
        assert((seq![cause] + chain)[link + 1] == chain[link]);
        assert(described_at(seq![described] + others, link + 1) == described_at(others, link));
    }
}

} // verus!
