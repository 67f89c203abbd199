//! What an operator is told of a failed AWS call.
use aws_credential_types::provider::error::CredentialsError;
use aws_net_hound::audit::aws_error::{
    classify, classify_cause, classify_code, iam_action_for, AwsFailure, Class,
    CredentialsFailure, DescribeFailure,
};
use aws_net_hound::error::IngestError;
use aws_net_hound::ingest::collect::drain_pages;
use aws_sdk_sts::operation::get_caller_identity::GetCallerIdentityError;
use aws_smithy_runtime_api::client::orchestrator::HttpResponse;
use aws_smithy_runtime_api::client::result::SdkError;
use aws_smithy_types::body::SdkBody;
use aws_smithy_types::error::ErrorMetadata;

fn empty_response(status: u16) -> HttpResponse {
    let Ok(status) = status.try_into() else {
        panic!("{status} is not a valid HTTP status code");
    };
    HttpResponse::new(status, SdkBody::empty())
}

fn identity_error(code: &str) -> anyhow::Error {
    let sts_error = GetCallerIdentityError::generic(
        ErrorMetadata::builder()
            .code(code)
            .message("not authorized")
            .custom("request_id", "req-1234-secret")
            .build(),
    );
    let sdk_error: SdkError<GetCallerIdentityError, HttpResponse> =
        SdkError::service_error(sts_error, empty_response(403));
    anyhow::Error::new(sdk_error)
}

fn described(operation: &str, code: &str) -> Vec<Option<DescribeFailure>> {
    vec![Some(DescribeFailure {
        operation: operation.to_string(),
        code: Some(code.to_string()),
    })]
}

fn other_error() -> anyhow::Error {
    anyhow::Error::new(std::fmt::Error)
}

#[test]
fn classify_missing_profile_error_returns_profile_not_found() {
    let credentials_error = CredentialsError::not_loaded("no profile named 'staging'");
    let error = anyhow::Error::new(credentials_error);

    let failure = classify("GetCallerIdentity", error, &[], None);

    assert!(matches!(failure, AwsFailure::ProfileNotFound { .. }));
    assert_eq!(
        failure.message(),
        "AWS profile \"default\" not found \u{2014} check ~/.aws/config and ~/.aws/credentials"
    );
}

#[test]
fn profile_that_was_asked_for_is_named() {
    let error = anyhow::Error::new(CredentialsError::invalid_configuration("broken"));

    let failure = classify("GetCallerIdentity", error, &[], Some("stag\"ing"));

    assert_eq!(
        failure.message(),
        "AWS profile \"stag\\\"ing\" not found \u{2014} check ~/.aws/config and ~/.aws/credentials"
    );
}

#[test]
fn classify_expired_token_error_returns_expired_credentials() {
    let sts_error = GetCallerIdentityError::generic(
        ErrorMetadata::builder()
            .code("ExpiredTokenException")
            .message("token expired")
            .build(),
    );
    let sdk_error: SdkError<GetCallerIdentityError, HttpResponse> =
        SdkError::service_error(sts_error, empty_response(400));
    let error = anyhow::Error::new(sdk_error);

    let failure = classify("GetCallerIdentity", error, &[], None);

    assert!(matches!(failure, AwsFailure::ExpiredCredentials { .. }));
    assert_eq!(
        failure.message(),
        "AWS credentials expired \u{2014} refresh your SSO session (e.g. `aws sso login`) and retry"
    );
}

#[test]
fn classify_access_denied_on_describe_security_groups_names_required_iam_action() {
    let described = described("DescribeSecurityGroups", "UnauthorizedOperation");

    let failure = classify("DescribeSecurityGroups", other_error(), &described, None);

    match failure {
        AwsFailure::AccessDenied {
            operation,
            iam_action,
            source,
        } => {
            assert_eq!(operation, "DescribeSecurityGroups");
            assert_eq!(iam_action, "ec2:DescribeSecurityGroups");
            assert!(source.downcast_ref::<std::fmt::Error>().is_some());
        }
        other => panic!("expected AccessDenied, got {other:?}"),
    }
}

#[test]
fn classify_throttling_error_returns_throttled() {
    let described = described("DescribeRouteTables", "RequestLimitExceeded");

    let failure = classify("DescribeRouteTables", other_error(), &described, None);

    assert!(matches!(failure, AwsFailure::Throttled { .. }));
    assert_eq!(
        failure.message(),
        "AWS request throttled after retries were exhausted \u{2014} retry later or reduce concurrency"
    );
}

#[test]
fn classify_unknown_service_error_returns_other_preserving_source() {
    let described = described("DescribeNetworkAcls", "InternalError");

    let failure = classify("DescribeNetworkAcls", other_error(), &described, None);

    assert_eq!(failure.message(), "unclassified AWS ingestion failure");
    let AwsFailure::Other { source } = failure else {
        panic!("expected Other, got a classified variant");
    };
    assert!(source.downcast_ref::<std::fmt::Error>().is_some());
}

#[test]
fn operator_message_does_not_contain_request_id() {
    let failure = classify(
        "GetCallerIdentity",
        identity_error("UnauthorizedOperation"),
        &[],
        None,
    );
    let rendered = failure.message();

    assert!(!rendered.contains("req-1234-secret"));
    assert_eq!(
        rendered,
        "access denied calling GetCallerIdentity \u{2014} the caller's IAM identity needs the \
         sts:GetCallerIdentity permission"
    );
}

#[test]
fn cause_deep_in_the_chain_is_found() {
    let error = identity_error("Throttling")
        .context("stage: ingest")
        .context("run failed");

    let failure = classify("GetCallerIdentity", error, &[], None);

    assert!(matches!(failure, AwsFailure::Throttled { .. }));
}

#[test]
fn describe_failure_of_another_call_does_not_count() {
    let described = described("DescribeRouteTables", "AccessDenied");

    let failure = classify("DescribeNetworkAcls", other_error(), &described, None);

    assert!(matches!(failure, AwsFailure::Other { .. }));
}

#[test]
fn describe_failure_counts_for_the_calls_that_list_the_network_alone() {
    for operation in [
        "DescribeSecurityGroups",
        "DescribeNetworkAcls",
        "DescribeRouteTables",
        "DescribeNetworkInterfaces",
        "DescribeVpcPeeringConnections",
    ] {
        let described = described(operation, "AuthFailure");
        assert!(matches!(
            classify(operation, other_error(), &described, None),
            AwsFailure::AccessDenied { .. }
        ));
    }
    for operation in ["DescribeInstances", "GetCallerIdentity"] {
        let described = described(operation, "AuthFailure");
        assert!(matches!(
            classify(operation, other_error(), &described, None),
            AwsFailure::Other { .. }
        ));
    }
}

#[test]
fn credentials_that_timed_out_are_no_missing_profile() {
    let error = anyhow::Error::new(CredentialsError::provider_timed_out(
        std::time::Duration::from_secs(5),
    ));

    let failure = classify("GetCallerIdentity", error, &[], None);

    assert!(matches!(failure, AwsFailure::Other { .. }));
}

#[test]
fn codes_are_classified_one_by_one() {
    for code in ["ExpiredToken", "RequestExpired", "ExpiredTokenException"] {
        assert_eq!(
            classify_code("GetCallerIdentity", Some(code)),
            Some(Class::ExpiredCredentials)
        );
    }
    for code in [
        "UnauthorizedOperation",
        "AccessDenied",
        "AccessDeniedException",
        "AuthFailure",
    ] {
        assert_eq!(
            classify_code("DescribeRouteTables", Some(code)),
            Some(Class::AccessDenied {
                operation: "DescribeRouteTables",
                iam_action: "ec2:DescribeRouteTables",
            })
        );
    }
    for code in ["RequestLimitExceeded", "Throttling", "ThrottlingException"] {
        assert_eq!(
            classify_code("DescribeRouteTables", Some(code)),
            Some(Class::Throttled)
        );
    }
    assert_eq!(classify_code("DescribeRouteTables", Some("throttling")), None);
    assert_eq!(classify_code("DescribeRouteTables", None), None);
}

#[test]
fn credentials_come_before_codes() {
    let class = classify_cause(
        "GetCallerIdentity",
        Some(CredentialsFailure::NotLoaded),
        Some("Throttling"),
        None,
        Some("audit"),
    );

    assert_eq!(
        class,
        Some(Class::ProfileNotFound {
            profile: "audit".to_string(),
        })
    );
}

#[test]
fn unknown_call_needs_an_unnamed_permission() {
    assert_eq!(
        iam_action_for("DescribeVpcs"),
        "the required EC2 read permission"
    );
    assert_eq!(
        iam_action_for("DescribeVpcPeeringConnections"),
        "ec2:DescribeVpcPeeringConnections"
    );
}

#[test]
fn failure_that_an_ingest_error_holds_is_still_recognized() {
    let pages: Vec<Result<Vec<u32>, anyhow::Error>> =
        vec![Ok(vec![1]), Err(identity_error("ExpiredTokenException"))];

    let Err(IngestError::Describe { operation, source }) =
        drain_pages("DescribeSecurityGroups", pages)
    else {
        panic!("expected the second page to fail the whole");
    };
    let failure = classify(operation, source.context("EC2 call failed"), &[], None);

    assert!(matches!(failure, AwsFailure::ExpiredCredentials { .. }));
}
