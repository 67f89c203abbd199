//! The audit program: the state of its services, its configuration, its stages,
//! its failures and what it reports.
use vstd::prelude::*;

use crate::audit::aws_error::CredentialsFailure;
use crate::audit::preflight::{PollStep, PreflightError, ServiceHealth};
use crate::audit::run::Stage;

verus! {

proof fn lemma_second_piece(first: Seq<char>, second: Seq<char>, sep: char, rest: Seq<char>)
    requires
        !first.contains(sep),
        !second.contains(sep),
    ensures
        ({
            let pieces = crate::text::split(
                first + seq![sep] + second + seq![sep] + rest,
                sep,
            );
            pieces.len() > 2 && pieces[0] == first && pieces[1] == second
        }),
    decreases rest.len(),
{
    let front = first + seq![sep] + second;
    let text = front + seq![sep] + rest;
    if rest.len() == 0 {
        crate::laws::texts::law_split_without_separator(first, sep);
        crate::laws::texts::law_split_adds_a_piece(first, sep, second);
        crate::laws::texts::law_split_adds_a_piece(front, sep, rest);
    } else {
        let shorter = rest.drop_last();
        lemma_second_piece(first, second, sep, shorter);
        assert(text.drop_last() =~= front + seq![sep] + shorter);
        let before = crate::text::split(front + seq![sep] + shorter, sep);
        if text.last() != sep {
            assert(before.drop_last()[0] == before[0]);
            assert(before.drop_last()[1] == before[1]);
        }
    }
}

/// A line of the listing speaks of the service where its first field is
/// `neo4j`. Its second field is then the health, in letters of either case, and
/// any other word there makes no sense.
pub proof fn law_line_of_the_listing(
    service: Seq<char>,
    health: Seq<char>,
    rest: Seq<char>,
)
    requires
        !service.contains('|'),
        !health.contains('|'),
    ensures
        ({
            let line = service + seq!['|'] + health + seq!['|'] + rest;
            let said = crate::audit::preflight::line_health(line);
            let word = crate::text::ascii_lower(health);
            &&& service != "neo4j"@ ==> said is None
            &&& service == "neo4j"@ && word == "healthy"@ ==> said == Some(
                Ok::<ServiceHealth, Seq<char>>(ServiceHealth::Healthy),
            )
            &&& service == "neo4j"@ && word == "starting"@ ==> said == Some(
                Ok::<ServiceHealth, Seq<char>>(ServiceHealth::Starting),
            )
            &&& service == "neo4j"@ && word == "unhealthy"@ ==> said == Some(
                Ok::<ServiceHealth, Seq<char>>(ServiceHealth::Unhealthy),
            )
            &&& service == "neo4j"@ && word != "healthy"@ && word != "starting"@ && word
                != "unhealthy"@ ==> said == Some(Err::<ServiceHealth, Seq<char>>(line))
        }),
{
    lemma_second_piece(service, health, '|', rest);
    reveal_strlit("healthy");
    reveal_strlit("starting");
    reveal_strlit("unhealthy");
    assert("healthy"@.len() == 7);
    assert("starting"@.len() == 8);
    assert("unhealthy"@.len() == 9);
}

/// An empty line says nothing, and a line without a bar makes no sense.
pub proof fn law_line_without_fields(line: Seq<char>)
    requires
        !line.contains('|'),
    ensures
        line.len() == 0 ==> crate::audit::preflight::line_health(line) is None,
        line.len() > 0 ==> crate::audit::preflight::line_health(line) == Some(
            Err::<ServiceHealth, Seq<char>>(line),
        ),
{
    crate::laws::texts::law_split_without_separator(line, '|');
}

/// The first line that says anything of the service is what counts, and where
/// none does the service is absent.
pub proof fn law_first_telling_line_counts(lines: Seq<Seq<char>>, i: int)
    requires
        0 <= i <= lines.len(),
        forall|j: int|
            0 <= j < i ==> crate::audit::preflight::line_health(
                crate::text::trim(#[trigger] lines[j]),
            ) is None,
        i < lines.len() ==> crate::audit::preflight::line_health(
            crate::text::trim(lines[i]),
        ) is Some,
    ensures
        i < lines.len() ==> crate::audit::preflight::listed_health(lines)
            == crate::audit::preflight::line_health(crate::text::trim(lines[i]))->0,
        i == lines.len() ==> crate::audit::preflight::listed_health(lines) == Ok::<
            ServiceHealth,
            Seq<char>,
        >(ServiceHealth::Absent),
    decreases i,
{
    if i > 0 {
        let rest = lines.skip(1);
        assert(crate::audit::preflight::line_health(crate::text::trim(lines[0])) is None);
        assert forall|j: int| 0 <= j < i - 1 implies crate::audit::preflight::line_health(
            crate::text::trim(#[trigger] rest[j]),
        ) is None by {
            assert(rest[j] == lines[j + 1]);
        }
        if i < lines.len() {
            assert(rest[i - 1] == lines[i]);
        }
        law_first_telling_line_counts(rest, i - 1);
    }
}

/// A healthy service is used, an absent one is given up at once, and one that
/// is not ready yet is looked at again every two seconds until three minutes
/// have passed.
pub proof fn law_polling(
    health: ServiceHealth,
    waited: std::time::Duration,
    waited_secs: u64,
)
    ensures
        ({
            let step = crate::audit::preflight::step_after(health, waited, waited_secs);
            &&& health == ServiceHealth::Healthy <==> step == PollStep::Ready
            &&& health == ServiceHealth::Absent ==> step == PollStep::GiveUp(
                PreflightError::ServiceAbsent,
            )
            &&& (health == ServiceHealth::Starting || health == ServiceHealth::Unhealthy)
                && waited_secs < 180 ==> step == PollStep::WaitSecs(2)
            &&& (health == ServiceHealth::Starting || health == ServiceHealth::Unhealthy)
                && waited_secs >= 180 ==> step == PollStep::GiveUp(
                PreflightError::NotHealthy { waited, last_state: health },
            )
        }),
{
}

/// A region has a hyphen in it and no upper-case letter.
pub proof fn law_region_looks(before: Seq<char>, after: Seq<char>, region: Seq<char>, upper: bool)
    ensures
        crate::audit::config::plausible_region(before + seq!['-'] + after, upper) == !upper,
        !region.contains('-') ==> !crate::audit::config::plausible_region(region, upper),
{
    let text = before + seq!['-'] + after;
    assert(text[before.len() as int] == '-');
}

/// A configuration is valid exactly where its boundary selects by something and
/// its region looks like one.
pub proof fn law_valid_configuration(config: crate::audit::config::Config)
    ensures
        crate::audit::config::is_valid(config) <==> {
            &&& config.boundary.vpc_ids@.len() > 0 || config.boundary.cidrs@.len() > 0
                || config.boundary.tags@.len() > 0
            &&& config.region@.contains('-')
            &&& forall|i: int|
                0 <= i < config.region@.len() ==> !crate::audit::config::uppercase(
                    #[trigger] config.region@[i],
                )
        },
{
}

proof fn lemma_codes_differ()
    ensures
        "ExpiredToken"@ != "RequestExpired"@,
        "UnauthorizedOperation"@ != "ExpiredToken"@,
        "UnauthorizedOperation"@ != "RequestExpired"@,
        "UnauthorizedOperation"@ != "ExpiredTokenException"@,
        "AccessDenied"@ != "ExpiredToken"@,
        "AccessDenied"@ != "RequestExpired"@,
        "AccessDenied"@ != "ExpiredTokenException"@,
        "AccessDeniedException"@ != "ExpiredToken"@,
        "AccessDeniedException"@ != "RequestExpired"@,
        "AccessDeniedException"@ != "ExpiredTokenException"@,
        "AuthFailure"@ != "ExpiredToken"@,
        "AuthFailure"@ != "RequestExpired"@,
        "AuthFailure"@ != "ExpiredTokenException"@,
        "RequestLimitExceeded"@ != "ExpiredToken"@,
        "RequestLimitExceeded"@ != "RequestExpired"@,
        "RequestLimitExceeded"@ != "ExpiredTokenException"@,
        "RequestLimitExceeded"@ != "UnauthorizedOperation"@,
        "RequestLimitExceeded"@ != "AccessDenied"@,
        "RequestLimitExceeded"@ != "AccessDeniedException"@,
        "RequestLimitExceeded"@ != "AuthFailure"@,
        "Throttling"@ != "ExpiredToken"@,
        "Throttling"@ != "RequestExpired"@,
        "Throttling"@ != "ExpiredTokenException"@,
        "Throttling"@ != "UnauthorizedOperation"@,
        "Throttling"@ != "AccessDenied"@,
        "Throttling"@ != "AccessDeniedException"@,
        "Throttling"@ != "AuthFailure"@,
        "ThrottlingException"@ != "ExpiredToken"@,
        "ThrottlingException"@ != "RequestExpired"@,
        "ThrottlingException"@ != "ExpiredTokenException"@,
        "ThrottlingException"@ != "UnauthorizedOperation"@,
        "ThrottlingException"@ != "AccessDenied"@,
        "ThrottlingException"@ != "AccessDeniedException"@,
        "ThrottlingException"@ != "AuthFailure"@,
{
    reveal_strlit("ExpiredToken");
    reveal_strlit("RequestExpired");
    reveal_strlit("ExpiredTokenException");
    reveal_strlit("UnauthorizedOperation");
    reveal_strlit("AccessDenied");
    reveal_strlit("AccessDeniedException");
    reveal_strlit("AuthFailure");
    reveal_strlit("RequestLimitExceeded");
    reveal_strlit("Throttling");
    reveal_strlit("ThrottlingException");
    assert("ExpiredToken"@[0] == 'E');
    assert("ExpiredTokenException"@[0] == 'E');
    assert("RequestExpired"@[0] == 'R');
    assert("RequestExpired"@.len() == 14);
    assert("RequestLimitExceeded"@[0] == 'R');
    assert("RequestLimitExceeded"@.len() == 20);
    assert("UnauthorizedOperation"@[0] == 'U');
    assert("AccessDenied"@[0] == 'A');
    assert("AccessDeniedException"@[0] == 'A');
    assert("AuthFailure"@[0] == 'A');
    assert("Throttling"@[0] == 'T');
    assert("ThrottlingException"@[0] == 'T');
}

/// What an error code says: three say that credentials have expired, four that
/// a permission is missing, three that the call was throttled, and any other
/// says nothing.
pub proof fn law_error_codes(operation: Seq<char>, code: Seq<char>)
    ensures
        ({
            let class = crate::audit::aws_error::code_class(operation, Some(code));
            let expired = code == "ExpiredToken"@ || code == "RequestExpired"@ || code
                == "ExpiredTokenException"@;
            let denied = code == "UnauthorizedOperation"@ || code == "AccessDenied"@ || code
                == "AccessDeniedException"@ || code == "AuthFailure"@;
            let throttled = code == "RequestLimitExceeded"@ || code == "Throttling"@ || code
                == "ThrottlingException"@;
            &&& expired <==> class == Some(
                crate::audit::aws_error::ClassView::ExpiredCredentials,
            )
            &&& denied <==> (class matches Some(
                crate::audit::aws_error::ClassView::AccessDenied { .. },
            ))
            &&& denied ==> class->0->operation == operation && class->0->iam_action
                == crate::audit::aws_error::iam_action(operation)
            &&& throttled <==> class == Some(crate::audit::aws_error::ClassView::Throttled)
            &&& class is None <==> !expired && !denied && !throttled
        }),
        crate::audit::aws_error::code_class(operation, None) is None,
{
    lemma_codes_differ();
}

/// Each call that lists an account's network needs the EC2 permission of its
/// own name, and asking who the caller is needs the STS permission of its name.
pub proof fn law_permission_has_the_name_of_its_call(operation: Seq<char>)
    ensures
        crate::audit::aws_error::is_describe_call(operation)
            ==> crate::audit::aws_error::iam_action(operation) == "ec2:"@ + operation,
        operation == "GetCallerIdentity"@ ==> crate::audit::aws_error::iam_action(operation)
            == "sts:"@ + operation,
{
    reveal_strlit("ec2:");
    reveal_strlit("sts:");
    reveal_strlit("GetCallerIdentity");
    reveal_strlit("sts:GetCallerIdentity");
    if operation == "GetCallerIdentity"@ {
        lemma_identity_call_is_no_describe_call();
        assert("sts:"@ + operation =~= "sts:GetCallerIdentity"@);
    }
    if operation == "DescribeSecurityGroups"@ {
        reveal_strlit("DescribeSecurityGroups");
        reveal_strlit("ec2:DescribeSecurityGroups");
        assert("ec2:"@ + operation =~= "ec2:DescribeSecurityGroups"@);
    } else if operation == "DescribeNetworkAcls"@ {
        reveal_strlit("DescribeNetworkAcls");
        reveal_strlit("ec2:DescribeNetworkAcls");
        assert("ec2:"@ + operation =~= "ec2:DescribeNetworkAcls"@);
    } else if operation == "DescribeRouteTables"@ {
        reveal_strlit("DescribeRouteTables");
        reveal_strlit("ec2:DescribeRouteTables");
        assert("ec2:"@ + operation =~= "ec2:DescribeRouteTables"@);
    } else if operation == "DescribeNetworkInterfaces"@ {
        reveal_strlit("DescribeNetworkInterfaces");
        reveal_strlit("ec2:DescribeNetworkInterfaces");
        assert("ec2:"@ + operation =~= "ec2:DescribeNetworkInterfaces"@);
    } else if operation == "DescribeVpcPeeringConnections"@ {
        reveal_strlit("DescribeVpcPeeringConnections");
        reveal_strlit("ec2:DescribeVpcPeeringConnections");
        assert("ec2:"@ + operation =~= "ec2:DescribeVpcPeeringConnections"@);
    }
}

proof fn lemma_identity_call_is_no_describe_call()
    ensures
        !crate::audit::aws_error::is_describe_call("GetCallerIdentity"@),
{
    reveal_strlit("GetCallerIdentity");
    reveal_strlit("DescribeSecurityGroups");
    reveal_strlit("DescribeNetworkAcls");
    reveal_strlit("DescribeRouteTables");
    reveal_strlit("DescribeNetworkInterfaces");
    reveal_strlit("DescribeVpcPeeringConnections");
    assert("GetCallerIdentity"@[0] == 'G');
    assert("DescribeSecurityGroups"@[0] == 'D');
    assert("DescribeNetworkAcls"@[0] == 'D');
    assert("DescribeRouteTables"@[0] == 'D');
    assert("DescribeNetworkInterfaces"@[0] == 'D');
    assert("DescribeVpcPeeringConnections"@[0] == 'D');
}

/// Five calls list an account's network.
pub proof fn law_listing_calls(operation: Seq<char>)
    ensures
        crate::audit::aws_error::is_describe_call(operation) <==> operation
            == "DescribeSecurityGroups"@ || operation == "DescribeNetworkAcls"@ || operation
            == "DescribeRouteTables"@ || operation == "DescribeNetworkInterfaces"@ || operation
            == "DescribeVpcPeeringConnections"@,
{
}

/// Credentials that could not be loaded, or are configured wrongly, mean that
/// the profile does not exist, which is the default one where none was asked
/// for. No other failure to load them means that.
pub proof fn law_credentials(failure: CredentialsFailure, profile: Option<Seq<char>>)
    ensures
        ({
            let class = crate::audit::aws_error::credentials_class(failure, profile);
            &&& (failure == CredentialsFailure::NotLoaded || failure
                == CredentialsFailure::InvalidConfiguration) ==> class == Some(
                crate::audit::aws_error::ClassView::ProfileNotFound {
                    profile: if profile is Some {
                        profile->0
                    } else {
                        "default"@
                    },
                },
            )
            &&& failure != CredentialsFailure::NotLoaded && failure
                != CredentialsFailure::InvalidConfiguration ==> class is None
        }),
{
}

/// A failed listing counts only where it is of the very call that failed.
pub proof fn law_failed_listing_must_be_of_the_call(
    operation: Seq<char>,
    failure: crate::audit::aws_error::DescribeFailureView,
)
    ensures
        failure.operation != operation ==> crate::audit::aws_error::described_class(
            operation,
            failure,
        ) is None,
        failure.operation == operation && crate::audit::aws_error::is_describe_call(operation)
            ==> crate::audit::aws_error::described_class(operation, failure)
            == crate::audit::aws_error::code_class(operation, failure.code),
        crate::audit::aws_error::described_class("GetCallerIdentity"@, failure) is None,
{
    lemma_identity_call_is_no_describe_call();
}

/// Of one cause, a failure to load credentials counts before a failure to
/// identify the caller, and that before a failed listing.
pub proof fn law_order_within_a_cause(
    operation: Seq<char>,
    cause: crate::audit::aws_error::CauseView,
    described: Option<crate::audit::aws_error::DescribeFailureView>,
    profile: Option<Seq<char>>,
)
    ensures
        ({
            let class = crate::audit::aws_error::cause_class(
                operation,
                cause,
                described,
                profile,
            );
            let by_credentials = cause.credentials is Some
                && crate::audit::aws_error::credentials_class(
                cause.credentials->0,
                profile,
            ) is Some;
            let by_identity = crate::audit::aws_error::code_class(
                operation,
                cause.identity_code,
            ) is Some;
            &&& by_credentials ==> class == crate::audit::aws_error::credentials_class(
                cause.credentials->0,
                profile,
            )
            &&& !by_credentials && by_identity ==> class == crate::audit::aws_error::code_class(
                operation,
                cause.identity_code,
            )
            &&& !by_credentials && !by_identity && described is Some ==> class
                == crate::audit::aws_error::described_class(operation, described->0)
            &&& !by_credentials && !by_identity && described is None ==> class is None
        }),
{
}

/// The first cause that gives a class gives it to the whole chain, and a chain
/// of which no cause gives one has none.
pub proof fn law_first_telling_cause_counts(
    operation: Seq<char>,
    chain: Seq<crate::audit::aws_error::CauseView>,
    described: Seq<Option<crate::audit::aws_error::DescribeFailureView>>,
    profile: Option<Seq<char>>,
    link: int,
    i: int,
)
    requires
        0 <= link <= i <= chain.len(),
        forall|j: int|
            #![trigger chain[j]]
            link <= j < i ==> crate::audit::aws_error::cause_class(
                operation,
                chain[j],
                crate::audit::aws_error::described_at(described, j),
                profile,
            ) is None,
        i < chain.len() ==> crate::audit::aws_error::cause_class(
            operation,
            chain[i],
            crate::audit::aws_error::described_at(described, i),
            profile,
        ) is Some,
    ensures
        ({
            let class = crate::audit::aws_error::chain_class(
                operation,
                chain,
                described,
                profile,
                link,
            );
            &&& i < chain.len() ==> class == crate::audit::aws_error::cause_class(
                operation,
                chain[i],
                crate::audit::aws_error::described_at(described, i),
                profile,
            )
            &&& i == chain.len() ==> class is None
        }),
    decreases i - link,
{
    if link < i {
        assert(crate::audit::aws_error::cause_class(
            operation,
            chain[link],
            crate::audit::aws_error::described_at(described, link),
            profile,
        ) is None);
        law_first_telling_cause_counts(operation, chain, described, profile, link + 1, i);
    }
}

/// A run goes through its stages in this order: the preflight check, finding
/// out the account, connecting, migrating, recording the boundary, ingesting,
/// assembling the candidates, judging them.
pub proof fn law_order_of_the_stages(outcomes: Seq<Result<(), anyhow::Error>>)
    requires
        outcomes.len() <= 8,
        forall|i: int| 0 <= i < outcomes.len() ==> (#[trigger] outcomes[i]) is Ok,
    ensures
        ({
            let step = crate::audit::run::step_reached(outcomes);
            let n = outcomes.len();
            &&& n == 0 ==> step == crate::audit::run::RunStepView::Perform(Stage::Preflight)
            &&& n == 1 ==> step == crate::audit::run::RunStepView::Perform(Stage::Identify)
            &&& n == 2 ==> step == crate::audit::run::RunStepView::Perform(Stage::Connect)
            &&& n == 3 ==> step == crate::audit::run::RunStepView::Perform(Stage::Migrate)
            &&& n == 4 ==> step == crate::audit::run::RunStepView::Perform(Stage::Boundary)
            &&& n == 5 ==> step == crate::audit::run::RunStepView::Perform(Stage::Ingest)
            &&& n == 6 ==> step == crate::audit::run::RunStepView::Perform(Stage::Assemble)
            &&& n == 7 ==> step == crate::audit::run::RunStepView::Perform(Stage::Evaluate)
            &&& n == 8 ==> step is Completed
        }),
    decreases outcomes.len(),
{
    if outcomes.len() > 0 {
        let front = outcomes.drop_last();
        assert forall|i: int| 0 <= i < front.len() implies (#[trigger] front[i]) is Ok by {
            assert(front[i] == outcomes[i]);
        }
        law_order_of_the_stages(front);
        assert(outcomes[outcomes.len() - 1] == outcomes.last());
    }
}

/// A failed stage ends the run and is named, with its own error and the words
/// that introduce it.
pub proof fn law_failed_stage_is_named(stage: Stage, error: anyhow::Error)
    ensures
        crate::audit::run::step_after(
            crate::audit::run::RunStepView::Perform(stage),
            Err(error),
        ) == (crate::audit::run::RunStepView::Stopped {
            stage,
            context: match stage {
                Stage::Preflight => "stage: preflight"@,
                Stage::Identify => "stage: ingest"@,
                Stage::Connect => "stage: connect"@,
                Stage::Migrate => "stage: migrate"@,
                Stage::Boundary => "stage: boundary"@,
                Stage::Ingest => "stage: ingest"@,
                Stage::Assemble => "stage: evaluate (candidate assembly)"@,
                Stage::Evaluate => "stage: evaluate"@,
            },
            error,
        }),
{
}

/// The reachable findings are those that are reachable, and the indeterminate
/// ones those that are indeterminate, each counted once.
pub proof fn law_findings_are_counted(
    findings: Seq<crate::domain::finding::ReachabilityFindingView>,
)
    ensures
        crate::audit::run::reachable_count(findings) == findings.filter(
            |finding: crate::domain::finding::ReachabilityFindingView|
                finding.reachability is Reachable,
        ).len(),
        crate::audit::run::indeterminate_count(findings) == findings.filter(
            |finding: crate::domain::finding::ReachabilityFindingView|
                finding.reachability is Indeterminate,
        ).len(),
    decreases findings.len(),
{
    reveal(Seq::filter);
    if findings.len() > 0 {
        law_findings_are_counted(findings.drop_last());
    }
}

/// The boundary of an account is named after it, and two accounts never share
/// one.
pub proof fn law_boundary_is_named_after_its_account(a: Seq<char>, b: Seq<char>)
    ensures
        crate::audit::run::boundary_id_text(a) == "boundary-"@ + a,
        crate::audit::run::boundary_id_text(a) == crate::audit::run::boundary_id_text(b) ==> a == b,
{
    let x = crate::audit::run::boundary_id_text(a);
    let y = crate::audit::run::boundary_id_text(b);
    if x == y {
        let n = "boundary-"@.len() as int;
        assert(x.skip(n) =~= a);
        assert(y.skip(n) =~= b);
    }
}

/// Steps are done one after the other: after so many successes the next one is
/// the one with that index, and after as many as there are steps all is done.
pub proof fn law_steps_are_done_in_turn<E>(count: usize, outcomes: Seq<Result<(), E>>)
    requires
        outcomes.len() <= count,
        forall|i: int| 0 <= i < outcomes.len() ==> (#[trigger] outcomes[i]) is Ok,
    ensures
        outcomes.len() < count ==> crate::progress::progress_reached(count, outcomes)
            == (crate::progress::Progress::<E>::At { index: outcomes.len() as usize }),
        outcomes.len() == count ==> crate::progress::progress_reached(count, outcomes)
            == crate::progress::Progress::<E>::Done,
    decreases outcomes.len(),
{
    if outcomes.len() > 0 {
        let front = outcomes.drop_last();
        assert forall|i: int| 0 <= i < front.len() implies (#[trigger] front[i]) is Ok by {
            assert(front[i] == outcomes[i]);
        }
        law_steps_are_done_in_turn(count, front);
        assert(outcomes[outcomes.len() - 1] == outcomes.last());
    }
}

/// The region worked in is the first that is named, in the order in which the
/// sources are asked, and none where none names one.
pub proof fn law_region_precedence(
    explicit: Option<Seq<char>>,
    aws_region: Option<Seq<char>>,
    aws_default_region: Option<Seq<char>>,
    profile: Option<Seq<char>>,
)
    ensures
        ({
            let names = |source: Option<Seq<char>>| source is Some && source->0.len() > 0;
            let region = crate::ingest::aws_client::first_region(
                seq![explicit, aws_region, aws_default_region, profile],
            );
            &&& names(explicit) ==> region == explicit
            &&& !names(explicit) && names(aws_region) ==> region == aws_region
            &&& !names(explicit) && !names(aws_region) && names(aws_default_region) ==> region
                == aws_default_region
            &&& !names(explicit) && !names(aws_region) && !names(aws_default_region) && names(
                profile,
            ) ==> region == profile
            &&& !names(explicit) && !names(aws_region) && !names(aws_default_region) && !names(
                profile,
            ) ==> region is None
        }),
{
    let all = seq![explicit, aws_region, aws_default_region, profile];
    reveal_with_fuel(crate::ingest::aws_client::first_region, 6);
    assert(all.skip(1) =~= seq![aws_region, aws_default_region, profile]);
    assert(all.skip(1).skip(1) =~= seq![aws_default_region, profile]);
    assert(all.skip(1).skip(1).skip(1) =~= seq![profile]);
    assert(all.skip(1).skip(1).skip(1).skip(1) =~= Seq::empty());
}

} // verus!
