//! The stages of a run and what it reports.
use aws_net_hound::audit::run::{
    boundary_id, boundary_record, evaluate_all, findings_to_outcome, RunStep, Stage,
};
use aws_net_hound::audit::Outcome;
use aws_net_hound::domain::finding::{Reachability, ReachabilityFinding, Severity};
use aws_net_hound::evaluate::path::{EndpointCandidate, PathCandidate, PathEvidence};
use aws_net_hound::evaluate::{Protocol, Traffic};
use aws_net_hound::net::IpAddr;

fn sample_finding(reachability: Reachability) -> ReachabilityFinding {
    ReachabilityFinding {
        computed_at: "2026-08-08T00:00:00Z".to_string(),
        source: "eni-0example".to_string(),
        destination_boundary: "boundary-pci-prod".to_string(),
        path_evidence: PathEvidence { steps: Vec::new() },
        reachability,
        severity: Severity::Low,
    }
}

#[test]
fn findings_to_outcome_no_findings_returns_clean() {
    // Arrange
    let findings: Vec<ReachabilityFinding> = Vec::new();

    // Act
    let outcome = findings_to_outcome(&findings);

    // Assert
    assert_eq!(outcome, Outcome::Clean);
}

#[test]
fn findings_to_outcome_one_reachable_returns_findings_present_with_count() {
    // Arrange
    let findings = vec![sample_finding(Reachability::Reachable)];

    // Act
    let outcome = findings_to_outcome(&findings);

    // Assert
    assert_eq!(
        outcome,
        Outcome::FindingsPresent {
            reachable: 1,
            indeterminate: 0,
        }
    );
}

#[test]
fn findings_to_outcome_only_indeterminate_returns_findings_present() {
    // Arrange
    let findings = vec![sample_finding(Reachability::Indeterminate {
        layers: Vec::new(),
    })];

    // Act
    let outcome = findings_to_outcome(&findings);

    // Assert
    assert_eq!(
        outcome,
        Outcome::FindingsPresent {
            reachable: 0,
            indeterminate: 1,
        }
    );
    assert_ne!(outcome, Outcome::Clean);
}

#[test]
fn outcome_clean_maps_to_exit_code_zero() {
    let outcome = Outcome::Clean;

    let code = outcome.exit_code();

    assert_eq!(code, 0);
}

#[test]
fn outcome_findings_present_maps_to_exit_code_two() {
    let outcome = Outcome::FindingsPresent {
        reachable: 1,
        indeterminate: 0,
    };

    let code = outcome.exit_code();

    assert_eq!(code, 2);
}

#[test]
fn paths_that_are_not_reachable_are_not_counted() {
    let findings = vec![
        sample_finding(Reachability::NotReachable),
        sample_finding(Reachability::Reachable),
        sample_finding(Reachability::Indeterminate { layers: Vec::new() }),
        sample_finding(Reachability::Reachable),
    ];

    assert_eq!(
        findings_to_outcome(&findings),
        Outcome::FindingsPresent {
            reachable: 2,
            indeterminate: 1,
        }
    );
    assert_eq!(findings_to_outcome(&findings[..1]), Outcome::Clean);
}

#[test]
fn stages_follow_one_another() {
    let mut stages = vec![Stage::Preflight];
    while let Some(next) = stages[stages.len() - 1].next() {
        stages.push(next);
    }

    assert_eq!(
        stages,
        vec![
            Stage::Preflight,
            Stage::Identify,
            Stage::Connect,
            Stage::Migrate,
            Stage::Boundary,
            Stage::Ingest,
            Stage::Assemble,
            Stage::Evaluate,
        ]
    );
    let contexts: Vec<&str> = stages.iter().map(|stage| stage.context()).collect();
    assert_eq!(contexts[1], "stage: ingest");
    assert_eq!(contexts[6], "stage: evaluate (candidate assembly)");
}

#[test]
fn run_in_which_every_stage_succeeds_is_completed() {
    let mut step = RunStep::start();
    let mut performed = Vec::new();
    while let RunStep::Perform(stage) = step {
        performed.push(stage);
        step = step.next(Ok(()));
    }

    assert_eq!(performed.len(), 8);
    assert_eq!(performed[0], Stage::Preflight);
    assert_eq!(performed[7], Stage::Evaluate);
    assert!(matches!(step, RunStep::Completed));
    assert!(matches!(step.next(Ok(())), RunStep::Completed));
}

#[test]
fn first_stage_that_fails_ends_the_run() {
    let mut step = RunStep::start();
    for _ in 0..3 {
        step = step.next(Ok(()));
    }
    assert!(matches!(step, RunStep::Perform(Stage::Migrate)));

    step = step.next(Err(anyhow::Error::msg("no constraint")));
    step = step.next(Ok(()));
    step = step.next(Err(anyhow::Error::msg("too late")));

    let RunStep::Stopped {
        stage,
        context,
        error,
    } = step
    else {
        panic!("expected the run to be over, got {step:?}");
    };
    assert_eq!(stage, Stage::Migrate);
    assert_eq!(context, "stage: migrate");
    assert_eq!(error.to_string(), "no constraint");
}

#[test]
fn boundary_is_named_after_its_account() {
    assert_eq!(boundary_id("123456789012"), "boundary-123456789012");

    let record = boundary_record("123456789012");
    assert_eq!(record.id, "boundary-123456789012");
    assert_eq!(record.name, "boundary-123456789012");
    assert_eq!(record.account_id, "123456789012");
    assert_eq!(record.regime, "unspecified");
    assert_eq!(record.description, None);
}

#[test]
fn every_candidate_is_judged() {
    let endpoint = |eni_id: &str| EndpointCandidate {
        eni_id: eni_id.to_string(),
        peer_security_group_ids: Vec::new(),
        security_group_rules: Vec::new(),
        subnet_id: "subnet-1".to_string(),
        nacl_rules: Vec::new(),
    };
    let candidate = |eni_id: &str| PathCandidate {
        source: endpoint(eni_id),
        destination: endpoint("eni-destination"),
        route_exists: true,
        traffic: Traffic {
            protocol: Protocol::All,
            port: None,
            peer_address: IpAddr::V4(0),
        },
        destination_boundary: "boundary-1".to_string(),
    };

    let findings = evaluate_all(&[candidate("eni-a"), candidate("eni-b")])
        .unwrap_or_else(|error| panic!("expected Ok: {error:?}"));

    let sources: Vec<&str> = findings
        .iter()
        .map(|finding| finding.source.as_str())
        .collect();
    assert_eq!(sources, vec!["eni-a", "eni-b"]);
    assert_eq!(findings_to_outcome(&findings), Outcome::Clean);
}
