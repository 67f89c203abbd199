//! Judging a path over its four layers.
use aws_net_hound::domain::finding::{Reachability, Severity};
use aws_net_hound::domain::rule::{Action, Direction, NaclRule, PortRange, RuleTarget, SgRule};
use aws_net_hound::evaluate::engine::{combine_verdicts, RuleIntersectionEvaluator};
use aws_net_hound::evaluate::path::{EndpointCandidate, EvaluationLayer, EvaluationStep, PathCandidate};
use aws_net_hound::evaluate::{DenyReason, IndeterminateReason, Protocol, RuleRef, Traffic, Verdict};
use aws_net_hound::net::IpAddr;

fn sample_traffic() -> Traffic {
    Traffic {
        protocol: Protocol::Tcp,
        port: Some(443),
        peer_address: IpAddr::V4(u32::from_be_bytes([203, 0, 113, 10])),
    }
}

fn allow_all_sg_rule(direction: Direction) -> SgRule {
    SgRule {
        direction,
        protocol: "tcp".to_string(),
        port_range: PortRange::new(443, 443).ok(),
        target: RuleTarget::Cidr {
            cidr: "0.0.0.0/0".to_string(),
        },
        resolved: true,
    }
}

fn deny_all_sg_ref_rule(direction: Direction, security_group_id: &str) -> SgRule {
    SgRule {
        direction,
        protocol: "tcp".to_string(),
        port_range: PortRange::new(443, 443).ok(),
        target: RuleTarget::SecurityGroupRef {
            security_group_id: security_group_id.to_string(),
        },
        resolved: false,
    }
}

fn allow_all_nacl_rule(rule_number: u16, direction: Direction) -> NaclRule {
    NaclRule {
        rule_number,
        direction,
        protocol: "tcp".to_string(),
        port_range: PortRange::new(443, 443).ok(),
        cidr: "0.0.0.0/0".to_string(),
        action: Action::Allow,
    }
}

fn deny_all_nacl_rule(rule_number: u16, direction: Direction) -> NaclRule {
    NaclRule {
        rule_number,
        direction,
        protocol: "tcp".to_string(),
        port_range: PortRange::new(443, 443).ok(),
        cidr: "0.0.0.0/0".to_string(),
        action: Action::Deny,
    }
}

fn allowing_endpoint(eni_id: &str, subnet_id: &str) -> EndpointCandidate {
    EndpointCandidate {
        eni_id: eni_id.to_string(),
        peer_security_group_ids: Vec::new(),
        security_group_rules: vec![
            allow_all_sg_rule(Direction::Egress),
            allow_all_sg_rule(Direction::Ingress),
        ],
        subnet_id: subnet_id.to_string(),
        nacl_rules: vec![
            allow_all_nacl_rule(100, Direction::Egress),
            allow_all_nacl_rule(100, Direction::Ingress),
        ],
    }
}

fn allowing_candidate() -> PathCandidate {
    PathCandidate {
        source: allowing_endpoint("eni-source", "subnet-source"),
        destination: allowing_endpoint("eni-destination", "subnet-destination"),
        route_exists: true,
        traffic: sample_traffic(),
        destination_boundary: "boundary-pci-prod".to_string(),
    }
}

fn step(layer: EvaluationLayer, verdict: Verdict) -> EvaluationStep {
    EvaluationStep {
        layer,
        resource_id: "resource-0example".to_string(),
        verdict,
    }
}

fn allowed_step(layer: EvaluationLayer) -> EvaluationStep {
    step(
        layer,
        Verdict::Allowed {
            matched_by: RuleRef::NetworkAcl {
                network_acl_id: "acl-0example".to_string(),
                rule_number: 100,
            },
        },
    )
}

fn denied_step(layer: EvaluationLayer) -> EvaluationStep {
    step(
        layer,
        Verdict::Denied {
            reason: DenyReason::NoMatchingRule,
        },
    )
}

fn indeterminate_step(layer: EvaluationLayer) -> EvaluationStep {
    step(
        layer,
        Verdict::Indeterminate {
            reason: IndeterminateReason::UnresolvedReference {
                security_group_id: "sg-cross-account".to_string(),
            },
        },
    )
}

#[test]
fn combine_verdicts_all_allowed_returns_reachable() {
    // Arrange
    let steps = vec![
        allowed_step(EvaluationLayer::SgEgress),
        allowed_step(EvaluationLayer::NaclEgress),
        allowed_step(EvaluationLayer::NaclIngress),
        allowed_step(EvaluationLayer::SgIngress),
    ];

    // Act
    let reachability = combine_verdicts(&steps);

    // Assert
    assert_eq!(reachability, Reachability::Reachable);
}

#[test]
fn combine_verdicts_single_deny_returns_not_reachable() {
    // Arrange
    let steps = vec![
        allowed_step(EvaluationLayer::SgEgress),
        denied_step(EvaluationLayer::NaclEgress),
    ];

    // Act
    let reachability = combine_verdicts(&steps);

    // Assert
    assert_eq!(reachability, Reachability::NotReachable);
}

#[test]
fn combine_verdicts_indeterminate_without_deny_returns_indeterminate() {
    // Arrange
    let steps = vec![
        indeterminate_step(EvaluationLayer::SgEgress),
        allowed_step(EvaluationLayer::NaclEgress),
    ];

    // Act
    let reachability = combine_verdicts(&steps);

    // Assert
    assert_eq!(
        reachability,
        Reachability::Indeterminate {
            layers: vec![EvaluationLayer::SgEgress]
        }
    );
}

#[test]
fn combine_verdicts_deny_and_indeterminate_returns_not_reachable() {
    // Arrange: precedence pinned — Denied beats Indeterminate even
    // when the indeterminate layer was consulted first.
    let steps = vec![
        indeterminate_step(EvaluationLayer::SgEgress),
        denied_step(EvaluationLayer::NaclEgress),
    ];

    // Act
    let reachability = combine_verdicts(&steps);

    // Assert
    assert_eq!(reachability, Reachability::NotReachable);
}

#[test]
fn combine_verdicts_indeterminate_records_which_layer_was_unresolved() {
    // Arrange
    let steps = vec![
        allowed_step(EvaluationLayer::SgEgress),
        indeterminate_step(EvaluationLayer::NaclEgress),
        indeterminate_step(EvaluationLayer::NaclIngress),
    ];

    // Act
    let reachability = combine_verdicts(&steps);

    // Assert
    assert_eq!(
        reachability,
        Reachability::Indeterminate {
            layers: vec![EvaluationLayer::NaclEgress, EvaluationLayer::NaclIngress],
        }
    );
}

#[test]
fn rule_intersection_evaluator_route_not_exists_short_circuits() {
    // Arrange
    let mut candidate = allowing_candidate();
    candidate.route_exists = false;
    let evaluator = RuleIntersectionEvaluator;

    // Act
    let finding = evaluator
        .evaluate(&candidate)
        .unwrap_or_else(|error| panic!("structurally valid candidate must not error: {error:?}"));

    // Assert
    assert_eq!(finding.reachability, Reachability::NotReachable);
    assert!(finding.path_evidence.steps.is_empty());
}

#[test]
fn rule_intersection_evaluator_all_layers_allow_returns_reachable_finding() {
    // Arrange
    let candidate = allowing_candidate();
    let evaluator = RuleIntersectionEvaluator;

    // Act
    let finding = evaluator
        .evaluate(&candidate)
        .unwrap_or_else(|error| panic!("structurally valid candidate must not error: {error:?}"));

    // Assert
    assert_eq!(finding.reachability, Reachability::Reachable);
    assert_eq!(finding.severity, Severity::High);
    assert_eq!(finding.source, "eni-source");
    assert_eq!(finding.destination_boundary, "boundary-pci-prod");
    let layers: Vec<EvaluationLayer> = finding
        .path_evidence
        .steps
        .iter()
        .map(|step| step.layer)
        .collect();
    assert_eq!(
        layers,
        vec![
            EvaluationLayer::SgEgress,
            EvaluationLayer::NaclEgress,
            EvaluationLayer::NaclIngress,
            EvaluationLayer::SgIngress,
        ]
    );
}

#[test]
fn rule_intersection_evaluator_sg_egress_deny_short_circuits_evidence() {
    // Arrange
    let mut candidate = allowing_candidate();
    candidate.source.security_group_rules = vec![]; // empty egress -> denied
    let evaluator = RuleIntersectionEvaluator;

    // Act
    let finding = evaluator
        .evaluate(&candidate)
        .unwrap_or_else(|error| panic!("structurally valid candidate must not error: {error:?}"));

    // Assert
    assert_eq!(finding.reachability, Reachability::NotReachable);
    let layers: Vec<EvaluationLayer> = finding
        .path_evidence
        .steps
        .iter()
        .map(|step| step.layer)
        .collect();
    assert_eq!(layers, vec![EvaluationLayer::SgEgress]);
}

#[test]
fn rule_intersection_evaluator_nacl_egress_deny_short_circuits_before_nacl_ingress() {
    // Arrange
    let mut candidate = allowing_candidate();
    candidate.source.nacl_rules = vec![deny_all_nacl_rule(100, Direction::Egress)];
    let evaluator = RuleIntersectionEvaluator;

    // Act
    let finding = evaluator
        .evaluate(&candidate)
        .unwrap_or_else(|error| panic!("structurally valid candidate must not error: {error:?}"));

    // Assert
    let layers: Vec<EvaluationLayer> = finding
        .path_evidence
        .steps
        .iter()
        .map(|step| step.layer)
        .collect();
    assert_eq!(
        layers,
        vec![EvaluationLayer::SgEgress, EvaluationLayer::NaclEgress]
    );
}

#[test]
fn rule_intersection_evaluator_nacl_ingress_deny_short_circuits_before_sg_ingress() {
    // Arrange
    let mut candidate = allowing_candidate();
    candidate.destination.nacl_rules = vec![deny_all_nacl_rule(100, Direction::Ingress)];
    let evaluator = RuleIntersectionEvaluator;

    // Act
    let finding = evaluator
        .evaluate(&candidate)
        .unwrap_or_else(|error| panic!("structurally valid candidate must not error: {error:?}"));

    // Assert
    let layers: Vec<EvaluationLayer> = finding
        .path_evidence
        .steps
        .iter()
        .map(|step| step.layer)
        .collect();
    assert_eq!(
        layers,
        vec![
            EvaluationLayer::SgEgress,
            EvaluationLayer::NaclEgress,
            EvaluationLayer::NaclIngress
        ]
    );
}

#[test]
fn rule_intersection_evaluator_unresolved_sg_ref_returns_indeterminate_not_denied() {
    // Arrange
    let mut candidate = allowing_candidate();
    candidate.source.security_group_rules =
        vec![deny_all_sg_ref_rule(Direction::Egress, "sg-cross-account")];
    let evaluator = RuleIntersectionEvaluator;

    // Act
    let finding = evaluator
        .evaluate(&candidate)
        .unwrap_or_else(|error| panic!("structurally valid candidate must not error: {error:?}"));

    // Assert
    assert_eq!(
        finding.reachability,
        Reachability::Indeterminate {
            layers: vec![EvaluationLayer::SgEgress]
        }
    );
}

#[test]
fn rule_intersection_evaluator_sg_egress_uses_destination_peer_identity() {
    // Arrange: source's egress rule references a SG that only the
    // destination is a member of. Swapping source/destination peer
    // identity would deny this traffic instead of allowing it.
    let mut candidate = allowing_candidate();
    candidate.source.security_group_rules = vec![deny_all_sg_ref_rule(
        Direction::Egress,
        "sg-destination-member",
    )];
    candidate.source.security_group_rules[0].resolved = true;
    candidate.destination.peer_security_group_ids = vec!["sg-destination-member".to_string()];
    let evaluator = RuleIntersectionEvaluator;

    // Act
    let finding = evaluator
        .evaluate(&candidate)
        .unwrap_or_else(|error| panic!("structurally valid candidate must not error: {error:?}"));

    // Assert
    let sg_egress_step = &finding.path_evidence.steps[0];
    assert!(matches!(sg_egress_step.verdict, Verdict::Allowed { .. }));
}

#[test]
fn rule_intersection_evaluator_sg_ingress_uses_source_peer_identity() {
    // Arrange: destination's ingress rule references a SG that only
    // the source is a member of.
    let mut candidate = allowing_candidate();
    candidate.destination.security_group_rules =
        vec![deny_all_sg_ref_rule(Direction::Ingress, "sg-source-member")];
    candidate.destination.security_group_rules[0].resolved = true;
    candidate.source.peer_security_group_ids = vec!["sg-source-member".to_string()];
    let evaluator = RuleIntersectionEvaluator;

    // Act
    let finding = evaluator
        .evaluate(&candidate)
        .unwrap_or_else(|error| panic!("structurally valid candidate must not error: {error:?}"));

    // Assert
    let sg_ingress_step = finding.path_evidence.steps.last().unwrap_or_else(|| {
        panic!("all four layers allow, so evidence must contain the sg ingress step")
    });
    assert_eq!(sg_ingress_step.layer, EvaluationLayer::SgIngress);
    assert!(matches!(sg_ingress_step.verdict, Verdict::Allowed { .. }));
}

#[test]
fn rule_intersection_evaluator_nacl_egress_uses_source_subnet_not_destination() {
    // Arrange: only the source subnet's NACL denies egress; the
    // destination subnet's NACL (if consulted for egress by mistake)
    // would allow.
    let mut candidate = allowing_candidate();
    candidate.source.nacl_rules = vec![deny_all_nacl_rule(100, Direction::Egress)];
    let evaluator = RuleIntersectionEvaluator;

    // Act
    let finding = evaluator
        .evaluate(&candidate)
        .unwrap_or_else(|error| panic!("structurally valid candidate must not error: {error:?}"));

    // Assert
    let nacl_egress_step = &finding.path_evidence.steps[1];
    assert_eq!(nacl_egress_step.resource_id, "subnet-source");
}

#[test]
fn rule_intersection_evaluator_nacl_ingress_uses_destination_subnet_not_source() {
    // Arrange
    let candidate = allowing_candidate();
    let evaluator = RuleIntersectionEvaluator;

    // Act
    let finding = evaluator
        .evaluate(&candidate)
        .unwrap_or_else(|error| panic!("structurally valid candidate must not error: {error:?}"));

    // Assert
    let nacl_ingress_step = &finding.path_evidence.steps[2];
    assert_eq!(nacl_ingress_step.resource_id, "subnet-destination");
}

#[test]
fn rule_intersection_evaluator_evidence_step_order_is_sg_egress_nacl_egress_nacl_ingress_sg_ingress(
) {
    // Arrange
    let candidate = allowing_candidate();
    let evaluator = RuleIntersectionEvaluator;

    // Act
    let finding = evaluator
        .evaluate(&candidate)
        .unwrap_or_else(|error| panic!("structurally valid candidate must not error: {error:?}"));

    // Assert
    let layers: Vec<EvaluationLayer> = finding
        .path_evidence
        .steps
        .iter()
        .map(|step| step.layer)
        .collect();
    assert_eq!(
        layers,
        vec![
            EvaluationLayer::SgEgress,
            EvaluationLayer::NaclEgress,
            EvaluationLayer::NaclIngress,
            EvaluationLayer::SgIngress,
        ]
    );
}

#[test]
fn rule_intersection_evaluator_severity_matches_reachability_outcome() {
    // Arrange
    let reachable = allowing_candidate();
    let mut not_reachable = allowing_candidate();
    not_reachable.source.security_group_rules = vec![];
    let mut indeterminate = allowing_candidate();
    indeterminate.source.security_group_rules =
        vec![deny_all_sg_ref_rule(Direction::Egress, "sg-cross-account")];
    let evaluator = RuleIntersectionEvaluator;

    // Act
    let reachable_finding = evaluator
        .evaluate(&reachable)
        .unwrap_or_else(|error| panic!("structurally valid candidate must not error: {error:?}"));
    let not_reachable_finding = evaluator
        .evaluate(&not_reachable)
        .unwrap_or_else(|error| panic!("structurally valid candidate must not error: {error:?}"));
    let indeterminate_finding = evaluator
        .evaluate(&indeterminate)
        .unwrap_or_else(|error| panic!("structurally valid candidate must not error: {error:?}"));

    // Assert
    assert_eq!(reachable_finding.severity, Severity::High);
    assert_eq!(not_reachable_finding.severity, Severity::Low);
    assert_eq!(indeterminate_finding.severity, Severity::Medium);
}
