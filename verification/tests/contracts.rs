//! The evaluator as its callers see it.
use aws_net_hound::domain::finding::{Reachability, Severity};
use aws_net_hound::domain::rule::{Action, Direction, NaclRule, PortRange, RuleTarget, SgRule};
use aws_net_hound::evaluate::path::{EndpointCandidate, EvaluationLayer, PathCandidate};
use aws_net_hound::evaluate::{Protocol, RuleIntersectionEvaluator, Traffic, Verdict};
use aws_net_hound::net::IpAddr;

/// One concrete traffic flow shared across all four layers under test.
fn sample_traffic() -> Traffic {
    Traffic {
        protocol: Protocol::Tcp,
        port: Some(443),
        peer_address: IpAddr::V4(u32::from_be_bytes([203, 0, 113, 10])),
    }
}

fn allow_all_sg_rule(direction: Direction) -> SgRule {
    SgRule {
        direction,
        protocol: "tcp".to_string(),
        port_range: Some(PortRange::new(443, 443).expect("443..443 is a valid port range")),
        target: RuleTarget::Cidr {
            cidr: "0.0.0.0/0".to_string(),
        },
        resolved: true,
    }
}

fn nacl_rule(rule_number: u16, direction: Direction, action: Action) -> NaclRule {
    NaclRule {
        rule_number,
        direction,
        protocol: "tcp".to_string(),
        port_range: Some(PortRange::new(443, 443).expect("443..443 is a valid port range")),
        cidr: "0.0.0.0/0".to_string(),
        action,
    }
}

fn sample_endpoint(
    eni_id: &str,
    security_group_rules: Vec<SgRule>,
    nacl_rules: Vec<NaclRule>,
) -> EndpointCandidate {
    EndpointCandidate {
        eni_id: eni_id.to_string(),
        peer_security_group_ids: Vec::new(),
        security_group_rules,
        subnet_id: "subnet-0example".to_string(),
        nacl_rules,
    }
}

#[test]
fn evaluator_sg_allows_but_nacl_denies_returns_not_reachable() {
    // Arrange
    let evaluator = RuleIntersectionEvaluator;
    let candidate = PathCandidate {
        source: sample_endpoint(
            "eni-source",
            vec![allow_all_sg_rule(Direction::Egress)],
            vec![nacl_rule(100, Direction::Egress, Action::Allow)],
        ),
        destination: sample_endpoint(
            "eni-destination",
            vec![allow_all_sg_rule(Direction::Ingress)],
            vec![nacl_rule(100, Direction::Ingress, Action::Deny)],
        ),
        route_exists: true,
        traffic: sample_traffic(),
        destination_boundary: "boundary-pci-prod".to_string(),
    };

    // Act
    let result = evaluator
        .evaluate(&candidate)
        .expect("evaluation succeeds");

    // Assert
    assert_eq!(result.reachability, Reachability::NotReachable);
}

#[test]
fn evaluator_sg_and_nacl_both_allow_returns_reachability_finding() {
    // Arrange
    let evaluator = RuleIntersectionEvaluator;
    let candidate = PathCandidate {
        source: sample_endpoint(
            "eni-source",
            vec![allow_all_sg_rule(Direction::Egress)],
            vec![nacl_rule(100, Direction::Egress, Action::Allow)],
        ),
        destination: sample_endpoint(
            "eni-destination",
            vec![allow_all_sg_rule(Direction::Ingress)],
            vec![nacl_rule(100, Direction::Ingress, Action::Allow)],
        ),
        route_exists: true,
        traffic: sample_traffic(),
        destination_boundary: "boundary-pci-prod".to_string(),
    };

    // Act
    let finding = evaluator
        .evaluate(&candidate)
        .expect("evaluation succeeds");

    // Assert
    assert_eq!(finding.reachability, Reachability::Reachable);
    assert_eq!(finding.source, "eni-source");
    assert_eq!(finding.destination_boundary, "boundary-pci-prod");
    assert_eq!(finding.severity, Severity::High);
    let layers: Vec<EvaluationLayer> = finding
        .path_evidence
        .steps
        .iter()
        .map(|step| step.layer)
        .collect();
    assert_eq!(
        layers,
        vec![
            EvaluationLayer::SgEgress,
            EvaluationLayer::NaclEgress,
            EvaluationLayer::NaclIngress,
            EvaluationLayer::SgIngress,
        ]
    );
    assert!(finding
        .path_evidence
        .steps
        .iter()
        .all(|step| matches!(step.verdict, Verdict::Allowed { .. })));
}

#[test]
fn evaluator_nacl_lower_numbered_deny_wins_over_higher_numbered_allow() {
    // Arrange
    let evaluator = RuleIntersectionEvaluator;
    let candidate = PathCandidate {
        source: sample_endpoint(
            "eni-source",
            vec![allow_all_sg_rule(Direction::Egress)],
            vec![nacl_rule(100, Direction::Egress, Action::Allow)],
        ),
        destination: sample_endpoint(
            "eni-destination",
            vec![allow_all_sg_rule(Direction::Ingress)],
            // Sorted ascending, per `EndpointCandidate::nacl_rules`'s doc
            // comment: the lower rule number (100, Deny) must win over the
            // higher one (200, Allow).
            vec![
                nacl_rule(100, Direction::Ingress, Action::Deny),
                nacl_rule(200, Direction::Ingress, Action::Allow),
            ],
        ),
        route_exists: true,
        traffic: sample_traffic(),
        destination_boundary: "boundary-pci-prod".to_string(),
    };

    // Act
    let result = evaluator
        .evaluate(&candidate)
        .expect("evaluation succeeds");

    // Assert
    assert_eq!(result.reachability, Reachability::NotReachable);
}
