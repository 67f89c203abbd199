//! Network ACL evaluation.
use aws_net_hound::domain::rule::{Action, Direction, NaclRule, PortRange};
use aws_net_hound::evaluate::nacl::{evaluate_nacl_egress, evaluate_nacl_ingress};
use aws_net_hound::evaluate::{DenyReason, Protocol, RuleRef, Traffic, Verdict};
use aws_net_hound::net::IpAddr;

fn port_range(from_port: u16, to_port: u16) -> PortRange {
    PortRange::new(from_port, to_port)
        .unwrap_or_else(|error| panic!("expected a valid port range: {error:?}"))
}

fn tcp_traffic(port: u16, peer_address: IpAddr) -> Traffic {
    Traffic {
        protocol: Protocol::Tcp,
        port: Some(port),
        peer_address,
    }
}

fn v4(octets: [u8; 4]) -> IpAddr {
    IpAddr::V4(u32::from_be_bytes(octets))
}

fn nacl_rule(
    rule_number: u16,
    direction: Direction,
    protocol: &str,
    port_range: Option<PortRange>,
    cidr: &str,
    action: Action,
) -> NaclRule {
    NaclRule {
        rule_number,
        direction,
        protocol: protocol.to_string(),
        port_range,
        cidr: cidr.to_string(),
        action,
    }
}

#[test]
fn evaluate_nacl_lower_numbered_allow_before_higher_numbered_deny_returns_allowed() {
    // Arrange
    let rules = [
        nacl_rule(
            100,
            Direction::Egress,
            "tcp",
            Some(port_range(443, 443)),
            "0.0.0.0/0",
            Action::Allow,
        ),
        nacl_rule(
            200,
            Direction::Egress,
            "tcp",
            Some(port_range(443, 443)),
            "0.0.0.0/0",
            Action::Deny,
        ),
    ];
    let traffic = tcp_traffic(443, v4([203, 0, 113, 10]));

    // Act
    let verdict = evaluate_nacl_egress("nacl-0example", &rules, &traffic);

    // Assert
    assert_eq!(
        verdict,
        Verdict::Allowed {
            matched_by: RuleRef::NetworkAcl {
                network_acl_id: "nacl-0example".to_string(),
                rule_number: 100,
            },
        }
    );
}

#[test]
fn evaluate_nacl_lower_numbered_deny_before_higher_numbered_allow_returns_denied() {
    // Arrange
    let rules = [
        nacl_rule(
            100,
            Direction::Egress,
            "tcp",
            Some(port_range(443, 443)),
            "0.0.0.0/0",
            Action::Deny,
        ),
        nacl_rule(
            200,
            Direction::Egress,
            "tcp",
            Some(port_range(443, 443)),
            "0.0.0.0/0",
            Action::Allow,
        ),
    ];
    let traffic = tcp_traffic(443, v4([203, 0, 113, 10]));

    // Act
    let verdict = evaluate_nacl_egress("nacl-0example", &rules, &traffic);

    // Assert
    assert_eq!(
        verdict,
        Verdict::Denied {
            reason: DenyReason::ExplicitDeny {
                matched_by: RuleRef::NetworkAcl {
                    network_acl_id: "nacl-0example".to_string(),
                    rule_number: 100,
                },
            },
        }
    );
}

#[test]
fn evaluate_nacl_rules_supplied_in_reverse_number_order_returns_same_verdict() {
    // Arrange
    let allow = nacl_rule(
        100,
        Direction::Egress,
        "tcp",
        Some(port_range(443, 443)),
        "0.0.0.0/0",
        Action::Allow,
    );
    let deny = nacl_rule(
        200,
        Direction::Egress,
        "tcp",
        Some(port_range(443, 443)),
        "0.0.0.0/0",
        Action::Deny,
    );
    let forward_order = [allow.clone(), deny.clone()];
    let reversed_order = [deny, allow];
    let traffic = tcp_traffic(443, v4([203, 0, 113, 10]));

    // Act
    let forward_verdict = evaluate_nacl_egress("nacl-0example", &forward_order, &traffic);
    let reversed_verdict = evaluate_nacl_egress("nacl-0example", &reversed_order, &traffic);

    // Assert
    assert_eq!(forward_verdict, reversed_verdict);
    assert!(matches!(forward_verdict, Verdict::Allowed { .. }));
}

#[test]
fn evaluate_nacl_no_matching_rule_returns_implicit_deny() {
    // Arrange
    let rules = [nacl_rule(
        100,
        Direction::Egress,
        "tcp",
        Some(port_range(443, 443)),
        "10.0.0.0/8",
        Action::Allow,
    )];
    let traffic = tcp_traffic(443, v4([203, 0, 113, 10]));

    // Act
    let verdict = evaluate_nacl_egress("nacl-0example", &rules, &traffic);

    // Assert
    assert_eq!(
        verdict,
        Verdict::Denied {
            reason: DenyReason::NoMatchingRule,
        }
    );
}

#[test]
fn evaluate_nacl_empty_rule_set_returns_implicit_deny() {
    // Arrange
    let rules: [NaclRule; 0] = [];
    let traffic = tcp_traffic(443, v4([203, 0, 113, 10]));

    // Act
    let verdict = evaluate_nacl_egress("nacl-0example", &rules, &traffic);

    // Assert
    assert_eq!(
        verdict,
        Verdict::Denied {
            reason: DenyReason::NoMatchingRule,
        }
    );
}

#[test]
fn evaluate_nacl_egress_rules_do_not_decide_ingress_verdict() {
    // Arrange
    let rules = [nacl_rule(
        100,
        Direction::Egress,
        "tcp",
        Some(port_range(443, 443)),
        "0.0.0.0/0",
        Action::Allow,
    )];
    let traffic = tcp_traffic(443, v4([203, 0, 113, 10]));

    // Act
    let verdict = evaluate_nacl_ingress("nacl-0example", &rules, &traffic);

    // Assert
    assert_eq!(
        verdict,
        Verdict::Denied {
            reason: DenyReason::NoMatchingRule,
        }
    );
}

#[test]
fn evaluate_nacl_protocol_all_rule_matches_any_port_returns_allowed() {
    // Arrange
    let rules = [nacl_rule(
        100,
        Direction::Egress,
        "-1",
        None,
        "0.0.0.0/0",
        Action::Allow,
    )];
    let traffic = Traffic {
        protocol: Protocol::Udp,
        port: Some(9999),
        peer_address: v4([203, 0, 113, 10]),
    };

    // Act
    let verdict = evaluate_nacl_egress("nacl-0example", &rules, &traffic);

    // Assert
    assert_eq!(
        verdict,
        Verdict::Allowed {
            matched_by: RuleRef::NetworkAcl {
                network_acl_id: "nacl-0example".to_string(),
                rule_number: 100,
            },
        }
    );
}

#[test]
fn evaluate_nacl_matched_allow_reports_matching_rule_number() {
    // Arrange
    let rules = [
        nacl_rule(
            50,
            Direction::Ingress,
            "tcp",
            Some(port_range(22, 22)),
            "10.0.0.0/8",
            Action::Deny,
        ),
        nacl_rule(
            150,
            Direction::Ingress,
            "tcp",
            Some(port_range(443, 443)),
            "0.0.0.0/0",
            Action::Allow,
        ),
    ];
    let traffic = tcp_traffic(443, v4([203, 0, 113, 10]));

    // Act
    let verdict = evaluate_nacl_ingress("nacl-0example", &rules, &traffic);

    // Assert
    assert_eq!(
        verdict,
        Verdict::Allowed {
            matched_by: RuleRef::NetworkAcl {
                network_acl_id: "nacl-0example".to_string(),
                rule_number: 150,
            },
        }
    );
}

#[test]
fn evaluate_nacl_explicit_deny_reports_deny_reason_not_implicit() {
    // Arrange
    let rules = [nacl_rule(
        100,
        Direction::Ingress,
        "tcp",
        Some(port_range(443, 443)),
        "0.0.0.0/0",
        Action::Deny,
    )];
    let traffic = tcp_traffic(443, v4([203, 0, 113, 10]));

    // Act
    let verdict = evaluate_nacl_ingress("nacl-0example", &rules, &traffic);

    // Assert
    assert_eq!(
        verdict,
        Verdict::Denied {
            reason: DenyReason::ExplicitDeny {
                matched_by: RuleRef::NetworkAcl {
                    network_acl_id: "nacl-0example".to_string(),
                    rule_number: 100,
                },
            },
        }
    );
    assert_ne!(
        verdict,
        Verdict::Denied {
            reason: DenyReason::NoMatchingRule,
        }
    );
}
