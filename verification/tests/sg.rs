//! Security group evaluation.
use aws_net_hound::domain::rule::{Direction, PortRange, RuleTarget, SgRule};
use aws_net_hound::evaluate::sg::{
    combine, evaluate_sg_egress, evaluate_sg_ingress, Outcome, PeerIdentity,
};
use aws_net_hound::evaluate::{DenyReason, IndeterminateReason, Protocol, RuleRef, Traffic, Verdict};
use aws_net_hound::net::IpAddr;

fn port_range(from_port: u16, to_port: u16) -> PortRange {
    PortRange::new(from_port, to_port)
        .unwrap_or_else(|error| panic!("expected a valid port range: {error:?}"))
}

fn cidr_rule(
    direction: Direction,
    protocol: &str,
    port_range: Option<PortRange>,
    cidr: &str,
) -> SgRule {
    SgRule {
        direction,
        protocol: protocol.to_string(),
        port_range,
        target: RuleTarget::Cidr {
            cidr: cidr.to_string(),
        },
        resolved: true,
    }
}

fn sg_ref_rule(
    direction: Direction,
    protocol: &str,
    port_range: Option<PortRange>,
    security_group_id: &str,
    resolved: bool,
) -> SgRule {
    SgRule {
        direction,
        protocol: protocol.to_string(),
        port_range,
        target: RuleTarget::SecurityGroupRef {
            security_group_id: security_group_id.to_string(),
        },
        resolved,
    }
}

fn tcp_traffic(port: u16, peer_address: IpAddr) -> Traffic {
    Traffic {
        protocol: Protocol::Tcp,
        port: Some(port),
        peer_address,
    }
}

fn v4(octets: [u8; 4]) -> IpAddr {
    IpAddr::V4(u32::from_be_bytes(octets))
}

#[test]
fn evaluate_sg_egress_matching_cidr_rule_returns_allowed() {
    // Arrange
    let rules = [cidr_rule(
        Direction::Egress,
        "tcp",
        Some(port_range(443, 443)),
        "0.0.0.0/0",
    )];
    let traffic = tcp_traffic(443, v4([203, 0, 113, 10]));
    let peer = PeerIdentity {
        security_group_ids: &[],
    };

    // Act
    let verdict = evaluate_sg_egress("sg-0example", &rules, &traffic, &peer);

    // Assert
    assert_eq!(
        verdict,
        Verdict::Allowed {
            matched_by: RuleRef::SecurityGroup {
                security_group_id: "sg-0example".to_string(),
                rule_index: 0,
            },
        }
    );
}

#[test]
fn evaluate_sg_egress_peer_outside_all_cidrs_returns_denied() {
    // Arrange
    let rules = [cidr_rule(
        Direction::Egress,
        "tcp",
        Some(port_range(443, 443)),
        "10.0.0.0/8",
    )];
    let traffic = tcp_traffic(443, v4([203, 0, 113, 10]));
    let peer = PeerIdentity {
        security_group_ids: &[],
    };

    // Act
    let verdict = evaluate_sg_egress("sg-0example", &rules, &traffic, &peer);

    // Assert
    assert_eq!(
        verdict,
        Verdict::Denied {
            reason: DenyReason::NoMatchingRule,
        }
    );
}

#[test]
fn evaluate_sg_ingress_peer_member_of_referenced_group_returns_allowed() {
    // Arrange
    let rules = [sg_ref_rule(
        Direction::Ingress,
        "tcp",
        Some(port_range(443, 443)),
        "sg-referenced",
        true,
    )];
    let traffic = tcp_traffic(443, v4([203, 0, 113, 10]));
    let membership = vec!["sg-referenced".to_string()];
    let peer = PeerIdentity {
        security_group_ids: &membership,
    };

    // Act
    let verdict = evaluate_sg_ingress("sg-0example", &rules, &traffic, &peer);

    // Assert
    assert_eq!(
        verdict,
        Verdict::Allowed {
            matched_by: RuleRef::SecurityGroup {
                security_group_id: "sg-0example".to_string(),
                rule_index: 0,
            },
        }
    );
}

#[test]
fn evaluate_sg_ingress_peer_not_member_of_referenced_group_returns_denied() {
    // Arrange
    let rules = [sg_ref_rule(
        Direction::Ingress,
        "tcp",
        Some(port_range(443, 443)),
        "sg-referenced",
        true,
    )];
    let traffic = tcp_traffic(443, v4([203, 0, 113, 10]));
    let membership = vec!["sg-other".to_string()];
    let peer = PeerIdentity {
        security_group_ids: &membership,
    };

    // Act
    let verdict = evaluate_sg_ingress("sg-0example", &rules, &traffic, &peer);

    // Assert
    assert_eq!(
        verdict,
        Verdict::Denied {
            reason: DenyReason::NoMatchingRule,
        }
    );
}

#[test]
fn evaluate_sg_ingress_referenced_group_ip_matches_but_membership_does_not_returns_denied() {
    // Arrange
    let rules = [sg_ref_rule(
        Direction::Ingress,
        "tcp",
        Some(port_range(443, 443)),
        "sg-referenced",
        true,
    )];
    let traffic = tcp_traffic(443, v4([203, 0, 113, 10]));
    let membership = vec!["sg-other".to_string()];
    let peer = PeerIdentity {
        security_group_ids: &membership,
    };

    // Act
    let verdict = evaluate_sg_ingress("sg-0example", &rules, &traffic, &peer);

    // Assert
    assert_eq!(
        verdict,
        Verdict::Denied {
            reason: DenyReason::NoMatchingRule,
        }
    );
}

#[test]
fn evaluate_sg_egress_protocol_all_ignores_port_range_returns_allowed() {
    // Arrange
    let rules = [cidr_rule(Direction::Egress, "-1", None, "0.0.0.0/0")];
    let traffic = Traffic {
        protocol: Protocol::Udp,
        port: Some(9999),
        peer_address: v4([203, 0, 113, 10]),
    };
    let peer = PeerIdentity {
        security_group_ids: &[],
    };

    // Act
    let verdict = evaluate_sg_egress("sg-0example", &rules, &traffic, &peer);

    // Assert
    assert_eq!(
        verdict,
        Verdict::Allowed {
            matched_by: RuleRef::SecurityGroup {
                security_group_id: "sg-0example".to_string(),
                rule_index: 0,
            },
        }
    );
}

#[test]
fn evaluate_sg_egress_protocol_mismatch_returns_denied() {
    // Arrange
    let rules = [cidr_rule(
        Direction::Egress,
        "tcp",
        Some(port_range(443, 443)),
        "0.0.0.0/0",
    )];
    let traffic = Traffic {
        protocol: Protocol::Udp,
        port: Some(443),
        peer_address: v4([203, 0, 113, 10]),
    };
    let peer = PeerIdentity {
        security_group_ids: &[],
    };

    // Act
    let verdict = evaluate_sg_egress("sg-0example", &rules, &traffic, &peer);

    // Assert
    assert_eq!(
        verdict,
        Verdict::Denied {
            reason: DenyReason::NoMatchingRule,
        }
    );
}

#[test]
fn evaluate_sg_egress_port_outside_rule_range_returns_denied() {
    // Arrange
    let rules = [cidr_rule(
        Direction::Egress,
        "tcp",
        Some(port_range(443, 443)),
        "0.0.0.0/0",
    )];
    let traffic = tcp_traffic(8080, v4([203, 0, 113, 10]));
    let peer = PeerIdentity {
        security_group_ids: &[],
    };

    // Act
    let verdict = evaluate_sg_egress("sg-0example", &rules, &traffic, &peer);

    // Assert
    assert_eq!(
        verdict,
        Verdict::Denied {
            reason: DenyReason::NoMatchingRule,
        }
    );
}

#[test]
fn evaluate_sg_egress_unresolved_reference_returns_indeterminate() {
    // Arrange
    let rules = [sg_ref_rule(
        Direction::Egress,
        "tcp",
        Some(port_range(443, 443)),
        "sg-cross-account",
        false,
    )];
    let traffic = tcp_traffic(443, v4([203, 0, 113, 10]));
    let peer = PeerIdentity {
        security_group_ids: &[],
    };

    // Act
    let verdict = evaluate_sg_egress("sg-0example", &rules, &traffic, &peer);

    // Assert
    assert_eq!(
        verdict,
        Verdict::Indeterminate {
            reason: IndeterminateReason::UnresolvedReference {
                security_group_id: "sg-cross-account".to_string(),
            },
        }
    );
}

#[test]
fn evaluate_sg_egress_resolved_allow_alongside_unresolved_rule_returns_allowed() {
    // Arrange
    let rules = [
        sg_ref_rule(
            Direction::Egress,
            "tcp",
            Some(port_range(443, 443)),
            "sg-cross-account",
            false,
        ),
        cidr_rule(
            Direction::Egress,
            "tcp",
            Some(port_range(443, 443)),
            "0.0.0.0/0",
        ),
    ];
    let traffic = tcp_traffic(443, v4([203, 0, 113, 10]));
    let peer = PeerIdentity {
        security_group_ids: &[],
    };

    // Act
    let verdict = evaluate_sg_egress("sg-0example", &rules, &traffic, &peer);

    // Assert
    assert!(matches!(verdict, Verdict::Allowed { .. }));
}

#[test]
fn evaluate_sg_egress_rule_order_reversed_returns_same_verdict() {
    // Arrange
    let unresolved = sg_ref_rule(
        Direction::Egress,
        "tcp",
        Some(port_range(443, 443)),
        "sg-cross-account",
        false,
    );
    let resolved_allow = cidr_rule(
        Direction::Egress,
        "tcp",
        Some(port_range(443, 443)),
        "0.0.0.0/0",
    );
    let forward_order = [unresolved.clone(), resolved_allow.clone()];
    let reversed_order = [resolved_allow, unresolved];
    let traffic = tcp_traffic(443, v4([203, 0, 113, 10]));
    let peer = PeerIdentity {
        security_group_ids: &[],
    };

    // Act
    let forward_verdict = evaluate_sg_egress("sg-0example", &forward_order, &traffic, &peer);
    let reversed_verdict = evaluate_sg_egress("sg-0example", &reversed_order, &traffic, &peer);

    // Assert
    assert!(matches!(forward_verdict, Verdict::Allowed { .. }));
    assert!(matches!(reversed_verdict, Verdict::Allowed { .. }));
}

#[test]
fn evaluate_sg_egress_empty_rule_set_returns_denied() {
    // Arrange
    let rules: [SgRule; 0] = [];
    let traffic = tcp_traffic(443, v4([203, 0, 113, 10]));
    let peer = PeerIdentity {
        security_group_ids: &[],
    };

    // Act
    let verdict = evaluate_sg_egress("sg-0example", &rules, &traffic, &peer);

    // Assert
    assert_eq!(
        verdict,
        Verdict::Denied {
            reason: DenyReason::NoMatchingRule,
        }
    );
}

#[test]
fn order_and_grouping_of_rules_keep_the_kind_of_verdict() {
    let silent = cidr_rule(Direction::Egress, "udp", None, "0.0.0.0/0");
    let first_unresolved = sg_ref_rule(Direction::Egress, "tcp", None, "sg-far", false);
    let second_unresolved = sg_ref_rule(Direction::Egress, "tcp", None, "sg-farther", false);
    let allowing = cidr_rule(Direction::Egress, "tcp", None, "0.0.0.0/0");
    let traffic = tcp_traffic(443, v4([203, 0, 113, 10]));
    let verdict = |rules: &[&SgRule]| {
        let rules: Vec<SgRule> = rules.iter().map(|rule| (*rule).clone()).collect();
        let peer = PeerIdentity {
            security_group_ids: &[],
        };
        evaluate_sg_egress("sg-0example", &rules, &traffic, &peer)
    };
    let allowed_by = |rule_index: usize| Verdict::Allowed {
        matched_by: RuleRef::SecurityGroup {
            security_group_id: "sg-0example".to_string(),
            rule_index,
        },
    };
    let unresolved = |security_group_id: &str| Verdict::Indeterminate {
        reason: IndeterminateReason::UnresolvedReference {
            security_group_id: security_group_id.to_string(),
        },
    };

    assert_eq!(verdict(&[&silent, &allowing, &silent]), allowed_by(1));
    assert_eq!(verdict(&[&allowing, &first_unresolved, &allowing]), allowed_by(0));
    assert_eq!(verdict(&[&first_unresolved, &silent, &allowing]), allowed_by(2));
    assert_eq!(
        verdict(&[&silent, &first_unresolved, &second_unresolved]),
        unresolved("sg-far")
    );
    assert_eq!(
        verdict(&[&second_unresolved, &first_unresolved, &silent]),
        unresolved("sg-farther")
    );
    assert_eq!(
        verdict(&[&silent, &silent]),
        Verdict::Denied {
            reason: DenyReason::NoMatchingRule,
        }
    );
}

#[test]
fn outcomes_combine_to_the_strongest() {
    let allowed = |rule_index: usize| Outcome::Allowed { rule_index };
    let open = |id: &str| Outcome::Indeterminate {
        security_group_id: id.to_string(),
    };

    assert_eq!(combine(Outcome::Denied, Outcome::Denied), Outcome::Denied);
    assert_eq!(combine(Outcome::Denied, open("sg-1")), open("sg-1"));
    assert_eq!(combine(open("sg-1"), Outcome::Denied), open("sg-1"));
    assert_eq!(combine(open("sg-1"), open("sg-2")), open("sg-1"));
    assert_eq!(combine(open("sg-1"), allowed(3)), allowed(3));
    assert_eq!(combine(allowed(3), open("sg-1")), allowed(3));
    assert_eq!(combine(allowed(3), allowed(1)), allowed(3));
    assert_eq!(
        combine(combine(open("sg-1"), allowed(2)), open("sg-2")),
        combine(open("sg-1"), combine(allowed(2), open("sg-2")))
    );
}
