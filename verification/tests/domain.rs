//! Rules and severities.
use aws_net_hound::domain::finding::Severity;
use aws_net_hound::domain::order::sort_by_number;
use aws_net_hound::domain::rule::{Action, Direction, NaclRule, PortRange, RuleError};

fn valid_port_range(from_port: u16, to_port: u16) -> PortRange {
    PortRange::new(from_port, to_port)
        .unwrap_or_else(|error| panic!("expected a valid port range: {error:?}"))
}

#[test]
fn port_range_new_with_inverted_bounds_returns_validation_error() {
    // Arrange
    let from_port = 443;
    let to_port = 80;

    // Act
    let result = PortRange::new(from_port, to_port);

    // Assert
    assert!(matches!(
        result,
        Err(RuleError::InvertedPortRange {
            from_port: 443,
            to_port: 80
        })
    ));
}

#[test]
fn nacl_rules_sort_by_rule_number_ascending() {
    // Arrange
    let rules = vec![
        NaclRule {
            rule_number: 300,
            direction: Direction::Ingress,
            protocol: "tcp".to_string(),
            port_range: Some(valid_port_range(80, 80)),
            cidr: "0.0.0.0/0".to_string(),
            action: Action::Allow,
        },
        NaclRule {
            rule_number: 100,
            direction: Direction::Ingress,
            protocol: "tcp".to_string(),
            port_range: Some(valid_port_range(22, 22)),
            cidr: "10.0.0.0/8".to_string(),
            action: Action::Deny,
        },
        NaclRule {
            rule_number: 200,
            direction: Direction::Egress,
            protocol: "-1".to_string(),
            port_range: None,
            cidr: "0.0.0.0/0".to_string(),
            action: Action::Allow,
        },
    ];

    // Act
    let rules = sort_by_number(&rules);

    // Assert
    let rule_numbers: Vec<u16> = rules.iter().map(|rule| rule.rule_number).collect();
    assert_eq!(rule_numbers, vec![100, 200, 300]);
}

#[test]
fn severity_ord_ranks_in_declared_order() {
    // Arrange
    let ascending = [
        Severity::Low,
        Severity::Medium,
        Severity::High,
        Severity::Critical,
    ];
    let mut shuffled = [
        Severity::Critical,
        Severity::Low,
        Severity::High,
        Severity::Medium,
    ];

    // Act
    shuffled.sort();

    // Assert
    assert_eq!(shuffled, ascending);
}

#[test]
fn port_range_keeps_its_bounds() {
    let range = valid_port_range(80, 443);

    assert_eq!((range.from_port(), range.to_port()), (80, 443));
    let single = valid_port_range(0, 0);
    assert_eq!((single.from_port(), single.to_port()), (0, 0));
}

#[test]
fn inverted_range_is_told_in_words() {
    let error = RuleError::InvertedPortRange {
        from_port: 65535,
        to_port: 0,
    };

    assert_eq!(
        error.message(),
        "invalid port range: from_port (65535) is greater than to_port (0)"
    );
}
