//! Matching traffic against rules.
use aws_net_hound::domain::rule::PortRange;
use aws_net_hound::error::EvaluationError;
use aws_net_hound::evaluate::{cidr_contains, port_matches, rule_protocol_matches, Protocol, Traffic};
use aws_net_hound::net::IpAddr;

#[test]
fn protocol_try_from_minus_one_returns_all() {
    // Arrange
    let value: i32 = -1;

    // Act
    let result = Protocol::try_from(value);

    // Assert
    assert!(matches!(result, Ok(Protocol::All)));
}

#[test]
fn protocol_try_from_unknown_number_returns_evaluation_error() {
    // Arrange
    let value: i32 = 253;

    // Act
    let result = Protocol::try_from(value);

    // Assert
    assert!(matches!(
        result,
        Err(EvaluationError::UnsupportedProtocol { value: 253 })
    ));
}

#[test]
fn protocol_try_from_icmp_number_returns_evaluation_error() {
    // Arrange
    let value: i32 = 1;

    // Act
    let result = Protocol::try_from(value);

    // Assert
    // ICMP needs `icmp_type`/`code`, which a bare protocol number
    // cannot supply — construct `Protocol::Icmp { .. }` directly
    // instead of going through this conversion.
    assert!(matches!(
        result,
        Err(EvaluationError::UnsupportedProtocol { value: 1 })
    ));
}

#[test]
fn traffic_holds_concrete_port_and_peer_address() {
    // Arrange
    let peer_address = IpAddr::V4(u32::from_be_bytes([203, 0, 113, 10]));

    // Act
    let traffic = Traffic {
        protocol: Protocol::Tcp,
        port: Some(443),
        peer_address,
    };

    // Assert
    assert_eq!(traffic.port, Some(443));
    assert_eq!(traffic.peer_address, peer_address);
}

#[test]
fn traffic_icmp_carries_type_and_code_not_port() {
    // Arrange
    let peer_address = IpAddr::V4(u32::from_be_bytes([203, 0, 113, 10]));

    // Act
    let traffic = Traffic {
        protocol: Protocol::Icmp {
            icmp_type: 8,
            code: 0,
        },
        port: None,
        peer_address,
    };

    // Assert
    assert!(matches!(
        traffic.protocol,
        Protocol::Icmp {
            icmp_type: 8,
            code: 0
        }
    ));
    assert_eq!(traffic.port, None);
}

#[test]
fn rule_protocol_matches_all_sentinel_matches_any_traffic_protocol() {
    // Arrange
    let rule_protocol = "-1";

    // Act
    let matches = rule_protocol_matches(rule_protocol, Protocol::Udp);

    // Assert
    assert!(matches);
}

#[test]
fn rule_protocol_matches_tcp_string_does_not_match_udp_traffic() {
    // Arrange
    let rule_protocol = "tcp";

    // Act
    let matches = rule_protocol_matches(rule_protocol, Protocol::Udp);

    // Assert
    assert!(!matches);
}

#[test]
fn port_matches_none_range_matches_any_port() {
    // Arrange
    let rule_port_range = None;
    let traffic_port = Some(8080);

    // Act
    let matches = port_matches(rule_port_range, traffic_port);

    // Assert
    assert!(matches);
}

#[test]
fn port_matches_some_range_none_traffic_port_returns_false() {
    // Arrange
    let rule_port_range = PortRange::new(443, 443).ok();
    let traffic_port = None;

    // Act
    let matches = port_matches(rule_port_range, traffic_port);

    // Assert
    assert!(!matches);
}

#[test]
fn cidr_contains_address_inside_prefix_returns_some_true() {
    // Arrange
    let cidr = "10.0.0.0/8";
    let address = IpAddr::V4(u32::from_be_bytes([10, 1, 2, 3]));

    // Act
    let contains = cidr_contains(cidr, address);

    // Assert
    assert_eq!(contains, Some(true));
}

#[test]
fn cidr_contains_malformed_cidr_returns_none() {
    // Arrange
    let cidr = "not-a-cidr";
    let address = IpAddr::V4(u32::from_be_bytes([10, 1, 2, 3]));

    // Act
    let contains = cidr_contains(cidr, address);

    // Assert
    assert_eq!(contains, None);
}
