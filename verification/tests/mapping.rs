//! Mapping what the EC2 API tells into rules and port ranges.
use aws_net_hound::domain::rule::{Action, Direction, PortRange, RuleTarget};
use aws_net_hound::error::MappingError;
use aws_net_hound::ingest::aws::{
    EntryPortRange, IpPermission, IpRange, NetworkAcl, NetworkAclEntry, RuleAction, SecurityGroup,
    UserIdGroupPair,
};
use aws_net_hound::ingest::map::build_port_range;
use aws_net_hound::ingest::map::nacl::map_network_acl_rules;
use aws_net_hound::ingest::map::sg::map_security_group_rules;

const CURRENT_ACCOUNT_ID: &str = "123456789012";
const OTHER_ACCOUNT_ID: &str = "999999999999";

fn text(value: &str) -> Option<String> {
    Some(value.to_string())
}

fn ip_permission() -> IpPermission {
    IpPermission {
        ip_protocol: None,
        from_port: None,
        to_port: None,
        ip_ranges: Vec::new(),
        ipv6_ranges: Vec::new(),
        user_id_group_pairs: Vec::new(),
    }
}

fn security_group() -> SecurityGroup {
    SecurityGroup {
        group_id: None,
        vpc_id: None,
        group_name: None,
        description: None,
        ip_permissions: Vec::new(),
        ip_permissions_egress: Vec::new(),
    }
}

fn network_acl() -> NetworkAcl {
    NetworkAcl {
        network_acl_id: None,
        vpc_id: None,
        is_default: None,
        entries: Vec::new(),
        associations: Vec::new(),
    }
}

fn permission() -> IpPermission {
    IpPermission {
        ip_protocol: text("tcp"),
        from_port: Some(443),
        to_port: Some(443),
        ..ip_permission()
    }
}

fn range(cidr_ip: &str) -> IpRange {
    IpRange {
        cidr_ip: text(cidr_ip),
    }
}

fn source_group(permission: IpPermission) -> SecurityGroup {
    SecurityGroup {
        group_id: text("sg-0source"),
        ip_permissions: vec![permission],
        ..security_group()
    }
}

fn entry(rule_number: i32) -> NetworkAclEntry {
    NetworkAclEntry {
        rule_number: Some(rule_number),
        protocol: text("tcp"),
        port_range: None,
        cidr_block: text("0.0.0.0/0"),
        ipv6_cidr_block: None,
        egress: Some(false),
        rule_action: Some(RuleAction::Allow),
    }
}

fn acl(entries: Vec<NetworkAclEntry>) -> NetworkAcl {
    NetworkAcl {
        network_acl_id: text("acl-0example"),
        entries,
        ..network_acl()
    }
}

#[test]
fn build_port_range_icmp_type_with_any_code_preserves_type_restriction() {
    // Arrange
    let from_port = Some(8);
    let to_port = Some(-1);

    // Act
    let result = build_port_range("sg-0example", "port_range", "icmp", from_port, to_port)
        .unwrap_or_else(|error| panic!("expected Ok: {error:?}"));

    // Assert
    assert_eq!(result, PortRange::new(8, 8).ok());
}

#[test]
fn build_port_range_icmp_any_type_with_code_preserves_code_restriction() {
    // Arrange
    let from_port = Some(-1);
    let to_port = Some(0);

    // Act
    let result = build_port_range("sg-0example", "port_range", "icmp", from_port, to_port)
        .unwrap_or_else(|error| panic!("expected Ok: {error:?}"));

    // Assert
    assert_eq!(result, PortRange::new(0, 0).ok());
}

#[test]
fn build_port_range_icmp_any_type_any_code_normalizes_to_none() {
    // Arrange
    let from_port = Some(-1);
    let to_port = Some(-1);

    // Act
    let result = build_port_range("sg-0example", "port_range", "icmp", from_port, to_port)
        .unwrap_or_else(|error| panic!("expected Ok: {error:?}"));

    // Assert
    assert_eq!(result, None);
}

#[test]
fn map_network_acl_rules_response_out_of_numeric_order_returns_sorted_by_rule_number() {
    let acl = acl(vec![entry(300), entry(100), entry(200)]);

    let rules =
        map_network_acl_rules(&acl).unwrap_or_else(|error| panic!("expected Ok: {error:?}"));

    let rule_numbers: Vec<u16> = rules.iter().map(|rule| rule.rule_number).collect();
    assert_eq!(rule_numbers, vec![100, 200, 300]);
}

#[test]
fn map_network_acl_rules_preserves_rule_number_verbatim() {
    let acl = acl(vec![entry(32767)]);

    let rules =
        map_network_acl_rules(&acl).unwrap_or_else(|error| panic!("expected Ok: {error:?}"));

    assert_eq!(rules[0].rule_number, 32767);
}

#[test]
fn map_network_acl_rules_deny_action_maps_to_deny_variant() {
    let acl = acl(vec![NetworkAclEntry {
        rule_action: Some(RuleAction::Deny),
        ..entry(100)
    }]);

    let rules =
        map_network_acl_rules(&acl).unwrap_or_else(|error| panic!("expected Ok: {error:?}"));

    assert_eq!(rules[0].action, Action::Deny);
}

#[test]
fn map_network_acl_rules_egress_flag_maps_to_egress_direction() {
    let acl = acl(vec![NetworkAclEntry {
        egress: Some(true),
        ..entry(100)
    }]);

    let rules =
        map_network_acl_rules(&acl).unwrap_or_else(|error| panic!("expected Ok: {error:?}"));

    assert_eq!(rules[0].direction, Direction::Egress);
}

#[test]
fn map_network_acl_rules_protocol_minus_one_normalizes_port_range_to_none() {
    let acl = acl(vec![NetworkAclEntry {
        protocol: text("-1"),
        port_range: Some(EntryPortRange {
            from: Some(0),
            to: Some(65535),
        }),
        ..entry(100)
    }]);

    let rules =
        map_network_acl_rules(&acl).unwrap_or_else(|error| panic!("expected Ok: {error:?}"));

    assert_eq!(rules[0].port_range, None);
}

#[test]
fn map_security_group_rules_permission_with_cidr_and_sg_ref_returns_two_rules() {
    let sg = source_group(IpPermission {
        ip_ranges: vec![range("0.0.0.0/0")],
        user_id_group_pairs: vec![UserIdGroupPair {
            group_id: text("sg-0example"),
            user_id: text(CURRENT_ACCOUNT_ID),
        }],
        ..permission()
    });

    let rules = map_security_group_rules(&sg, CURRENT_ACCOUNT_ID)
        .unwrap_or_else(|error| panic!("expected Ok: {error:?}"));

    assert_eq!(rules.len(), 2);
    assert!(matches!(rules[0].target, RuleTarget::Cidr { .. }));
    assert!(matches!(
        rules[1].target,
        RuleTarget::SecurityGroupRef { .. }
    ));
}

#[test]
fn map_security_group_rules_cross_account_reference_returns_ok_with_resolved_false() {
    let sg = source_group(IpPermission {
        user_id_group_pairs: vec![UserIdGroupPair {
            group_id: text("sg-0example"),
            user_id: text(OTHER_ACCOUNT_ID),
        }],
        ..permission()
    });

    let rules = map_security_group_rules(&sg, CURRENT_ACCOUNT_ID)
        .unwrap_or_else(|error| panic!("expected Ok: {error:?}"));

    assert_eq!(rules.len(), 1);
    assert_eq!(rules[0].resolved, false);
}

#[test]
fn map_security_group_rules_same_account_reference_returns_resolved_true() {
    let sg = source_group(IpPermission {
        user_id_group_pairs: vec![UserIdGroupPair {
            group_id: text("sg-0example"),
            user_id: text(CURRENT_ACCOUNT_ID),
        }],
        ..permission()
    });

    let rules = map_security_group_rules(&sg, CURRENT_ACCOUNT_ID)
        .unwrap_or_else(|error| panic!("expected Ok: {error:?}"));

    assert_eq!(rules.len(), 1);
    assert_eq!(rules[0].resolved, true);
}

#[test]
fn map_security_group_rules_absent_owner_id_treated_as_same_account() {
    let sg = source_group(IpPermission {
        user_id_group_pairs: vec![UserIdGroupPair {
            group_id: text("sg-0example"),
            user_id: None,
        }],
        ..permission()
    });

    let rules = map_security_group_rules(&sg, CURRENT_ACCOUNT_ID)
        .unwrap_or_else(|error| panic!("expected Ok: {error:?}"));

    assert_eq!(rules.len(), 1);
    assert_eq!(rules[0].resolved, true);
}

#[test]
fn map_security_group_rules_protocol_minus_one_normalizes_to_all_protocols() {
    let sg = source_group(IpPermission {
        ip_protocol: text("-1"),
        ip_ranges: vec![range("0.0.0.0/0")],
        ..ip_permission()
    });

    let rules = map_security_group_rules(&sg, CURRENT_ACCOUNT_ID)
        .unwrap_or_else(|error| panic!("expected Ok: {error:?}"));

    assert_eq!(rules.len(), 1);
    assert_eq!(rules[0].protocol, "-1");
    assert_eq!(rules[0].port_range, None);
}

#[test]
fn map_security_group_rules_inverted_port_range_returns_mapping_error() {
    let sg = source_group(IpPermission {
        ip_protocol: text("tcp"),
        from_port: Some(443),
        to_port: Some(80),
        ip_ranges: vec![range("0.0.0.0/0")],
        ..ip_permission()
    });

    let result = map_security_group_rules(&sg, CURRENT_ACCOUNT_ID);

    assert!(matches!(result, Err(MappingError::InvalidField { .. })));
}

#[test]
fn inverted_port_range_is_reported_in_full() {
    let sg = source_group(IpPermission {
        from_port: Some(443),
        to_port: Some(80),
        ip_ranges: vec![range("0.0.0.0/0")],
        ..permission()
    });

    let result = map_security_group_rules(&sg, CURRENT_ACCOUNT_ID);

    let Err(MappingError::InvalidField {
        resource_id,
        field,
        reason,
    }) = result
    else {
        panic!("expected an invalid field");
    };
    assert_eq!(resource_id, "sg-0source");
    assert_eq!(field, "port_range");
    assert_eq!(
        reason,
        "invalid port range: from_port (443) is greater than to_port (80)"
    );
}

#[test]
fn port_out_of_range_is_reported() {
    let result = build_port_range("sg-0example", "port_range", "tcp", Some(0), Some(70000));

    let Err(MappingError::InvalidField { reason, .. }) = result else {
        panic!("expected an invalid field");
    };
    assert_eq!(reason, "port 70000 exceeds u16 range");
}

#[test]
fn rules_of_one_number_stay_in_the_order_of_the_answer() {
    let acl = acl(vec![
        NetworkAclEntry {
            cidr_block: text("10.0.0.0/8"),
            ..entry(100)
        },
        entry(50),
        NetworkAclEntry {
            cidr_block: text("192.168.0.0/16"),
            ..entry(100)
        },
    ]);

    let rules =
        map_network_acl_rules(&acl).unwrap_or_else(|error| panic!("expected Ok: {error:?}"));

    let cidrs: Vec<&str> = rules.iter().map(|rule| rule.cidr.as_str()).collect();
    assert_eq!(cidrs, vec!["0.0.0.0/0", "10.0.0.0/8", "192.168.0.0/16"]);
}
