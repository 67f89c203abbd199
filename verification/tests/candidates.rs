//! Assembling path candidates.
use aws_net_hound::evaluate::candidates::{route_exists, EniNode};

fn eni(id: &str, vpc_id: &str, subnet_id: &str, route_table_id: Option<&str>) -> EniNode {
    EniNode {
        id: id.to_string(),
        vpc_id: vpc_id.to_string(),
        subnet_id: subnet_id.to_string(),
        private_ip: "10.0.0.1".to_string(),
        security_group_ids: Vec::new(),
        egress_rules: Vec::new(),
        ingress_rules: Vec::new(),
        nacl_rules: Vec::new(),
        route_table_id: route_table_id.map(str::to_string),
    }
}

#[test]
fn route_exists_same_subnet_is_always_true() {
    // Arrange
    let source = eni("eni-a", "vpc-1", "subnet-1", None);
    let destination = eni("eni-b", "vpc-1", "subnet-1", None);
    let targets = Vec::new();

    // Act
    let exists = route_exists(&source, &destination, &targets);

    // Assert
    assert!(exists);
}

#[test]
fn route_exists_no_route_table_returns_false() {
    // Arrange
    let source = eni("eni-a", "vpc-1", "subnet-1", None);
    let destination = eni("eni-b", "vpc-1", "subnet-2", None);
    let targets = Vec::new();

    // Act
    let exists = route_exists(&source, &destination, &targets);

    // Assert
    assert!(!exists);
}

#[test]
fn route_exists_shared_local_vpc_target_returns_true() {
    // Arrange
    let source = eni("eni-a", "vpc-1", "subnet-1", Some("rtb-a"));
    let destination = eni("eni-b", "vpc-1", "subnet-2", Some("rtb-b"));
    let mut targets = Vec::new();
    targets.push(("rtb-a".to_string(), vec!["vpc-1".to_string()]));
    targets.push(("rtb-b".to_string(), vec!["vpc-1".to_string()]));

    // Act
    let exists = route_exists(&source, &destination, &targets);

    // Assert
    assert!(exists);
}

#[test]
fn route_exists_unresolved_route_returns_false() {
    // Arrange
    let source = eni("eni-a", "vpc-1", "subnet-1", Some("rtb-a"));
    let destination = eni("eni-b", "vpc-2", "subnet-2", Some("rtb-b"));
    let targets = Vec::new();

    // Act
    let exists = route_exists(&source, &destination, &targets);

    // Assert
    assert!(!exists);
}
