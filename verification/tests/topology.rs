//! Building the graph of an account.
use aws_net_hound::graph::model::{Edge, GraphBatch};
use aws_net_hound::ingest::aws::{
    GroupIdentifier, NetworkAcl, NetworkAclAssociation, NetworkAclEntry, NetworkInterface,
    PeeringVpcInfo, Route, RouteTable, RouteTableAssociation, RuleAction, SecurityGroup,
    VpcPeeringConnection,
};
use aws_net_hound::ingest::map::topology::build_graph_batch;
use aws_net_hound::ports::{InSubnetEdge, ProtectedByEdge, UsesRouteTableEdge};

const ACCOUNT_ID: &str = "123456789012";
const OTHER_ACCOUNT_ID: &str = "999999999999";

fn text(value: &str) -> Option<String> {
    Some(value.to_string())
}

fn route() -> Route {
    Route {
        destination_cidr_block: None,
        destination_ipv6_cidr_block: None,
        gateway_id: None,
        vpc_peering_connection_id: None,
    }
}

fn route_table() -> RouteTable {
    RouteTable {
        route_table_id: None,
        vpc_id: None,
        associations: Vec::new(),
        routes: Vec::new(),
    }
}

fn security_group() -> SecurityGroup {
    SecurityGroup {
        group_id: None,
        vpc_id: None,
        group_name: None,
        description: None,
        ip_permissions: Vec::new(),
        ip_permissions_egress: Vec::new(),
    }
}

fn network_acl() -> NetworkAcl {
    NetworkAcl {
        network_acl_id: None,
        vpc_id: None,
        is_default: None,
        entries: Vec::new(),
        associations: Vec::new(),
    }
}

fn eni() -> NetworkInterface {
    NetworkInterface {
        network_interface_id: text("eni-1"),
        vpc_id: text("vpc-1"),
        subnet_id: text("subnet-1"),
        private_ip_address: text("10.0.0.5"),
        description: None,
        groups: Vec::new(),
    }
}

fn member_of(group_id: &str) -> GroupIdentifier {
    GroupIdentifier {
        group_id: text(group_id),
    }
}

fn acl_of_vpc() -> NetworkAcl {
    NetworkAcl {
        network_acl_id: text("acl-1"),
        vpc_id: text("vpc-1"),
        is_default: Some(false),
        ..network_acl()
    }
}

fn built(
    security_groups: &[SecurityGroup],
    network_acls: &[NetworkAcl],
    route_tables: &[RouteTable],
    network_interfaces: &[NetworkInterface],
    peerings: &[VpcPeeringConnection],
) -> GraphBatch {
    build_graph_batch(
        ACCOUNT_ID,
        security_groups,
        network_acls,
        route_tables,
        network_interfaces,
        peerings,
    )
    .unwrap_or_else(|error| panic!("expected Ok: {error:?}"))
}

#[test]
fn build_graph_batch_eni_with_two_groups_emits_two_has_sg_edges() {
    let eni = NetworkInterface {
        groups: vec![member_of("sg-1"), member_of("sg-2")],
        ..eni()
    };

    let batch = built(&[], &[], &[], &[eni], &[]);

    let has_sg_ids: Vec<&str> = batch
        .edges
        .iter()
        .filter_map(|edge| match edge {
            Edge::HasSg(edge) => Some(edge.security_group_id.as_str()),
            _ => None,
        })
        .collect();
    assert_eq!(has_sg_ids, vec!["sg-1", "sg-2"]);
}

#[test]
fn build_graph_batch_eni_emits_in_subnet_edge() {
    let batch = built(&[], &[], &[], &[eni()], &[]);

    assert!(batch.edges.contains(&Edge::InSubnet(InSubnetEdge {
        eni_id: "eni-1".to_string(),
        subnet_id: "subnet-1".to_string(),
    })));
}

#[test]
fn build_graph_batch_nacl_association_emits_protected_by_edge() {
    let acl = NetworkAcl {
        associations: vec![NetworkAclAssociation {
            subnet_id: text("subnet-1"),
        }],
        ..acl_of_vpc()
    };

    let batch = built(&[], &[acl], &[], &[], &[]);

    assert!(batch.edges.contains(&Edge::ProtectedBy(ProtectedByEdge {
        subnet_id: "subnet-1".to_string(),
        network_acl_id: "acl-1".to_string(),
    })));
}

#[test]
fn build_graph_batch_route_table_association_emits_uses_route_table_edge() {
    let route_table = RouteTable {
        route_table_id: text("rtb-1"),
        vpc_id: text("vpc-1"),
        associations: vec![RouteTableAssociation {
            subnet_id: text("subnet-1"),
            main: Some(false),
        }],
        ..route_table()
    };

    let batch = built(&[], &[], &[route_table], &[], &[]);

    assert!(batch
        .edges
        .contains(&Edge::UsesRouteTable(UsesRouteTableEdge {
            subnet_id: "subnet-1".to_string(),
            route_table_id: "rtb-1".to_string(),
        })));
}

#[test]
fn build_graph_batch_main_route_table_without_association_is_recorded_not_dropped() {
    let route_table = RouteTable {
        route_table_id: text("rtb-1"),
        vpc_id: text("vpc-1"),
        associations: vec![RouteTableAssociation {
            subnet_id: None,
            main: Some(true),
        }],
        ..route_table()
    };

    let batch = built(&[], &[], &[route_table], &[], &[]);

    assert_eq!(batch.route_tables.len(), 1);
    assert!(batch.route_tables[0].is_main);
    assert!(!batch
        .edges
        .iter()
        .any(|edge| matches!(edge, Edge::UsesRouteTable(edge) if edge.route_table_id == "rtb-1")));
}

fn peered(accepter_owner: &str) -> (RouteTable, VpcPeeringConnection) {
    let route_table = RouteTable {
        route_table_id: text("rtb-1"),
        vpc_id: text("vpc-a"),
        routes: vec![Route {
            destination_cidr_block: text("10.0.0.0/16"),
            vpc_peering_connection_id: text("pcx-1"),
            ..route()
        }],
        ..route_table()
    };
    let peering = VpcPeeringConnection {
        vpc_peering_connection_id: text("pcx-1"),
        requester_vpc_info: Some(PeeringVpcInfo {
            vpc_id: text("vpc-a"),
            owner_id: text(ACCOUNT_ID),
        }),
        accepter_vpc_info: Some(PeeringVpcInfo {
            vpc_id: text("vpc-b"),
            owner_id: text(accepter_owner),
        }),
    };
    (route_table, peering)
}

#[test]
fn build_graph_batch_route_to_peering_in_other_account_marks_resolved_false() {
    let (route_table, peering) = peered(OTHER_ACCOUNT_ID);

    let batch = built(&[], &[], &[route_table], &[], &[peering]);

    let routes_to = batch
        .edges
        .iter()
        .find_map(|edge| match edge {
            Edge::RoutesTo(edge) => Some(edge),
            _ => None,
        })
        .unwrap_or_else(|| panic!("expected a RoutesTo edge in {:?}", batch.edges));
    assert!(!routes_to.resolved);
    assert_eq!(routes_to.target_vpc_id, None);
}

#[test]
fn route_to_peering_in_the_same_account_reaches_the_other_side() {
    let (route_table, peering) = peered(ACCOUNT_ID);

    let batch = built(&[], &[], &[route_table], &[], &[peering]);

    let routes_to: Vec<_> = batch
        .edges
        .iter()
        .filter_map(|edge| match edge {
            Edge::RoutesTo(edge) => Some((edge.target_vpc_id.clone(), edge.resolved)),
            _ => None,
        })
        .collect();
    assert_eq!(routes_to, vec![(text("vpc-b"), true)]);
    let vpc_ids: Vec<&str> = batch.vpcs.iter().map(|vpc| vpc.id.as_str()).collect();
    assert_eq!(vpc_ids, vec!["vpc-a", "vpc-b"]);
}

#[test]
fn build_graph_batch_vpc_seen_in_multiple_responses_is_deduplicated() {
    let sg = SecurityGroup {
        group_id: text("sg-1"),
        vpc_id: text("vpc-1"),
        group_name: text("sg"),
        ..security_group()
    };

    let batch = built(&[sg], &[acl_of_vpc()], &[], &[], &[]);

    assert_eq!(batch.vpcs.len(), 1);
    assert_eq!(batch.vpcs[0].id, "vpc-1");
}

#[test]
fn build_graph_batch_nacl_rules_carry_rule_number_on_has_rule_edge() {
    let entry = |rule_number: i32| NetworkAclEntry {
        rule_number: Some(rule_number),
        protocol: text("tcp"),
        port_range: None,
        cidr_block: text("0.0.0.0/0"),
        ipv6_cidr_block: None,
        egress: Some(false),
        rule_action: Some(RuleAction::Allow),
    };
    let acl = NetworkAcl {
        entries: vec![entry(100), entry(200)],
        ..acl_of_vpc()
    };

    let batch = built(&[], &[acl], &[], &[], &[]);

    let mut rule_numbers: Vec<u16> = batch
        .edges
        .iter()
        .filter_map(|edge| match edge {
            Edge::HasRule { rule, .. } => Some(rule.rule_number),
            _ => None,
        })
        .collect();
    rule_numbers.sort_unstable();
    assert_eq!(rule_numbers, vec![100, 200]);
}

#[test]
fn build_graph_batch_empty_inputs_returns_empty_batch() {
    let batch = built(&[], &[], &[], &[], &[]);

    assert_eq!(batch, GraphBatch::default());
}
