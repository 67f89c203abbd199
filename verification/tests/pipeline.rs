//! Planning and finishing an ingestion run.
use std::time::Duration;

use aws_net_hound::error::{ErrorSource, GraphWriteError, IngestError};
use aws_net_hound::graph::plan::GraphWrite;
use aws_net_hound::ingest::aws::{
    GroupIdentifier, IpPermission, IpRange, NetworkAcl, NetworkAclEntry, NetworkInterface,
    RuleAction, SecurityGroup, UserIdGroupPair, VpcPeeringConnection,
};
use aws_net_hound::ingest::collect::drain_pages;
use aws_net_hound::ingest::pipeline::{
    finish_ingest, plan_ingest, CollectedResources, IngestPlan, IngestReport, IngestWarningReason,
    ResourceKind,
};

const ACCOUNT_ID: &str = "123456789012";

fn text(value: &str) -> Option<String> {
    Some(value.to_string())
}

fn ip_permission() -> IpPermission {
    IpPermission {
        ip_protocol: None,
        from_port: None,
        to_port: None,
        ip_ranges: Vec::new(),
        ipv6_ranges: Vec::new(),
        user_id_group_pairs: Vec::new(),
    }
}

fn security_group() -> SecurityGroup {
    SecurityGroup {
        group_id: None,
        vpc_id: None,
        group_name: None,
        description: None,
        ip_permissions: Vec::new(),
        ip_permissions_egress: Vec::new(),
    }
}

fn nothing() -> CollectedResources {
    CollectedResources {
        security_groups: Vec::new(),
        network_acls: Vec::new(),
        route_tables: Vec::new(),
        network_interfaces: Vec::new(),
        vpc_peering_connections: Vec::new(),
    }
}

fn group() -> SecurityGroup {
    SecurityGroup {
        group_id: text("sg-1"),
        vpc_id: text("vpc-1"),
        group_name: text("sg"),
        ..security_group()
    }
}

fn planned(resources: CollectedResources) -> IngestPlan {
    plan_ingest(ACCOUNT_ID, resources).unwrap_or_else(|error| panic!("expected Ok: {error:?}"))
}

fn reported(resources: CollectedResources) -> IngestReport {
    finish_ingest(planned(resources), Ok(()), Duration::from_secs(7))
        .unwrap_or_else(|error| panic!("expected Ok: {error:?}"))
}

fn count(report: &IngestReport, kind: ResourceKind) -> usize {
    report
        .counts
        .iter()
        .find(|(counted, _)| *counted == kind)
        .map(|(_, count)| *count)
        .unwrap_or_else(|| panic!("no count of {kind:?}"))
}

fn node_count(writes: &[GraphWrite]) -> usize {
    writes
        .iter()
        .map(|write| match write {
            GraphWrite::Enis(records) => records.len(),
            GraphWrite::SecurityGroups(records) => records.len(),
            GraphWrite::NetworkAcls(records) => records.len(),
            GraphWrite::Subnets(records) => records.len(),
            GraphWrite::Vpcs(records) => records.len(),
            GraphWrite::RouteTables(records) => records.len(),
            _ => 0,
        })
        .sum()
}

#[test]
fn run_full_ingest_empty_account_returns_zero_counts_not_error() {
    let report = reported(nothing());

    assert!(report.counts.iter().all(|(_, count)| *count == 0));
    assert_eq!(report.counts.len(), 5);
    assert_eq!(report.unresolved_references, 0);
    assert!(report.non_fatal.is_empty());
    assert_eq!(report.duration, Duration::from_secs(7));
}

fn account_with_an_interface() -> CollectedResources {
    CollectedResources {
        security_groups: vec![group()],
        network_interfaces: vec![NetworkInterface {
            network_interface_id: text("eni-1"),
            vpc_id: text("vpc-1"),
            subnet_id: text("subnet-1"),
            private_ip_address: text("10.0.0.5"),
            description: None,
            groups: vec![GroupIdentifier {
                group_id: text("sg-1"),
            }],
        }],
        ..nothing()
    }
}

#[test]
fn run_full_ingest_with_mocked_responses_returns_expected_counts_per_type() {
    let plan = planned(account_with_an_interface());
    let nodes = node_count(&plan.writes);

    let report = finish_ingest(plan, Ok(()), Duration::ZERO)
        .unwrap_or_else(|error| panic!("expected Ok: {error:?}"));

    assert_eq!(count(&report, ResourceKind::Eni), 1);
    assert_eq!(count(&report, ResourceKind::SecurityGroup), 1);
    assert_eq!(nodes, 4);
}

#[test]
fn run_full_ingest_cross_account_sg_reference_increments_unresolved_count() {
    let resources = CollectedResources {
        security_groups: vec![SecurityGroup {
            ip_permissions: vec![IpPermission {
                ip_protocol: text("-1"),
                user_id_group_pairs: vec![UserIdGroupPair {
                    group_id: text("sg-2"),
                    user_id: text("999999999999"),
                }],
                ..ip_permission()
            }],
            ..group()
        }],
        ..nothing()
    };

    let report = reported(resources);

    assert_eq!(report.unresolved_references, 1);
}

#[test]
fn run_full_ingest_single_unmappable_resource_records_warning_and_completes() {
    let resources = CollectedResources {
        security_groups: vec![group()],
        network_interfaces: vec![NetworkInterface {
            network_interface_id: text("eni-bad"),
            vpc_id: text("vpc-1"),
            subnet_id: None,
            private_ip_address: text("10.0.0.5"),
            description: None,
            groups: Vec::new(),
        }],
        ..nothing()
    };

    let report = reported(resources);

    assert_eq!(report.non_fatal.len(), 1);
    assert_eq!(report.non_fatal[0].resource_id, "eni-bad");
    assert!(matches!(
        report.non_fatal[0].reason,
        IngestWarningReason::InvalidField {
            field: "subnet_id",
            ..
        }
    ));
    assert_eq!(count(&report, ResourceKind::SecurityGroup), 1);
}

#[test]
fn run_full_ingest_graph_write_failure_returns_err_not_partial_report() {
    let written = Err(GraphWriteError::Write {
        source: ErrorSource::Message("simulated write failure".to_string()),
    });

    let result = finish_ingest(planned(nothing()), written, Duration::ZERO);

    assert!(matches!(result, Err(IngestError::Write { .. })));
}

fn inverted_rule() -> IpPermission {
    IpPermission {
        ip_protocol: text("tcp"),
        from_port: Some(443),
        to_port: Some(80),
        ip_ranges: vec![IpRange {
            cidr_ip: text("0.0.0.0/0"),
        }],
        ..ip_permission()
    }
}

fn bad_group() -> SecurityGroup {
    SecurityGroup {
        group_id: text("sg-bad"),
        ip_permissions: vec![inverted_rule()],
        ..group()
    }
}

fn interface(groups: &[Option<&str>]) -> NetworkInterface {
    NetworkInterface {
        network_interface_id: text("eni-1"),
        vpc_id: text("vpc-1"),
        subnet_id: text("subnet-1"),
        private_ip_address: text("10.0.0.5"),
        description: None,
        groups: groups
            .iter()
            .map(|group_id| GroupIdentifier {
                group_id: group_id.map(str::to_string),
            })
            .collect(),
    }
}

fn warned(report: &IngestReport) -> Vec<(&str, ResourceKind, &str)> {
    report
        .non_fatal
        .iter()
        .map(|warning| match &warning.reason {
            IngestWarningReason::InvalidField { field, .. } => {
                (warning.resource_id.as_str(), warning.resource_kind, *field)
            }
            other => panic!("unexpected reason {other:?}"),
        })
        .collect()
}

#[test]
fn a_rule_that_cannot_be_mapped_leaves_its_group_out() {
    let report = reported(CollectedResources {
        security_groups: vec![group(), bad_group()],
        ..nothing()
    });

    assert_eq!(report.non_fatal.len(), 1);
    assert_eq!(report.non_fatal[0].resource_id, "sg-bad");
    assert_eq!(report.non_fatal[0].resource_kind, ResourceKind::SecurityGroup);
    assert_eq!(count(&report, ResourceKind::SecurityGroup), 1);
}

#[test]
fn an_entry_that_cannot_be_mapped_leaves_its_acl_out() {
    let acl = |id: &str, rule_number: i32| NetworkAcl {
        network_acl_id: text(id),
        vpc_id: text("vpc-1"),
        is_default: Some(false),
        entries: vec![NetworkAclEntry {
            rule_number: Some(rule_number),
            protocol: text("-1"),
            port_range: None,
            cidr_block: text("0.0.0.0/0"),
            ipv6_cidr_block: None,
            egress: Some(false),
            rule_action: Some(RuleAction::Allow),
        }],
        associations: Vec::new(),
    };

    let report = reported(CollectedResources {
        network_acls: vec![acl("acl-1", 100), acl("acl-bad", 70000)],
        ..nothing()
    });

    assert_eq!(
        warned(&report),
        vec![("acl-bad", ResourceKind::NetworkAcl, "rule_number")]
    );
    assert_eq!(count(&report, ResourceKind::NetworkAcl), 1);
}

#[test]
fn a_membership_that_cannot_be_mapped_leaves_its_interface_out() {
    let report = reported(CollectedResources {
        security_groups: vec![group()],
        network_interfaces: vec![interface(&[Some("sg-1"), None])],
        ..nothing()
    });

    assert_eq!(
        warned(&report),
        vec![("eni-1", ResourceKind::Eni, "groups[].group_id")]
    );
    assert_eq!(count(&report, ResourceKind::Eni), 0);
    assert_eq!(count(&report, ResourceKind::SecurityGroup), 1);
}

#[test]
fn the_error_of_a_node_comes_before_that_of_its_edges() {
    let report = reported(CollectedResources {
        network_interfaces: vec![NetworkInterface {
            subnet_id: None,
            ..interface(&[None])
        }],
        ..nothing()
    });

    assert_eq!(
        warned(&report),
        vec![("eni-1", ResourceKind::Eni, "subnet_id")]
    );
}

#[test]
fn no_edge_needs_a_group_that_was_left_out() {
    let reference = |group_id: &str| IpPermission {
        ip_protocol: text("-1"),
        user_id_group_pairs: vec![UserIdGroupPair {
            group_id: text(group_id),
            user_id: text(ACCOUNT_ID),
        }],
        ..ip_permission()
    };
    let plan = planned(CollectedResources {
        security_groups: vec![
            SecurityGroup {
                ip_permissions: vec![reference("sg-1"), reference("sg-bad")],
                ip_permissions_egress: vec![reference("sg-bad")],
                ..group()
            },
            bad_group(),
        ],
        network_interfaces: vec![interface(&[Some("sg-1")])],
        ..nothing()
    });

    let mut memberships = Vec::new();
    let mut resolved = Vec::new();
    for write in &plan.writes {
        match write {
            GraphWrite::HasSg(edges) => {
                memberships.extend(edges.iter().map(|edge| edge.security_group_id.as_str()));
            }
            GraphWrite::AllowsIngress(groups) | GraphWrite::AllowsEgress(groups) => {
                for (owner, rules) in groups {
                    assert_eq!(owner, "sg-1");
                    resolved.extend(rules.iter().map(|rule| rule.resolved));
                }
            }
            _ => {}
        }
    }
    assert_eq!(memberships, vec!["sg-1"]);
    assert_eq!(resolved.len(), 3);
    assert_eq!(resolved.iter().filter(|resolved| **resolved).count(), 1);
    assert_eq!(plan.unresolved_references, 2);
    assert_eq!(plan.non_fatal.len(), 1);
}

#[test]
fn an_interface_is_left_out_with_a_group_that_is() {
    let report = reported(CollectedResources {
        security_groups: vec![group(), bad_group()],
        network_interfaces: vec![
            interface(&[Some("sg-1"), Some("sg-bad")]),
            NetworkInterface {
                network_interface_id: text("eni-2"),
                ..interface(&[Some("sg-1")])
            },
        ],
        ..nothing()
    });

    let ids: Vec<&str> = report
        .non_fatal
        .iter()
        .map(|warning| warning.resource_id.as_str())
        .collect();
    assert_eq!(ids, vec!["eni-1", "sg-bad"]);
    assert_eq!(
        report.non_fatal[0].reason,
        IngestWarningReason::InvalidField {
            field: "groups[].group_id",
            reason: "security group sg-bad could not be mapped".to_string(),
        }
    );
    assert_eq!(count(&report, ResourceKind::Eni), 1);
    assert_eq!(count(&report, ResourceKind::SecurityGroup), 1);
}

#[test]
fn a_group_of_which_another_copy_is_kept_is_not_missing() {
    let report = reported(CollectedResources {
        security_groups: vec![
            group(),
            SecurityGroup {
                group_id: text("sg-1"),
                ..bad_group()
            },
        ],
        network_interfaces: vec![interface(&[Some("sg-1")])],
        ..nothing()
    });

    assert_eq!(report.non_fatal.len(), 1);
    assert_eq!(count(&report, ResourceKind::Eni), 1);
}

#[test]
fn a_group_that_was_never_collected_stays_referenced() {
    let plan = planned(CollectedResources {
        security_groups: vec![group()],
        network_interfaces: vec![interface(&[Some("sg-elsewhere")])],
        ..nothing()
    });

    assert!(plan.writes.iter().any(|write| matches!(
        write,
        GraphWrite::HasSg(edges) if edges.len() == 1
            && edges[0].security_group_id == "sg-elsewhere"
    )));
    assert!(plan.non_fatal.is_empty());
}

#[test]
fn nodes_are_written_before_edges() {
    let plan = planned(account_with_an_interface());

    let first_edge = plan
        .writes
        .iter()
        .position(|write| matches!(write, GraphWrite::HasSg(_)));
    let last_node = plan
        .writes
        .iter()
        .position(|write| matches!(write, GraphWrite::RouteTables(_)));
    assert!(last_node < first_edge);
    assert_eq!(plan.writes.len(), 14);
}

fn page(group_id: &str) -> Result<Vec<SecurityGroup>, anyhow::Error> {
    Ok(vec![SecurityGroup {
        group_id: text(group_id),
        ..security_group()
    }])
}

#[test]
fn collect_security_groups_multi_page_response_returns_all_items() {
    let pages = vec![page("sg-1"), page("sg-2"), page("sg-3")];

    let result = drain_pages("DescribeSecurityGroups", pages);

    let security_groups = match result {
        Ok(security_groups) => security_groups,
        Err(err) => panic!("expected all three pages to collect, got {err:?}"),
    };
    let group_ids: Vec<Option<&str>> = security_groups
        .iter()
        .map(|group| group.group_id.as_deref())
        .collect();
    assert_eq!(group_ids, vec![Some("sg-1"), Some("sg-2"), Some("sg-3")]);
}

#[test]
fn collect_security_groups_single_empty_page_returns_empty_vec() {
    let pages: Vec<Result<Vec<SecurityGroup>, anyhow::Error>> = vec![Ok(Vec::new())];

    let result = drain_pages("DescribeSecurityGroups", pages);

    let security_groups = match result {
        Ok(security_groups) => security_groups,
        Err(err) => panic!("expected an empty page to collect as an empty Vec, got {err:?}"),
    };
    assert_eq!(security_groups, Vec::<SecurityGroup>::new());
}

#[test]
fn collect_network_acls_persistent_error_returns_ingest_error() {
    let pages: Vec<Result<Vec<SecurityGroup>, anyhow::Error>> =
        vec![Err(anyhow::Error::msg("AuthFailure"))];

    let result = drain_pages("DescribeNetworkAcls", pages);

    match result {
        Err(IngestError::Describe { operation, .. }) => {
            assert_eq!(operation, "DescribeNetworkAcls");
        }
        other => panic!("expected IngestError::Describe naming the operation, got {other:?}"),
    }
}

#[test]
fn collect_network_interfaces_multi_page_response_returns_all_items() {
    let page = |id: &str| {
        Ok(vec![NetworkInterface {
            network_interface_id: text(id),
            vpc_id: None,
            subnet_id: None,
            private_ip_address: None,
            description: None,
            groups: Vec::new(),
        }])
    };

    let result = drain_pages(
        "DescribeNetworkInterfaces",
        vec![page("eni-1"), page("eni-2")],
    );

    let network_interfaces = match result {
        Ok(network_interfaces) => network_interfaces,
        Err(err) => panic!("expected both pages to collect, got {err:?}"),
    };
    let interface_ids: Vec<Option<&str>> = network_interfaces
        .iter()
        .map(|eni| eni.network_interface_id.as_deref())
        .collect();
    assert_eq!(interface_ids, vec![Some("eni-1"), Some("eni-2")]);
}

#[test]
fn collect_vpc_peering_connections_multi_page_response_returns_all_items() {
    let page = |id: &str| {
        Ok(vec![VpcPeeringConnection {
            vpc_peering_connection_id: text(id),
            requester_vpc_info: None,
            accepter_vpc_info: None,
        }])
    };

    let result = drain_pages(
        "DescribeVpcPeeringConnections",
        vec![page("pcx-1"), page("pcx-2")],
    );

    let peerings = match result {
        Ok(peerings) => peerings,
        Err(err) => panic!("expected both pages to collect, got {err:?}"),
    };
    let ids: Vec<Option<&str>> = peerings
        .iter()
        .map(|peering| peering.vpc_peering_connection_id.as_deref())
        .collect();
    assert_eq!(ids, vec![Some("pcx-1"), Some("pcx-2")]);
}

#[test]
fn a_page_that_fails_fails_the_whole() {
    let pages = vec![page("sg-1"), Err(anyhow::Error::msg("throttled")), page("sg-3")];

    let result = drain_pages("DescribeSecurityGroups", pages);

    assert!(matches!(
        result,
        Err(IngestError::Describe {
            operation: "DescribeSecurityGroups",
            source,
        }) if source.to_string() == "throttled"
    ));
}
