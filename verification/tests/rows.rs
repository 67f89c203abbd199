//! Reading rules and interfaces back out of the graph.
use aws_net_hound::domain::rule::{Action, Direction, NaclRule, PortRange, RuleTarget, SgRule};
use aws_net_hound::error::CandidateAssemblyError;
use aws_net_hound::evaluate::candidates::{assemble_candidates, BoundarySelectors, EniNode};
use aws_net_hound::evaluate::rows::{
    eni_from_row, nacl_rule_from_props, sg_rule_from_props, EniRow,
};
use aws_net_hound::evaluate::Protocol;
use aws_net_hound::graph::neo4j::{nacl_rule_row, sg_rule_row};
use aws_net_hound::graph::props::{Prop, Props};
use aws_net_hound::net::IpAddr;

fn sg_rule(target: RuleTarget, resolved: bool, port_range: Option<PortRange>) -> SgRule {
    SgRule {
        direction: Direction::Ingress,
        protocol: "tcp".to_string(),
        port_range,
        target,
        resolved,
    }
}

#[test]
fn security_group_rule_survives_the_graph() {
    let rules = [
        sg_rule(
            RuleTarget::Cidr {
                cidr: "10.0.0.0/8".to_string(),
            },
            true,
            PortRange::new(80, 443).ok(),
        ),
        sg_rule(
            RuleTarget::SecurityGroupRef {
                security_group_id: "sg-2".to_string(),
            },
            false,
            None,
        ),
    ];
    for rule in rules {
        let row = sg_rule_row("sg-1", &rule);

        assert_eq!(sg_rule_from_props(&row, Direction::Ingress).ok(), Some(rule));
    }
}

#[test]
fn network_acl_rule_survives_the_graph() {
    let rule = NaclRule {
        rule_number: 32767,
        direction: Direction::Egress,
        protocol: "-1".to_string(),
        port_range: None,
        cidr: "::/0".to_string(),
        action: Action::Deny,
    };

    let row = nacl_rule_row("acl-1", &rule);

    assert_eq!(row.get("rule_number"), Some(&Prop::Integer(32767)));
    assert_eq!(nacl_rule_from_props(&row).ok(), Some(rule));
}

#[test]
fn rule_without_a_protocol_is_malformed() {
    let row = Props::new().with("target_kind", Prop::Text("cidr".to_string()));

    assert!(matches!(
        sg_rule_from_props(&row, Direction::Egress),
        Err(CandidateAssemblyError::MalformedRow { field: "protocol" })
    ));
}

fn row() -> EniRow {
    EniRow {
        eni_id: Ok("eni-1".to_string()),
        vpc_id: Ok("vpc-1".to_string()),
        subnet_id: Ok("subnet-1".to_string()),
        private_ip: Ok("10.0.0.5".to_string()),
        route_table_id: None,
        security_group_ids: Ok(vec!["sg-1".to_string()]),
        egress_rules: Ok(Vec::new()),
        ingress_rules: Ok(Vec::new()),
        nacl_rules: Ok(Vec::new()),
    }
}

#[test]
fn interface_is_read_from_its_row() {
    let eni = eni_from_row(row()).unwrap_or_else(|error| panic!("expected Ok: {error:?}"));

    assert_eq!(eni.id, "eni-1");
    assert_eq!(eni.security_group_ids, vec!["sg-1"]);
    assert_eq!(eni.route_table_id, None);
}

#[test]
fn column_that_cannot_be_read_is_an_error() {
    let row = EniRow {
        vpc_id: Err(neo4rs::DeError::NoSuchProperty),
        ..row()
    };

    assert!(matches!(
        eni_from_row(row),
        Err(CandidateAssemblyError::Deserialize {
            source: neo4rs::DeError::NoSuchProperty,
        })
    ));
}

fn interface(id: &str, vpc_id: &str, private_ip: &str) -> EniNode {
    let row = EniRow {
        eni_id: Ok(id.to_string()),
        vpc_id: Ok(vpc_id.to_string()),
        private_ip: Ok(private_ip.to_string()),
        ..row()
    };
    eni_from_row(row).unwrap_or_else(|error| panic!("expected Ok: {error:?}"))
}

#[test]
fn candidates_lead_into_the_boundary() {
    let enis = [
        interface("eni-1", "vpc-1", "10.0.0.5"),
        interface("eni-2", "vpc-2", "10.0.0.6"),
    ];
    let vpc_ids = vec!["vpc-2".to_string()];

    let candidates = assemble_candidates(
        &enis,
        &[],
        "boundary-1",
        BoundarySelectors {
            vpc_ids: &vpc_ids,
            cidrs: &[],
            tags: &[],
        },
    );

    let paths: Vec<(&str, &str)> = candidates
        .iter()
        .map(|candidate| {
            (
                candidate.source.eni_id.as_str(),
                candidate.destination.eni_id.as_str(),
            )
        })
        .collect();
    assert_eq!(paths, vec![("eni-1", "eni-2")]);
    assert!(candidates[0].route_exists);
    assert_eq!(candidates[0].destination_boundary, "boundary-1");
    assert_eq!(candidates[0].traffic.protocol, Protocol::All);
    assert_eq!(
        candidates[0].traffic.peer_address,
        IpAddr::V4(u32::from_be_bytes([10, 0, 0, 5]))
    );
}
