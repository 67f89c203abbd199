//! Writing to the graph.
use aws_net_hound::domain::rule::{Action, Direction, NaclRule, PortRange, RuleTarget, SgRule};
use aws_net_hound::error::{ErrorSource, GraphWriteError};
use aws_net_hound::graph::groups::group_rule_edges;
use aws_net_hound::graph::model::Edge;
use aws_net_hound::graph::neo4j::{
    allows_upserts, check_merged, chunk_rows, has_rule_upsert, node_upsert_query,
    routes_to_upserts, BATCH_SIZE,
};
use aws_net_hound::graph::plan::GraphWrite;
use aws_net_hound::graph::props::Prop;
use aws_net_hound::graph::statement::{statements_for, SentRows};
use aws_net_hound::graph::upsert::{boundary_upsert, upserts_for, Upsert};
use aws_net_hound::ports::{
    HasSgEdge, NaclRuleBatch, RegulatedBoundaryRecord, RoutesToEdge, SgRuleBatch, VpcRecord,
};

#[test]
fn chunk_rows_splits_at_batch_size_boundary() {
    // Arrange
    let rows: Vec<u32> = (0..2500).collect();

    // Act
    let chunks: Vec<&[u32]> = chunk_rows(&rows, 1000);

    // Assert
    assert_eq!(chunks.len(), 3);
    assert_eq!(chunks[0].len(), 1000);
    assert_eq!(chunks[1].len(), 1000);
    assert_eq!(chunks[2].len(), 500);
}

#[test]
fn chunk_rows_empty_input_produces_no_statements() {
    // Arrange
    let rows: Vec<u32> = Vec::new();

    // Act
    let chunks: Vec<&[u32]> = chunk_rows(&rows, 1000);

    // Assert
    assert!(chunks.is_empty());
}

fn message(error: GraphWriteError) -> String {
    match error {
        GraphWriteError::Write {
            source: ErrorSource::Message(text),
        } => text,
        other => panic!("unexpected error {other:?}"),
    }
}

fn reference_rule(security_group_id: &str, port: u16, resolved: bool) -> SgRule {
    SgRule {
        direction: Direction::Egress,
        protocol: "tcp".to_string(),
        port_range: Some(PortRange::new(port, port).expect("valid port range")),
        target: RuleTarget::SecurityGroupRef {
            security_group_id: security_group_id.to_string(),
        },
        resolved,
    }
}

#[test]
fn write_sg_rule_resolved_reference_to_real_group_creates_real_edge() {
    let rules = vec![reference_rule("sg-2", 5432, true)];
    let batches = [SgRuleBatch {
        security_group_id: "sg-1",
        rules: &rules,
    }];

    let plan = allows_upserts(&batches, Direction::Egress);
    let sent: Vec<usize> = plan.iter().map(|upsert| upsert.rows.len()).collect();
    let result = check_merged(plan[1].edge_type, sent[1], Some(1));

    assert_eq!(sent, vec![0, 1, 0]);
    assert_eq!(plan[1].edge_type, "ALLOWS_EGRESS");
    assert!(plan[1].statement.contains("MATCH (b:SecurityGroup"));
    assert_eq!(
        plan[1].rows[0].get("security_group_id"),
        Some(&Prop::Text("sg-1".to_string()))
    );
    assert_eq!(
        plan[1].rows[0].get("target_security_group_id"),
        Some(&Prop::Text("sg-2".to_string()))
    );
    assert_eq!(plan[1].rows[0].get("resolved"), Some(&Prop::Boolean(true)));
    result.expect("allows_egress upsert");
}

#[test]
fn write_nacl_rules_with_distinct_rule_numbers_creates_distinct_has_rule_edges() {
    let rule = |rule_number: u16, action: Action| NaclRule {
        rule_number,
        direction: Direction::Ingress,
        protocol: "tcp".to_string(),
        port_range: Some(PortRange::new(22, 22).expect("valid port range")),
        cidr: "10.0.0.0/8".to_string(),
        action,
    };
    let rules = vec![rule(100, Action::Deny), rule(200, Action::Allow)];
    let batches = [NaclRuleBatch {
        network_acl_id: "acl-1",
        rules: &rules,
    }];

    let upsert = has_rule_upsert(&batches);

    assert_eq!(upsert.edge_type, "HAS_RULE");
    assert_eq!(upsert.rows.len(), 2);
    assert!(upsert.statement.contains("rule_number: row.rule_number"));
    let rule_numbers: Vec<Option<&Prop>> = upsert
        .rows
        .iter()
        .map(|row| row.get("rule_number"))
        .collect();
    assert_eq!(
        rule_numbers,
        vec![Some(&Prop::Integer(100)), Some(&Prop::Integer(200))]
    );
    check_merged(upsert.edge_type, upsert.rows.len(), Some(2)).expect("has_rule upsert");
}

#[test]
fn write_sg_rule_resolved_reference_to_missing_group_returns_graph_write_error() {
    let rules = vec![reference_rule("sg-missing", 5432, true)];
    let batches = [SgRuleBatch {
        security_group_id: "sg-1",
        rules: &rules,
    }];

    let plan = allows_upserts(&batches, Direction::Egress);
    let sent: Vec<usize> = plan.iter().map(|upsert| upsert.rows.len()).collect();
    let result = check_merged(plan[1].edge_type, sent[1], Some(0));

    assert_eq!(sent, vec![0, 1, 0]);
    assert!(plan[1].statement.contains("MATCH (b:SecurityGroup"));
    let error = result.expect_err("resolved reference to a missing group should error");
    assert!(message(error).contains("ALLOWS_EGRESS"));
}

#[test]
fn write_sg_rule_unresolved_reference_is_queryable_with_resolved_false() {
    let rules = vec![reference_rule("sg-cross-account", 443, false)];
    let batches = [SgRuleBatch {
        security_group_id: "sg-1",
        rules: &rules,
    }];

    let plan = allows_upserts(&batches, Direction::Egress);

    assert_eq!(plan[2].rows.len(), 1);
    assert!(!plan[2].statement.contains("(b:SecurityGroup"));
    assert_eq!(
        plan[2].rows[0].get("resolved"),
        Some(&Prop::Boolean(false))
    );
    assert_eq!(
        plan[2].rows[0].get("target_security_group_id"),
        Some(&Prop::Text("sg-cross-account".to_string()))
    );
}

#[test]
fn write_routes_to_edge_with_inconsistent_resolved_and_target_returns_graph_write_error() {
    let edges = [RoutesToEdge {
        route_table_id: "rtb-1".to_string(),
        destination_cidr: "10.0.0.0/16".to_string(),
        target_vpc_id: Some("vpc-1".to_string()),
        resolved: false,
    }];

    let result = routes_to_upserts(&edges);

    let error = result.expect_err("inconsistent resolved/target_vpc_id should error");
    let message = message(error);
    assert!(message.contains("ROUTES_TO"));
    assert_eq!(
        message,
        "ROUTES_TO edge for route_table_id=rtb-1 destination_cidr=10.0.0.0/16 is inconsistent: \
         target_vpc_id=Some(\"vpc-1\") but resolved=false"
    );
}

#[test]
fn write_batch_with_missing_endpoint_node_returns_graph_write_error() {
    let write = GraphWrite::HasSg(vec![HasSgEdge {
        eni_id: "eni-missing".to_string(),
        security_group_id: "sg-missing".to_string(),
    }]);

    let upserts = upserts_for(&write).unwrap_or_else(|error| panic!("expected Ok: {error:?}"));
    let [Upsert::Edges(upsert)] = upserts.as_slice() else {
        panic!("expected one statement, got {upserts:?}");
    };
    let result = check_merged(upsert.edge_type, upsert.rows.len(), Some(0));

    let error = result.expect_err("missing endpoints should error");
    let message = message(error);
    assert!(message.contains("HAS_SG"));
    assert_eq!(
        message,
        "HAS_SG upsert: 1 of 1 rows had an unresolved endpoint"
    );
}

fn many_edges(count: usize) -> Upsert {
    let edges = (0..count)
        .map(|i| HasSgEdge {
            eni_id: format!("eni-{i}"),
            security_group_id: "sg-1".to_string(),
        })
        .collect();
    let mut upserts = upserts_for(&GraphWrite::HasSg(edges))
        .unwrap_or_else(|error| panic!("expected Ok: {error:?}"));
    upserts.remove(0)
}

#[test]
fn rows_are_sent_in_runs() {
    let upsert = many_edges(2500);

    let statements = statements_for(&upsert);

    let sizes: Vec<usize> = statements
        .iter()
        .map(|statement| match statement.rows {
            SentRows::Edges { edge_type, rows } => {
                assert_eq!(edge_type, "HAS_SG");
                rows.len()
            }
            SentRows::Nodes(_) => panic!("expected edges"),
        })
        .collect();
    assert_eq!(sizes, vec![1000, 1000, 500]);
    assert!(statements
        .iter()
        .all(|statement| statement.text.contains("MERGE (a)-[r:HAS_SG]->(b)")));
    assert!(statements_for(&many_edges(0)).is_empty());
}

#[test]
fn answers_to_edges_are_judged_by_their_count() {
    let upsert = many_edges(3);
    let statements = statements_for(&upsert);
    let statement = &statements[0];

    assert!(statement.judge(Ok(Some(3))).is_ok());
    let missing = statement.judge(Ok(Some(1))).expect_err("two edges are missing");
    assert_eq!(
        message(missing),
        "HAS_SG upsert: 2 of 3 rows had an unresolved endpoint"
    );
    let silent = statement.judge(Ok(None)).expect_err("no count came back");
    assert_eq!(message(silent), "HAS_SG upsert returned no summary row");
    let failed = statement
        .judge(Err(anyhow::Error::new(neo4rs::Error::ConnectionError)))
        .expect_err("the statement failed");
    assert!(matches!(
        failed,
        GraphWriteError::Write { source: ErrorSource::Error(error) }
            if matches!(error.downcast_ref(), Some(neo4rs::Error::ConnectionError))
    ));
}

#[test]
fn answers_to_nodes_are_not_counted() {
    let upserts = upserts_for(&GraphWrite::Vpcs(vec![VpcRecord {
        id: "vpc-1".to_string(),
        account_id: "1".to_string(),
        cidr_block: String::new(),
    }]))
    .unwrap_or_else(|error| panic!("expected Ok: {error:?}"));
    let statements = statements_for(&upserts[0]);

    assert_eq!(statements.len(), 1);
    assert_eq!(statements[0].text, node_upsert_query("VPC"));
    assert!(statements[0].judge(Ok(None)).is_ok());
}

#[test]
fn answer_without_a_row_is_an_error() {
    let result = check_merged("IN_SUBNET", 3, None);

    let error = result.expect_err("no summary row should error");
    assert_eq!(message(error), "IN_SUBNET upsert returned no summary row");
}

#[test]
fn every_row_merged_is_no_error() {
    assert!(check_merged("IN_SUBNET", 3, Some(3)).is_ok());
    assert!(check_merged("IN_SUBNET", 0, Some(0)).is_ok());
}

#[test]
fn node_statement_names_the_label() {
    assert_eq!(
        node_upsert_query("VPC"),
        "UNWIND $rows AS row\nMERGE (n:VPC {id: row.id})\nSET n += row.props"
    );
}

#[test]
fn chunks_put_together_are_the_rows() {
    let rows: Vec<u32> = (0..2001).collect();

    let chunks = chunk_rows(&rows, BATCH_SIZE);

    let sizes: Vec<usize> = chunks.iter().map(|chunk| chunk.len()).collect();
    assert_eq!(sizes, vec![1000, 1000, 1]);
    assert_eq!(chunks.concat(), rows);
}

#[test]
fn node_rows_carry_key_and_properties() {
    let write = GraphWrite::Vpcs(vec![VpcRecord {
        id: "vpc-1".to_string(),
        account_id: "123456789012".to_string(),
        cidr_block: String::new(),
    }]);

    let upserts = upserts_for(&write).unwrap_or_else(|error| panic!("expected Ok: {error:?}"));

    let [Upsert::Nodes { label, rows }] = upserts.as_slice() else {
        panic!("expected one statement, got {upserts:?}");
    };
    assert_eq!(*label, "VPC");
    assert_eq!(rows.len(), 1);
    assert_eq!(rows[0].id, "vpc-1");
    assert_eq!(
        rows[0].props.get("account_id"),
        Some(&Prop::Text("123456789012".to_string()))
    );
    assert_eq!(rows[0].props.get("id"), None);
}

#[test]
fn boundary_is_written_under_its_label() {
    let record = RegulatedBoundaryRecord {
        id: "boundary-1".to_string(),
        account_id: "1".to_string(),
        name: "boundary-1".to_string(),
        regime: "unspecified".to_string(),
        description: None,
    };

    let Upsert::Nodes { label, rows } = boundary_upsert(&record) else {
        panic!("expected nodes");
    };

    assert_eq!(label, "RegulatedBoundary");
    assert_eq!(rows[0].id, "boundary-1");
    assert_eq!(rows[0].props.get("description"), Some(&Prop::Null));
}

#[test]
fn routes_are_split_by_whether_they_reach_a_vpc() {
    let edge = |target: Option<&str>| RoutesToEdge {
        route_table_id: "rtb-1".to_string(),
        destination_cidr: "10.0.0.0/16".to_string(),
        target_vpc_id: target.map(str::to_string),
        resolved: target.is_some(),
    };

    let plan = routes_to_upserts(&[edge(Some("vpc-1")), edge(None), edge(Some("vpc-2"))])
        .unwrap_or_else(|error| panic!("expected Ok: {error:?}"));

    let sizes: Vec<usize> = plan.iter().map(|upsert| upsert.rows.len()).collect();
    assert_eq!(sizes, vec![2, 1]);
    assert_eq!(
        plan[0].rows[1].get("target_vpc_id"),
        Some(&Prop::Text("vpc-2".to_string()))
    );
    assert_eq!(plan[1].rows[0].get("target_vpc_id"), None);
}

fn nacl_rule(rule_number: u16) -> NaclRule {
    NaclRule {
        rule_number,
        direction: Direction::Ingress,
        protocol: "-1".to_string(),
        port_range: None,
        cidr: "0.0.0.0/0".to_string(),
        action: Action::Allow,
    }
}

#[test]
fn rules_are_grouped_by_owner_and_keep_their_order() {
    let has_rule = |acl: &str, number: u16| Edge::HasRule {
        network_acl_id: acl.to_string(),
        rule: nacl_rule(number),
    };
    let edges = vec![
        has_rule("acl-b", 200),
        has_rule("acl-a", 100),
        has_rule("acl-b", 100),
    ];

    let (egress, ingress, nacl) = group_rule_edges(&edges);

    assert!(egress.is_empty());
    assert!(ingress.is_empty());
    let numbers: Vec<(&str, Vec<u16>)> = nacl
        .iter()
        .map(|(acl, rules)| {
            (
                acl.as_str(),
                rules.iter().map(|rule| rule.rule_number).collect(),
            )
        })
        .collect();
    assert_eq!(
        numbers,
        vec![("acl-a", vec![100]), ("acl-b", vec![200, 100])]
    );
}
