//! What is written to the graph: the rows of each record and edge, and the
//! statements that merge them.
//!
//! Every statement merges on the key of the record it writes, so that writing
//! the same record twice leaves one node or edge.
use vstd::prelude::*;
use vstd::string::*;

use crate::domain::rule::{Action, Direction, NaclRule, PortRange, RuleTarget, SgRule};
use crate::error::{ErrorSource, GraphWriteError};
use crate::graph::props::{Prop, Props};
use crate::ports::{
    EniRecord, HasSgEdge, InSubnetEdge, NaclRuleBatch, NetworkAclRecord, ProtectedByEdge,
    RegulatedBoundaryRecord, RouteTableRecord, RoutesToEdge, SecurityGroupRecord, SgRuleBatch,
    SubnetRecord, UsesRouteTableEdge, VpcRecord,
};
use crate::text::{push_decimal, quote};

verus! {

/// Rows per statement.
pub const BATCH_SIZE: usize = 1000;

/// Merges `HAS_SG` edges.
pub const HAS_SG_UPSERT: &'static str =
    "UNWIND $rows AS row
MATCH (a:ENI {id: row.eni_id}), (b:SecurityGroup {id: row.security_group_id})
MERGE (a)-[r:HAS_SG]->(b)
RETURN count(r) AS merged";

/// Merges `IN_SUBNET` edges.
pub const IN_SUBNET_UPSERT: &'static str =
    "UNWIND $rows AS row
MATCH (a:ENI {id: row.eni_id}), (b:Subnet {id: row.subnet_id})
MERGE (a)-[r:IN_SUBNET]->(b)
RETURN count(r) AS merged";

/// Merges `PROTECTED_BY` edges.
pub const PROTECTED_BY_UPSERT: &'static str =
    "UNWIND $rows AS row
MATCH (a:Subnet {id: row.subnet_id}), (b:NetworkACL {id: row.network_acl_id})
MERGE (a)-[r:PROTECTED_BY]->(b)
RETURN count(r) AS merged";

/// Merges `USES_ROUTE_TABLE` edges.
pub const USES_ROUTE_TABLE_UPSERT: &'static str =
    "UNWIND $rows AS row
MATCH (a:Subnet {id: row.subnet_id}), (b:RouteTable {id: row.route_table_id})
MERGE (a)-[r:USES_ROUTE_TABLE]->(b)
RETURN count(r) AS merged";

/// Merges `ROUTES_TO` edges to a `VPC` node.
pub const ROUTES_TO_RESOLVED_UPSERT: &'static str =
    "UNWIND $rows AS row
MATCH (a:RouteTable {id: row.route_table_id}), (b:VPC {id: row.target_vpc_id})
MERGE (a)-[r:ROUTES_TO {destination_cidr: row.destination_cidr}]->(b)
SET r.resolved = row.resolved
RETURN count(r) AS merged";

/// Merges `ROUTES_TO` edges that resolve to no node, as loops on their route
/// table.
pub const ROUTES_TO_UNRESOLVED_UPSERT: &'static str =
    "UNWIND $rows AS row
MATCH (a:RouteTable {id: row.route_table_id})
MERGE (a)-[r:ROUTES_TO {destination_cidr: row.destination_cidr}]->(a)
SET r.resolved = row.resolved
RETURN count(r) AS merged";

/// Merges egress rules with a CIDR target, as loops on their security group.
pub const ALLOWS_EGRESS_CIDR_UPSERT: &'static str =
    "UNWIND $rows AS row
MATCH (a:SecurityGroup {id: row.security_group_id})
MERGE (a)-[r:ALLOWS_EGRESS {
    protocol: row.protocol,
    from_port: row.from_port,
    to_port: row.to_port,
    target_kind: row.target_kind,
    cidr: row.cidr
}]->(a)
SET r.resolved = row.resolved
RETURN count(r) AS merged";

/// Merges egress rules to another security group. A group that is missing
/// leaves its row unmerged, which the count of merged rows shows.
pub const ALLOWS_EGRESS_SG_REF_RESOLVED_UPSERT: &'static str =
    "UNWIND $rows AS row
MATCH (a:SecurityGroup {id: row.security_group_id})
MATCH (b:SecurityGroup {id: row.target_security_group_id})
MERGE (a)-[r:ALLOWS_EGRESS {
    protocol: row.protocol,
    from_port: row.from_port,
    to_port: row.to_port,
    target_kind: row.target_kind,
    target_security_group_id: row.target_security_group_id
}]->(b)
SET r.resolved = row.resolved
RETURN count(r) AS merged";

/// Merges egress rules whose reference is unresolved, as loops on their
/// security group: there is no node to match.
pub const ALLOWS_EGRESS_SG_REF_UNRESOLVED_UPSERT: &'static str =
    "UNWIND $rows AS row
MATCH (a:SecurityGroup {id: row.security_group_id})
MERGE (a)-[r:ALLOWS_EGRESS {
    protocol: row.protocol,
    from_port: row.from_port,
    to_port: row.to_port,
    target_kind: row.target_kind,
    target_security_group_id: row.target_security_group_id
}]->(a)
SET r.resolved = row.resolved
RETURN count(r) AS merged";

/// Merges ingress rules with a CIDR target.
pub const ALLOWS_INGRESS_CIDR_UPSERT: &'static str =
    "UNWIND $rows AS row
MATCH (a:SecurityGroup {id: row.security_group_id})
MERGE (a)-[r:ALLOWS_INGRESS {
    protocol: row.protocol,
    from_port: row.from_port,
    to_port: row.to_port,
    target_kind: row.target_kind,
    cidr: row.cidr
}]->(a)
SET r.resolved = row.resolved
RETURN count(r) AS merged";

/// Merges ingress rules from another security group.
pub const ALLOWS_INGRESS_SG_REF_RESOLVED_UPSERT: &'static str =
    "UNWIND $rows AS row
MATCH (a:SecurityGroup {id: row.security_group_id})
MATCH (b:SecurityGroup {id: row.target_security_group_id})
MERGE (a)-[r:ALLOWS_INGRESS {
    protocol: row.protocol,
    from_port: row.from_port,
    to_port: row.to_port,
    target_kind: row.target_kind,
    target_security_group_id: row.target_security_group_id
}]->(b)
SET r.resolved = row.resolved
RETURN count(r) AS merged";

/// Merges ingress rules whose reference is unresolved.
pub const ALLOWS_INGRESS_SG_REF_UNRESOLVED_UPSERT: &'static str =
    "UNWIND $rows AS row
MATCH (a:SecurityGroup {id: row.security_group_id})
MERGE (a)-[r:ALLOWS_INGRESS {
    protocol: row.protocol,
    from_port: row.from_port,
    to_port: row.to_port,
    target_kind: row.target_kind,
    target_security_group_id: row.target_security_group_id
}]->(a)
SET r.resolved = row.resolved
RETURN count(r) AS merged";

/// Merges network ACL rules, as loops on their network ACL, one per rule
/// number.
pub const HAS_RULE_UPSERT: &'static str =
    "UNWIND $rows AS row
MATCH (a:NetworkACL {id: row.network_acl_id})
MERGE (a)-[r:HAS_RULE {rule_number: row.rule_number}]->(a)
SET r.direction = row.direction,
    r.protocol = row.protocol,
    r.from_port = row.from_port,
    r.to_port = row.to_port,
    r.cidr = row.cidr,
    r.action = row.action
RETURN count(r) AS merged";

/// The row that a node record is merged with: its key and its properties.
#[derive(Debug, PartialEq, Eq)]
pub struct NodeRow {
    pub id: String,
    pub props: Props,
}

/// What a `NodeRow` holds.
pub ghost struct NodeRowView {
    pub id: Seq<char>,
    pub props: Map<Seq<char>, crate::graph::props::PropView>,
}

impl DeepView for NodeRow {
    type V = NodeRowView;

    open spec fn deep_view(&self) -> NodeRowView {
        NodeRowView { id: self.id@, props: self.props.deep_view() }
    }
}

/// The value of a text property.
pub open spec fn text_value(text: Seq<char>) -> crate::graph::props::PropView {
    crate::graph::props::PropView::Text(text)
}

/// The value of a text property that may be absent.
pub open spec fn opt_text_value(text: Option<Seq<char>>) -> crate::graph::props::PropView {
    match text {
        Some(text) => crate::graph::props::PropView::Text(text),
        None => crate::graph::props::PropView::Null,
    }
}

/// The value of a truth-valued property.
pub open spec fn bool_value(value: bool) -> crate::graph::props::PropView {
    crate::graph::props::PropView::Boolean(value)
}

fn string_prop(value: &str) -> (prop: Prop)
    ensures
        prop.deep_view() == text_value(value@),
{
    Prop::Text(value.to_owned())
}

fn opt_string_prop(value: &Option<String>) -> (prop: Prop)
    ensures
        prop.deep_view() == opt_text_value(value.deep_view()),
{
    match value {
        Some(text) => Prop::Text(text.clone()),
        None => Prop::Null,
    }
}

fn bool_prop(value: bool) -> (prop: Prop)
    ensures
        prop.deep_view() == bool_value(value),
{
    Prop::Boolean(value)
}

/// The statement that merges node rows with `label`.
pub open spec fn node_statement(label: Seq<char>) -> Seq<char> {
    "UNWIND $rows AS row\nMERGE (n:"@ + label + " {id: row.id})\nSET n += row.props"@
}

/// The statement that merges node rows with `label`.
pub fn node_upsert_query(label: &str) -> (query: String)
    ensures
        query@ == node_statement(label@),
{
    let mut query = String::from_str("UNWIND $rows AS row\nMERGE (n:");
    query.append(label);
    query.append(" {id: row.id})\nSET n += row.props");
    query
}

/// The row of an eni record.
pub open spec fn eni_row_of(record: crate::ports::EniRecordView) -> NodeRowView {
    NodeRowView {
        id: record.id,
        props: Map::empty()
            .insert("account_id"@, text_value(record.account_id))
            .insert("vpc_id"@, text_value(record.vpc_id))
            .insert("subnet_id"@, text_value(record.subnet_id))
            .insert("private_ip"@, text_value(record.private_ip))
            .insert("description"@, opt_text_value(record.description)),
    }
}

/// Builds the row of an eni record.
pub fn eni_row(record: &EniRecord) -> (row: NodeRow)
    ensures
        row.deep_view() == eni_row_of(record.deep_view()),
{
    NodeRow {
        id: record.id.clone(),
        props: Props::new()
            .with("account_id", string_prop(record.account_id.as_str()))
            .with("vpc_id", string_prop(record.vpc_id.as_str()))
            .with("subnet_id", string_prop(record.subnet_id.as_str()))
            .with("private_ip", string_prop(record.private_ip.as_str()))
            .with("description", opt_string_prop(&record.description)),
    }
}

/// The row of a security group record.
pub open spec fn security_group_row_of(record: crate::ports::SecurityGroupRecordView) -> NodeRowView {
    NodeRowView {
        id: record.id,
        props: Map::empty()
            .insert("account_id"@, text_value(record.account_id))
            .insert("vpc_id"@, text_value(record.vpc_id))
            .insert("name"@, text_value(record.name))
            .insert("description"@, opt_text_value(record.description)),
    }
}

/// Builds the row of a security group record.
pub fn security_group_row(record: &SecurityGroupRecord) -> (row: NodeRow)
    ensures
        row.deep_view() == security_group_row_of(record.deep_view()),
{
    NodeRow {
        id: record.id.clone(),
        props: Props::new()
            .with("account_id", string_prop(record.account_id.as_str()))
            .with("vpc_id", string_prop(record.vpc_id.as_str()))
            .with("name", string_prop(record.name.as_str()))
            .with("description", opt_string_prop(&record.description)),
    }
}

/// The row of a network acl record.
pub open spec fn network_acl_row_of(record: crate::ports::NetworkAclRecordView) -> NodeRowView {
    NodeRowView {
        id: record.id,
        props: Map::empty()
            .insert("account_id"@, text_value(record.account_id))
            .insert("vpc_id"@, text_value(record.vpc_id))
            .insert("is_default"@, bool_value(record.is_default)),
    }
}

/// Builds the row of a network acl record.
pub fn network_acl_row(record: &NetworkAclRecord) -> (row: NodeRow)
    ensures
        row.deep_view() == network_acl_row_of(record.deep_view()),
{
    NodeRow {
        id: record.id.clone(),
        props: Props::new()
            .with("account_id", string_prop(record.account_id.as_str()))
            .with("vpc_id", string_prop(record.vpc_id.as_str()))
            .with("is_default", bool_prop(record.is_default)),
    }
}

/// The row of a subnet record.
pub open spec fn subnet_row_of(record: crate::ports::SubnetRecordView) -> NodeRowView {
    NodeRowView {
        id: record.id,
        props: Map::empty()
            .insert("account_id"@, text_value(record.account_id))
            .insert("vpc_id"@, text_value(record.vpc_id))
            .insert("cidr_block"@, text_value(record.cidr_block))
            .insert("availability_zone"@, text_value(record.availability_zone)),
    }
}

/// Builds the row of a subnet record.
pub fn subnet_row(record: &SubnetRecord) -> (row: NodeRow)
    ensures
        row.deep_view() == subnet_row_of(record.deep_view()),
{
    NodeRow {
        id: record.id.clone(),
        props: Props::new()
            .with("account_id", string_prop(record.account_id.as_str()))
            .with("vpc_id", string_prop(record.vpc_id.as_str()))
            .with("cidr_block", string_prop(record.cidr_block.as_str()))
            .with("availability_zone", string_prop(record.availability_zone.as_str())),
    }
}

/// The row of a vpc record.
pub open spec fn vpc_row_of(record: crate::ports::VpcRecordView) -> NodeRowView {
    NodeRowView {
        id: record.id,
        props: Map::empty()
            .insert("account_id"@, text_value(record.account_id))
            .insert("cidr_block"@, text_value(record.cidr_block)),
    }
}

/// Builds the row of a vpc record.
pub fn vpc_row(record: &VpcRecord) -> (row: NodeRow)
    ensures
        row.deep_view() == vpc_row_of(record.deep_view()),
{
    NodeRow {
        id: record.id.clone(),
        props: Props::new()
            .with("account_id", string_prop(record.account_id.as_str()))
            .with("cidr_block", string_prop(record.cidr_block.as_str())),
    }
}

/// The row of a route table record.
pub open spec fn route_table_row_of(record: crate::ports::RouteTableRecordView) -> NodeRowView {
    NodeRowView {
        id: record.id,
        props: Map::empty()
            .insert("account_id"@, text_value(record.account_id))
            .insert("vpc_id"@, text_value(record.vpc_id))
            .insert("is_main"@, bool_value(record.is_main)),
    }
}

/// Builds the row of a route table record.
pub fn route_table_row(record: &RouteTableRecord) -> (row: NodeRow)
    ensures
        row.deep_view() == route_table_row_of(record.deep_view()),
{
    NodeRow {
        id: record.id.clone(),
        props: Props::new()
            .with("account_id", string_prop(record.account_id.as_str()))
            .with("vpc_id", string_prop(record.vpc_id.as_str()))
            .with("is_main", bool_prop(record.is_main)),
    }
}

/// The row of a regulated boundary record.
pub open spec fn regulated_boundary_row_of(record: crate::ports::RegulatedBoundaryRecordView) -> NodeRowView {
    NodeRowView {
        id: record.id,
        props: Map::empty()
            .insert("account_id"@, text_value(record.account_id))
            .insert("name"@, text_value(record.name))
            .insert("regime"@, text_value(record.regime))
            .insert("description"@, opt_text_value(record.description)),
    }
}

/// Builds the row of a regulated boundary record.
pub fn regulated_boundary_row(record: &RegulatedBoundaryRecord) -> (row: NodeRow)
    ensures
        row.deep_view() == regulated_boundary_row_of(record.deep_view()),
{
    NodeRow {
        id: record.id.clone(),
        props: Props::new()
            .with("account_id", string_prop(record.account_id.as_str()))
            .with("name", string_prop(record.name.as_str()))
            .with("regime", string_prop(record.regime.as_str()))
            .with("description", opt_string_prop(&record.description)),
    }
}

/// The row of a `HAS_SG` edge.
pub open spec fn has_sg_row_of(
    edge: crate::ports::HasSgEdgeView,
) -> Map<Seq<char>, crate::graph::props::PropView> {
    Map::empty()
        .insert("eni_id"@, text_value(edge.eni_id))
        .insert("security_group_id"@, text_value(edge.security_group_id))
}

/// Builds the row of a `HAS_SG` edge.
pub fn has_sg_row(edge: &HasSgEdge) -> (row: Props)
    ensures
        row.deep_view() == has_sg_row_of(edge.deep_view()),
{
    Props::new()
        .with("eni_id", string_prop(edge.eni_id.as_str()))
        .with("security_group_id", string_prop(edge.security_group_id.as_str()))
}

/// The row of an `IN_SUBNET` edge.
pub open spec fn in_subnet_row_of(
    edge: crate::ports::InSubnetEdgeView,
) -> Map<Seq<char>, crate::graph::props::PropView> {
    Map::empty()
        .insert("eni_id"@, text_value(edge.eni_id))
        .insert("subnet_id"@, text_value(edge.subnet_id))
}

/// Builds the row of an `IN_SUBNET` edge.
pub fn in_subnet_row(edge: &InSubnetEdge) -> (row: Props)
    ensures
        row.deep_view() == in_subnet_row_of(edge.deep_view()),
{
    Props::new()
        .with("eni_id", string_prop(edge.eni_id.as_str()))
        .with("subnet_id", string_prop(edge.subnet_id.as_str()))
}

/// The row of a `PROTECTED_BY` edge.
pub open spec fn protected_by_row_of(
    edge: crate::ports::ProtectedByEdgeView,
) -> Map<Seq<char>, crate::graph::props::PropView> {
    Map::empty()
        .insert("subnet_id"@, text_value(edge.subnet_id))
        .insert("network_acl_id"@, text_value(edge.network_acl_id))
}

/// Builds the row of a `PROTECTED_BY` edge.
pub fn protected_by_row(edge: &ProtectedByEdge) -> (row: Props)
    ensures
        row.deep_view() == protected_by_row_of(edge.deep_view()),
{
    Props::new()
        .with("subnet_id", string_prop(edge.subnet_id.as_str()))
        .with("network_acl_id", string_prop(edge.network_acl_id.as_str()))
}

/// The row of a `USES_ROUTE_TABLE` edge.
pub open spec fn uses_route_table_row_of(
    edge: crate::ports::UsesRouteTableEdgeView,
) -> Map<Seq<char>, crate::graph::props::PropView> {
    Map::empty()
        .insert("subnet_id"@, text_value(edge.subnet_id))
        .insert("route_table_id"@, text_value(edge.route_table_id))
}

/// Builds the row of a `USES_ROUTE_TABLE` edge.
pub fn uses_route_table_row(edge: &UsesRouteTableEdge) -> (row: Props)
    ensures
        row.deep_view() == uses_route_table_row_of(edge.deep_view()),
{
    Props::new()
        .with("subnet_id", string_prop(edge.subnet_id.as_str()))
        .with("route_table_id", string_prop(edge.route_table_id.as_str()))
}

/// The row of a `ROUTES_TO` edge to a `VPC` node.
pub open spec fn routes_to_resolved_row_of(
    edge: crate::ports::RoutesToEdgeView,
    target_vpc_id: Seq<char>,
) -> Map<Seq<char>, crate::graph::props::PropView> {
    Map::empty()
        .insert("route_table_id"@, text_value(edge.route_table_id))
        .insert("destination_cidr"@, text_value(edge.destination_cidr))
        .insert("target_vpc_id"@, text_value(target_vpc_id))
        .insert("resolved"@, bool_value(edge.resolved))
}

/// The row of a `ROUTES_TO` edge that resolves to no node.
pub open spec fn routes_to_unresolved_row_of(
    edge: crate::ports::RoutesToEdgeView,
) -> Map<Seq<char>, crate::graph::props::PropView> {
    Map::empty()
        .insert("route_table_id"@, text_value(edge.route_table_id))
        .insert("destination_cidr"@, text_value(edge.destination_cidr))
        .insert("resolved"@, bool_value(edge.resolved))
}

fn routes_to_resolved_row(edge: &RoutesToEdge, target_vpc_id: &str) -> (row: Props)
    ensures
        row.deep_view() == routes_to_resolved_row_of(edge.deep_view(), target_vpc_id@),
{
    Props::new()
        .with("route_table_id", string_prop(edge.route_table_id.as_str()))
        .with("destination_cidr", string_prop(edge.destination_cidr.as_str()))
        .with("target_vpc_id", string_prop(target_vpc_id))
        .with("resolved", bool_prop(edge.resolved))
}

fn routes_to_unresolved_row(edge: &RoutesToEdge) -> (row: Props)
    ensures
        row.deep_view() == routes_to_unresolved_row_of(edge.deep_view()),
{
    Props::new()
        .with("route_table_id", string_prop(edge.route_table_id.as_str()))
        .with("destination_cidr", string_prop(edge.destination_cidr.as_str()))
        .with("resolved", bool_prop(edge.resolved))
}

/// The values of the properties `from_port` and `to_port`.
pub open spec fn port_values(range: Option<(u16, u16)>) -> (
    crate::graph::props::PropView,
    crate::graph::props::PropView,
) {
    match range {
        Some(bounds) => (
            crate::graph::props::PropView::Integer(bounds.0 as int),
            crate::graph::props::PropView::Integer(bounds.1 as int),
        ),
        None => (crate::graph::props::PropView::Null, crate::graph::props::PropView::Null),
    }
}

fn port_range_props(port_range: Option<PortRange>) -> (props: (Prop, Prop))
    ensures
        props.0.deep_view() == port_values(port_range.deep_view()).0,
        props.1.deep_view() == port_values(port_range.deep_view()).1,
{
    match port_range {
        Some(range) => (
            Prop::Integer(range.from_port() as i64),
            Prop::Integer(range.to_port() as i64),
        ),
        None => (Prop::Null, Prop::Null),
    }
}

/// The row of a security group rule: the group that owns it, and the
/// properties of its edge.
pub open spec fn sg_rule_row_of(
    security_group_id: Seq<char>,
    rule: crate::domain::rule::SgRuleView,
) -> Map<Seq<char>, crate::graph::props::PropView> {
    let common = Map::empty()
        .insert("security_group_id"@, text_value(security_group_id))
        .insert("protocol"@, text_value(rule.protocol))
        .insert("from_port"@, port_values(rule.port_range).0)
        .insert("to_port"@, port_values(rule.port_range).1);
    match rule.target {
        crate::domain::rule::RuleTargetView::Cidr { cidr } => common
            .insert("target_kind"@, text_value("cidr"@))
            .insert("cidr"@, text_value(cidr))
            .insert("resolved"@, bool_value(rule.resolved)),
        crate::domain::rule::RuleTargetView::SecurityGroupRef { security_group_id: target } => common
            .insert("target_kind"@, text_value("security_group_ref"@))
            .insert("target_security_group_id"@, text_value(target))
            .insert("resolved"@, bool_value(rule.resolved)),
    }
}

/// Builds the row of a security group rule.
pub fn sg_rule_row(security_group_id: &str, rule: &SgRule) -> (row: Props)
    ensures
        row.deep_view() == sg_rule_row_of(security_group_id@, rule.deep_view()),
{
    let (from_port, to_port) = port_range_props(rule.port_range);
    let common = Props::new()
        .with("security_group_id", string_prop(security_group_id))
        .with("protocol", string_prop(rule.protocol.as_str()))
        .with("from_port", from_port)
        .with("to_port", to_port);
    match &rule.target {
        RuleTarget::Cidr { cidr } => common
            .with("target_kind", string_prop("cidr"))
            .with("cidr", string_prop(cidr.as_str()))
            .with("resolved", bool_prop(rule.resolved)),
        RuleTarget::SecurityGroupRef { security_group_id: target } => common
            .with("target_kind", string_prop("security_group_ref"))
            .with("target_security_group_id", string_prop(target.as_str()))
            .with("resolved", bool_prop(rule.resolved)),
    }
}

/// How a direction is written as a property.
pub open spec fn direction_text(direction: Direction) -> Seq<char> {
    match direction {
        Direction::Ingress => "ingress"@,
        Direction::Egress => "egress"@,
    }
}

/// How an action is written as a property.
pub open spec fn action_text(action: Action) -> Seq<char> {
    match action {
        Action::Allow => "allow"@,
        Action::Deny => "deny"@,
    }
}

/// The row of a network ACL rule.
pub open spec fn nacl_rule_row_of(
    network_acl_id: Seq<char>,
    rule: crate::domain::rule::NaclRuleView,
) -> Map<Seq<char>, crate::graph::props::PropView> {
    Map::empty()
        .insert("network_acl_id"@, text_value(network_acl_id))
        .insert("rule_number"@, crate::graph::props::PropView::Integer(rule.rule_number as int))
        .insert("direction"@, text_value(direction_text(rule.direction)))
        .insert("protocol"@, text_value(rule.protocol))
        .insert("from_port"@, port_values(rule.port_range).0)
        .insert("to_port"@, port_values(rule.port_range).1)
        .insert("cidr"@, text_value(rule.cidr))
        .insert("action"@, text_value(action_text(rule.action)))
}

/// Builds the row of a network ACL rule.
pub fn nacl_rule_row(network_acl_id: &str, rule: &NaclRule) -> (row: Props)
    ensures
        row.deep_view() == nacl_rule_row_of(network_acl_id@, rule.deep_view()),
{
    let (from_port, to_port) = port_range_props(rule.port_range);
    let direction = match rule.direction {
        Direction::Ingress => "ingress",
        Direction::Egress => "egress",
    };
    let action = match rule.action {
        Action::Allow => "allow",
        Action::Deny => "deny",
    };
    Props::new()
        .with("network_acl_id", string_prop(network_acl_id))
        .with("rule_number", Prop::Integer(rule.rule_number as i64))
        .with("direction", string_prop(direction))
        .with("protocol", string_prop(rule.protocol.as_str()))
        .with("from_port", from_port)
        .with("to_port", to_port)
        .with("cidr", string_prop(rule.cidr.as_str()))
        .with("action", string_prop(action))
}

/// One statement and the rows to run it on. The statement answers how many
/// rows it merged.
#[derive(Debug, PartialEq, Eq)]
pub struct EdgeUpsert {
    pub edge_type: &'static str,
    pub statement: &'static str,
    pub rows: Vec<Props>,
}

/// What an `EdgeUpsert` holds.
pub ghost struct EdgeUpsertView {
    pub edge_type: Seq<char>,
    pub statement: Seq<char>,
    pub rows: Seq<Map<Seq<char>, crate::graph::props::PropView>>,
}

impl DeepView for EdgeUpsert {
    type V = EdgeUpsertView;

    open spec fn deep_view(&self) -> EdgeUpsertView {
        EdgeUpsertView {
            edge_type: self.edge_type@,
            statement: self.statement@,
            rows: self.rows.deep_view(),
        }
    }
}

/// Which of the three statements for security group rules writes a rule.
pub ghost enum SgRuleShape {
    /// The rule targets a CIDR.
    Cidr,
    /// The rule references a group that is in the graph.
    ResolvedRef,
    /// The rule references a group that could not be resolved.
    UnresolvedRef,
}

/// The shape of `rule`.
pub open spec fn sg_rule_shape(rule: crate::domain::rule::SgRuleView) -> SgRuleShape {
    match rule.target {
        crate::domain::rule::RuleTargetView::Cidr { .. } => SgRuleShape::Cidr,
        crate::domain::rule::RuleTargetView::SecurityGroupRef { .. } => if rule.resolved {
            SgRuleShape::ResolvedRef
        } else {
            SgRuleShape::UnresolvedRef
        },
    }
}

/// The rows of those of `rules` that have `shape`, in order.
pub open spec fn rule_rows_of_shape(
    security_group_id: Seq<char>,
    rules: Seq<crate::domain::rule::SgRuleView>,
    shape: SgRuleShape,
) -> Seq<Map<Seq<char>, crate::graph::props::PropView>>
    decreases rules.len(),
{
    if rules.len() == 0 {
        Seq::empty()
    } else {
        let before = rule_rows_of_shape(security_group_id, rules.drop_last(), shape);
        if sg_rule_shape(rules.last()) == shape {
            before.push(sg_rule_row_of(security_group_id, rules.last()))
        } else {
            before
        }
    }
}

/// The rows of the rules of `batches` that have `shape`, in order.
pub open spec fn batch_rows_of_shape(
    batches: Seq<crate::ports::SgRuleBatchView>,
    shape: SgRuleShape,
) -> Seq<Map<Seq<char>, crate::graph::props::PropView>>
    decreases batches.len(),
{
    if batches.len() == 0 {
        Seq::empty()
    } else {
        batch_rows_of_shape(batches.drop_last(), shape) + rule_rows_of_shape(
            batches.last().security_group_id,
            batches.last().rules,
            shape,
        )
    }
}

/// The rows of all rules of `batches`, in order.
pub open spec fn nacl_batch_rows(
    batches: Seq<crate::ports::NaclRuleBatchView>,
) -> Seq<Map<Seq<char>, crate::graph::props::PropView>>
    decreases batches.len(),
{
    if batches.len() == 0 {
        Seq::empty()
    } else {
        nacl_batch_rows(batches.drop_last()) + batches.last().rules.map_values(
            |rule: crate::domain::rule::NaclRuleView|
                nacl_rule_row_of(batches.last().network_acl_id, rule),
        )
    }
}

proof fn lemma_push_deep_view<T: DeepView>(before: Seq<T>, after: Vec<T>, value: T)
    requires
        after@ == before.push(value),
    ensures
        after.deep_view() == Seq::new(before.len(), |i: int| before[i].deep_view()).push(
            value.deep_view(),
        ),
{
    assert(after.deep_view() =~= Seq::new(before.len(), |i: int| before[i].deep_view()).push(
        value.deep_view(),
    ));
}

fn push_row(rows: &mut Vec<Props>, row: Props)
    ensures
        final(rows).deep_view() == old(rows).deep_view().push(row.deep_view()),
{
    let ghost before = rows@;
    rows.push(row);
    proof {
        lemma_push_deep_view(before, *rows, row);
    }
}

/// Splits rule batches by the statement that writes each rule: CIDR targets,
/// resolved references, unresolved references.
pub fn split_sg_rule_rows(batches: &[SgRuleBatch<'_>]) -> (rows: (
    Vec<Props>,
    Vec<Props>,
    Vec<Props>,
))
    ensures
        rows.0.deep_view() == batch_rows_of_shape(batches.deep_view(), SgRuleShape::Cidr),
        rows.1.deep_view() == batch_rows_of_shape(batches.deep_view(), SgRuleShape::ResolvedRef),
        rows.2.deep_view() == batch_rows_of_shape(batches.deep_view(), SgRuleShape::UnresolvedRef),
{
    let ghost model = batches.deep_view();
    let mut cidr_rows: Vec<Props> = Vec::new();
    let mut resolved_rows: Vec<Props> = Vec::new();
    let mut unresolved_rows: Vec<Props> = Vec::new();
    let mut i: usize = 0;
    assert(model.take(0) =~= Seq::empty());
    assert(cidr_rows.deep_view() =~= Seq::empty());
    assert(resolved_rows.deep_view() =~= Seq::empty());
    assert(unresolved_rows.deep_view() =~= Seq::empty());
    while i < batches.len()
        invariant
            0 <= i <= batches@.len(),
            model == batches.deep_view(),
            cidr_rows.deep_view() == batch_rows_of_shape(model.take(i as int), SgRuleShape::Cidr),
            resolved_rows.deep_view() == batch_rows_of_shape(
                model.take(i as int),
                SgRuleShape::ResolvedRef,
            ),
            unresolved_rows.deep_view() == batch_rows_of_shape(
                model.take(i as int),
                SgRuleShape::UnresolvedRef,
            ),
        decreases batches@.len() - i,
    {
        let batch = &batches[i];
        let ghost id = batch.security_group_id@;
        let ghost rules = batch.rules.deep_view();
        let ghost cidr_before = cidr_rows.deep_view();
        let ghost resolved_before = resolved_rows.deep_view();
        let ghost unresolved_before = unresolved_rows.deep_view();
        assert(model[i as int] == batch.deep_view());
        assert(rules.take(0) =~= Seq::empty());
        let mut j: usize = 0;
        assert(cidr_rows.deep_view() =~= cidr_before + rule_rows_of_shape(
            id,
            rules.take(0),
            SgRuleShape::Cidr,
        ));
        assert(resolved_rows.deep_view() =~= resolved_before + rule_rows_of_shape(
            id,
            rules.take(0),
            SgRuleShape::ResolvedRef,
        ));
        assert(unresolved_rows.deep_view() =~= unresolved_before + rule_rows_of_shape(
            id,
            rules.take(0),
            SgRuleShape::UnresolvedRef,
        ));
        while j < batch.rules.len()
            invariant
                0 <= j <= batch.rules@.len(),
                id == batch.security_group_id@,
                rules == batch.rules.deep_view(),
                cidr_rows.deep_view() == cidr_before + rule_rows_of_shape(
                    id,
                    rules.take(j as int),
                    SgRuleShape::Cidr,
                ),
                resolved_rows.deep_view() == resolved_before + rule_rows_of_shape(
                    id,
                    rules.take(j as int),
                    SgRuleShape::ResolvedRef,
                ),
                unresolved_rows.deep_view() == unresolved_before + rule_rows_of_shape(
                    id,
                    rules.take(j as int),
                    SgRuleShape::UnresolvedRef,
                ),
            decreases batch.rules@.len() - j,
        {
            let rule = &batch.rules[j];
            let ghost next = rules.take(j + 1);
            assert(rules[j as int] == rule.deep_view());
            assert(next.drop_last() =~= rules.take(j as int));
            assert(next.last() == rule.deep_view());
            let row = sg_rule_row(batch.security_group_id, rule);
            match &rule.target {
                RuleTarget::Cidr { .. } => {
                    push_row(&mut cidr_rows, row);
                },
                RuleTarget::SecurityGroupRef { .. } => {
                    if rule.resolved {
                        push_row(&mut resolved_rows, row);
                    } else {
                        push_row(&mut unresolved_rows, row);
                    }
                },
            }
            assert(cidr_rows.deep_view() =~= cidr_before + rule_rows_of_shape(
                id,
                next,
                SgRuleShape::Cidr,
            ));
            assert(resolved_rows.deep_view() =~= resolved_before + rule_rows_of_shape(
                id,
                next,
                SgRuleShape::ResolvedRef,
            ));
            assert(unresolved_rows.deep_view() =~= unresolved_before + rule_rows_of_shape(
                id,
                next,
                SgRuleShape::UnresolvedRef,
            ));
            j = j + 1;
        }
        assert(rules.take(j as int) =~= rules);
        assert(model.take(i + 1).drop_last() =~= model.take(i as int));
        assert(model.take(i + 1).last() == batch.deep_view());
        i = i + 1;
    }
    assert(model.take(i as int) =~= model);
    (cidr_rows, resolved_rows, unresolved_rows)
}

/// The statements that write rule batches as `ALLOWS_EGRESS` or
/// `ALLOWS_INGRESS` edges, in the order in which they run.
pub open spec fn allows_plan(
    batches: Seq<crate::ports::SgRuleBatchView>,
    direction: Direction,
) -> Seq<EdgeUpsertView> {
    let cidr_rows = batch_rows_of_shape(batches, SgRuleShape::Cidr);
    let resolved_rows = batch_rows_of_shape(batches, SgRuleShape::ResolvedRef);
    let unresolved_rows = batch_rows_of_shape(batches, SgRuleShape::UnresolvedRef);
    match direction {
        Direction::Egress => seq![
            EdgeUpsertView {
                edge_type: "ALLOWS_EGRESS"@,
                statement: ALLOWS_EGRESS_CIDR_UPSERT@,
                rows: cidr_rows,
            },
            EdgeUpsertView {
                edge_type: "ALLOWS_EGRESS"@,
                statement: ALLOWS_EGRESS_SG_REF_RESOLVED_UPSERT@,
                rows: resolved_rows,
            },
            EdgeUpsertView {
                edge_type: "ALLOWS_EGRESS"@,
                statement: ALLOWS_EGRESS_SG_REF_UNRESOLVED_UPSERT@,
                rows: unresolved_rows,
            },
        ],
        Direction::Ingress => seq![
            EdgeUpsertView {
                edge_type: "ALLOWS_INGRESS"@,
                statement: ALLOWS_INGRESS_CIDR_UPSERT@,
                rows: cidr_rows,
            },
            EdgeUpsertView {
                edge_type: "ALLOWS_INGRESS"@,
                statement: ALLOWS_INGRESS_SG_REF_RESOLVED_UPSERT@,
                rows: resolved_rows,
            },
            EdgeUpsertView {
                edge_type: "ALLOWS_INGRESS"@,
                statement: ALLOWS_INGRESS_SG_REF_UNRESOLVED_UPSERT@,
                rows: unresolved_rows,
            },
        ],
    }
}

/// Plans the writing of rule batches as `ALLOWS_EGRESS` or `ALLOWS_INGRESS`
/// edges.
pub fn allows_upserts(batches: &[SgRuleBatch<'_>], direction: Direction) -> (plan: Vec<EdgeUpsert>)
    ensures
        plan.deep_view() == allows_plan(batches.deep_view(), direction),
{
    let (cidr_rows, resolved_rows, unresolved_rows) = split_sg_rule_rows(batches);
    let plan = match direction {
        Direction::Egress => vec![
            EdgeUpsert {
                edge_type: "ALLOWS_EGRESS",
                statement: ALLOWS_EGRESS_CIDR_UPSERT,
                rows: cidr_rows,
            },
            EdgeUpsert {
                edge_type: "ALLOWS_EGRESS",
                statement: ALLOWS_EGRESS_SG_REF_RESOLVED_UPSERT,
                rows: resolved_rows,
            },
            EdgeUpsert {
                edge_type: "ALLOWS_EGRESS",
                statement: ALLOWS_EGRESS_SG_REF_UNRESOLVED_UPSERT,
                rows: unresolved_rows,
            },
        ],
        Direction::Ingress => vec![
            EdgeUpsert {
                edge_type: "ALLOWS_INGRESS",
                statement: ALLOWS_INGRESS_CIDR_UPSERT,
                rows: cidr_rows,
            },
            EdgeUpsert {
                edge_type: "ALLOWS_INGRESS",
                statement: ALLOWS_INGRESS_SG_REF_RESOLVED_UPSERT,
                rows: resolved_rows,
            },
            EdgeUpsert {
                edge_type: "ALLOWS_INGRESS",
                statement: ALLOWS_INGRESS_SG_REF_UNRESOLVED_UPSERT,
                rows: unresolved_rows,
            },
        ],
    };
    assert(plan.deep_view() =~= allows_plan(batches.deep_view(), direction));
    plan
}

/// Plans the writing of rule batches as `HAS_RULE` edges.
pub fn has_rule_upsert(batches: &[NaclRuleBatch<'_>]) -> (plan: EdgeUpsert)
    ensures
        plan.deep_view() == (EdgeUpsertView {
            edge_type: "HAS_RULE"@,
            statement: HAS_RULE_UPSERT@,
            rows: nacl_batch_rows(batches.deep_view()),
        }),
{
    let ghost model = batches.deep_view();
    let mut rows: Vec<Props> = Vec::new();
    let mut i: usize = 0;
    assert(model.take(0) =~= Seq::empty());
    assert(rows.deep_view() =~= Seq::empty());
    while i < batches.len()
        invariant
            0 <= i <= batches@.len(),
            model == batches.deep_view(),
            rows.deep_view() == nacl_batch_rows(model.take(i as int)),
        decreases batches@.len() - i,
    {
        let batch = &batches[i];
        let ghost before = rows.deep_view();
        let ghost id = batch.network_acl_id@;
        let ghost rule_rows = batch.rules.deep_view().map_values(
            |rule: crate::domain::rule::NaclRuleView| nacl_rule_row_of(id, rule),
        );
        assert(model[i as int] == batch.deep_view());
        let mut j: usize = 0;
        assert(rows.deep_view() =~= before + rule_rows.take(0));
        while j < batch.rules.len()
            invariant
                0 <= j <= batch.rules@.len(),
                id == batch.network_acl_id@,
                rule_rows == batch.rules.deep_view().map_values(
                    |rule: crate::domain::rule::NaclRuleView| nacl_rule_row_of(id, rule),
                ),
                rows.deep_view() == before + rule_rows.take(j as int),
            decreases batch.rules@.len() - j,
        {
            push_row(&mut rows, nacl_rule_row(batch.network_acl_id, &batch.rules[j]));
            assert(rule_rows[j as int] == nacl_rule_row_of(
                id,
                batch.rules@[j as int].deep_view(),
            ));
            assert(rows.deep_view() =~= before + rule_rows.take(j + 1));
            j = j + 1;
        }
        assert(rule_rows.take(j as int) =~= rule_rows);
        assert(model.take(i + 1).drop_last() =~= model.take(i as int));
        assert(model.take(i + 1).last() == batch.deep_view());
        i = i + 1;
    }
    assert(model.take(i as int) =~= model);
    EdgeUpsert { edge_type: "HAS_RULE", statement: HAS_RULE_UPSERT, rows }
}

/// Whether an edge is resolved exactly where it has a target.
pub open spec fn route_consistent(edge: crate::ports::RoutesToEdgeView) -> bool {
    edge.target_vpc_id is Some <==> edge.resolved
}

/// The rows of the resolved edges among `edges`, in order.
pub open spec fn resolved_route_rows(edges: Seq<crate::ports::RoutesToEdgeView>) -> Seq<
    Map<Seq<char>, crate::graph::props::PropView>,
>
    decreases edges.len(),
{
    if edges.len() == 0 {
        Seq::empty()
    } else {
        let before = resolved_route_rows(edges.drop_last());
        match edges.last().target_vpc_id {
            Some(target) => before.push(routes_to_resolved_row_of(edges.last(), target)),
            None => before,
        }
    }
}

/// The rows of the unresolved edges among `edges`, in order.
pub open spec fn unresolved_route_rows(edges: Seq<crate::ports::RoutesToEdgeView>) -> Seq<
    Map<Seq<char>, crate::graph::props::PropView>,
>
    decreases edges.len(),
{
    if edges.len() == 0 {
        Seq::empty()
    } else {
        let before = unresolved_route_rows(edges.drop_last());
        match edges.last().target_vpc_id {
            Some(_) => before,
            None => before.push(routes_to_unresolved_row_of(edges.last())),
        }
    }
}

/// What is said of an edge that is resolved without a target, or has a target
/// without being resolved.
pub open spec fn inconsistency_text(edge: crate::ports::RoutesToEdgeView) -> Seq<char> {
    "ROUTES_TO edge for route_table_id="@ + edge.route_table_id + " destination_cidr="@
        + edge.destination_cidr + " is inconsistent: target_vpc_id="@ + (match edge.target_vpc_id {
        Some(target) => "Some("@ + crate::text::debug_quoted(target) + ")"@,
        None => "None"@,
    }) + " but resolved="@ + (if edge.resolved {
        "true"@
    } else {
        "false"@
    })
}

fn inconsistency_message(edge: &RoutesToEdge) -> (message: String)
    ensures
        message@ == inconsistency_text(edge.deep_view()),
{
    let mut message = String::from_str("ROUTES_TO edge for route_table_id=");
    message.append(edge.route_table_id.as_str());
    message.append(" destination_cidr=");
    message.append(edge.destination_cidr.as_str());
    message.append(" is inconsistent: target_vpc_id=");
    let ghost before = message@;
    match &edge.target_vpc_id {
        Some(target) => {
            message.append("Some(");
            let quoted = quote(target.as_str());
            message.append(quoted.as_str());
            message.append(")");
            assert(message@ =~= before + ("Some("@ + crate::text::debug_quoted(target@) + ")"@));
        },
        None => {
            message.append("None");
        },
    }
    message.append(" but resolved=");
    message.append(
        if edge.resolved {
            "true"
        } else {
            "false"
        },
    );
    message
}

/// The statements that write `ROUTES_TO` edges, in the order in which they run.
pub open spec fn routes_to_plan(edges: Seq<crate::ports::RoutesToEdgeView>) -> Seq<EdgeUpsertView> {
    seq![
        EdgeUpsertView {
            edge_type: "ROUTES_TO"@,
            statement: ROUTES_TO_RESOLVED_UPSERT@,
            rows: resolved_route_rows(edges),
        },
        EdgeUpsertView {
            edge_type: "ROUTES_TO"@,
            statement: ROUTES_TO_UNRESOLVED_UPSERT@,
            rows: unresolved_route_rows(edges),
        },
    ]
}

/// Whether `text` is what is said of the first edge among `edges` that is
/// resolved without a target or has a target without being resolved.
pub open spec fn is_first_inconsistency(
    edges: Seq<crate::ports::RoutesToEdgeView>,
    text: Seq<char>,
) -> bool {
    exists|i: int|
        0 <= i < edges.len() && !route_consistent(#[trigger] edges[i]) && text
            == inconsistency_text(edges[i]) && forall|j: int|
            0 <= j < i ==> route_consistent(#[trigger] edges[j])
}

/// Plans the writing of `ROUTES_TO` edges: first those that reach a `VPC`
/// node, then those that resolve to none. Fails on the first edge that is
/// resolved without a target or has a target without being resolved.
pub fn routes_to_upserts(edges: &[RoutesToEdge]) -> (plan: Result<
    Vec<EdgeUpsert>,
    GraphWriteError,
>)
    ensures
        plan is Ok <==> forall|i: int|
            0 <= i < edges.deep_view().len() ==> route_consistent(
                #[trigger] edges.deep_view()[i],
            ),
        plan matches Ok(upserts) ==> upserts.deep_view() == routes_to_plan(edges.deep_view()),
        plan matches Err(GraphWriteError::Write { source }) ==> (source matches
            ErrorSource::Message(text) && is_first_inconsistency(edges.deep_view(), text@)),
{
    let ghost model = edges.deep_view();
    let mut resolved_rows: Vec<Props> = Vec::new();
    let mut unresolved_rows: Vec<Props> = Vec::new();
    let mut i: usize = 0;
    assert(model.take(0) =~= Seq::empty());
    assert(resolved_rows.deep_view() =~= Seq::empty());
    assert(unresolved_rows.deep_view() =~= Seq::empty());
    while i < edges.len()
        invariant
            0 <= i <= edges@.len(),
            model == edges.deep_view(),
            forall|j: int| 0 <= j < i ==> route_consistent(#[trigger] model[j]),
            resolved_rows.deep_view() == resolved_route_rows(model.take(i as int)),
            unresolved_rows.deep_view() == unresolved_route_rows(model.take(i as int)),
        decreases edges@.len() - i,
    {
        let edge = &edges[i];
        assert(model[i as int] == edge.deep_view());
        assert(model.take(i + 1).drop_last() =~= model.take(i as int));
        assert(model.take(i + 1).last() == edge.deep_view());
        match &edge.target_vpc_id {
            Some(target) => {
                if !edge.resolved {
                    assert(!route_consistent(model[i as int]));
                    return Err(
                        GraphWriteError::Write {
                            source: ErrorSource::Message(inconsistency_message(edge)),
                        },
                    );
                }
                push_row(&mut resolved_rows, routes_to_resolved_row(edge, target.as_str()));
            },
            None => {
                if edge.resolved {
                    assert(!route_consistent(model[i as int]));
                    return Err(
                        GraphWriteError::Write {
                            source: ErrorSource::Message(inconsistency_message(edge)),
                        },
                    );
                }
                push_row(&mut unresolved_rows, routes_to_unresolved_row(edge));
            },
        }
        i = i + 1;
    }
    assert(model.take(i as int) =~= model);
    let plan = vec![
        EdgeUpsert {
            edge_type: "ROUTES_TO",
            statement: ROUTES_TO_RESOLVED_UPSERT,
            rows: resolved_rows,
        },
        EdgeUpsert {
            edge_type: "ROUTES_TO",
            statement: ROUTES_TO_UNRESOLVED_UPSERT,
            rows: unresolved_rows,
        },
    ];
    assert(plan.deep_view() =~= routes_to_plan(model));
    Ok(plan)
}

/// `rows` cut into runs of `batch_size`, the last of them possibly shorter.
pub open spec fn chunks_of<T>(rows: Seq<T>, batch_size: nat) -> Seq<Seq<T>>
    decreases rows.len(),
{
    if rows.len() == 0 || batch_size == 0 {
        Seq::empty()
    } else if rows.len() <= batch_size {
        seq![rows]
    } else {
        seq![rows.take(batch_size as int)] + chunks_of(rows.skip(batch_size as int), batch_size)
    }
}

/// Splits `rows` into runs of `batch_size`, or fewer for the last. Empty input
/// yields no runs.
pub fn chunk_rows<T>(rows: &[T], batch_size: usize) -> (chunks: Vec<&[T]>)
    requires
        batch_size > 0,
    ensures
        chunks@.len() == chunks_of(rows@, batch_size as nat).len(),
        forall|i: int|
            0 <= i < chunks@.len() ==> (#[trigger] chunks@[i])@ == chunks_of(
                rows@,
                batch_size as nat,
            )[i],
{
    let ghost all = chunks_of(rows@, batch_size as nat);
    let mut chunks: Vec<&[T]> = Vec::new();
    let mut start: usize = 0;
    assert(rows@.skip(0) =~= rows@);
    while start < rows.len()
        invariant
            batch_size > 0,
            0 <= start <= rows@.len(),
            all == chunks_of(rows@, batch_size as nat),
            all.len() == chunks@.len() + chunks_of(
                rows@.skip(start as int),
                batch_size as nat,
            ).len(),
            forall|i: int| 0 <= i < chunks@.len() ==> (#[trigger] chunks@[i])@ == all[i],
            forall|i: int|
                0 <= i < all.len() - chunks@.len() ==> #[trigger] chunks_of(
                    rows@.skip(start as int),
                    batch_size as nat,
                )[i] == all[chunks@.len() + i],
        decreases rows@.len() - start,
    {
        let end: usize = if rows.len() - start <= batch_size {
            rows.len()
        } else {
            start + batch_size
        };
        let ghost rest = rows@.skip(start as int);
        let ghost next = rows@.skip(end as int);
        let ghost tail = chunks_of(next, batch_size as nat);
        let ghost done = chunks@.len();
        let chunk = vstd::slice::slice_subrange(rows, start, end);
        proof {
            assert(chunk@ =~= rest.take(end - start));
            if rest.len() <= batch_size {
                assert(rest.take(end - start) =~= rest);
            } else {
                assert(rest.skip(batch_size as int) =~= next);
            }
            assert(chunks_of(rest, batch_size as nat) =~= seq![chunk@] + tail);
            assert(chunks_of(rest, batch_size as nat)[0] == chunk@);
            assert forall|i: int| 0 <= i < tail.len() implies #[trigger] tail[i] == all[done + 1
                + i] by {
                assert(chunks_of(rest, batch_size as nat)[i + 1] == tail[i]);
            }
        }
        chunks.push(chunk);
        start = end;
    }
    chunks
}

/// The runs put together again are the rows, in order.
pub proof fn law_chunks_are_the_rows<T>(rows: Seq<T>, batch_size: nat)
    requires
        batch_size > 0,
    ensures
        chunks_of(rows, batch_size).flatten() == rows,
    decreases rows.len(),
{
    reveal(Seq::flatten);
    let chunks = chunks_of(rows, batch_size);
    if rows.len() == 0 {
        assert(chunks.flatten() =~= rows);
    } else if rows.len() <= batch_size {
        let none = Seq::<Seq<T>>::empty();
        assert(none.flatten() =~= Seq::empty());
        assert(chunks.drop_first() =~= none);
        assert(chunks.flatten() =~= rows);
    } else {
        law_chunks_are_the_rows(rows.skip(batch_size as int), batch_size);
        assert(chunks.drop_first() =~= chunks_of(rows.skip(batch_size as int), batch_size));
        assert(chunks.flatten() =~= rows);
    }
}

/// Every run is non-empty and no longer than `batch_size`, and all but the
/// last have that length.
pub proof fn law_chunk_sizes<T>(rows: Seq<T>, batch_size: nat, i: int)
    requires
        batch_size > 0,
        0 <= i < chunks_of(rows, batch_size).len(),
    ensures
        1 <= chunks_of(rows, batch_size)[i].len() <= batch_size,
        i < chunks_of(rows, batch_size).len() - 1 ==> chunks_of(rows, batch_size)[i].len()
            == batch_size,
    decreases rows.len(),
{
    if rows.len() > batch_size && i > 0 {
        let rest = rows.skip(batch_size as int);
        law_chunk_sizes(rest, batch_size, i - 1);
        assert(chunks_of(rows, batch_size)[i] == chunks_of(rest, batch_size)[i - 1]);
    }
}

/// What is said of a run of rows some of which had an endpoint that is not in
/// the graph.
pub open spec fn unresolved_endpoints_text(edge_type: Seq<char>, sent: nat, merged: nat) -> Seq<
    char,
> {
    edge_type + " upsert: "@ + crate::text::decimal((sent - merged) as nat) + " of "@
        + crate::text::decimal(sent) + " rows had an unresolved endpoint"@
}

/// Judges the answer to a run of `sent` edge rows: every row must have been
/// merged. A row is not merged where one of its endpoints is not in the graph,
/// which the statement itself does not report as an error.
pub fn check_merged(edge_type: &str, sent: usize, merged: Option<i64>) -> (checked: Result<
    (),
    GraphWriteError,
>)
    requires
        merged matches Some(count) ==> 0 <= count <= sent,
    ensures
        checked is Ok <==> (merged matches Some(count) && count == sent),
        checked matches Err(GraphWriteError::Write { source }) ==> (source matches
            ErrorSource::Message(text) && text@ == (match merged {
            None => edge_type@ + " upsert returned no summary row"@,
            Some(count) => unresolved_endpoints_text(edge_type@, sent as nat, count as nat),
        })),
{
    match merged {
        None => {
            let mut text = String::from_str(edge_type);
            text.append(" upsert returned no summary row");
            Err(GraphWriteError::Write { source: ErrorSource::Message(text) })
        },
        Some(count) => {
            if count as u64 == sent as u64 {
                return Ok(());
            }
            let mut text = String::from_str(edge_type);
            text.append(" upsert: ");
            push_decimal(&mut text, sent as u64 - count as u64);
            text.append(" of ");
            push_decimal(&mut text, sent as u64);
            text.append(" rows had an unresolved endpoint");
            Err(GraphWriteError::Write { source: ErrorSource::Message(text) })
        },
    }
}

} // verus!
