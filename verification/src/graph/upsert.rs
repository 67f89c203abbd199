//! From the writes of a batch to the statements that carry them out.
use vstd::prelude::*;

use crate::domain::rule::{Direction, NaclRule, SgRule};
use crate::error::{ErrorSource, GraphWriteError};
use crate::graph::neo4j::{
    allows_upserts, eni_row, has_rule_upsert, has_sg_row, in_subnet_row, network_acl_row,
    protected_by_row, regulated_boundary_row, route_table_row, routes_to_upserts,
    security_group_row, subnet_row, uses_route_table_row, vpc_row, EdgeUpsert, NodeRow,
    HAS_SG_UPSERT, IN_SUBNET_UPSERT, PROTECTED_BY_UPSERT, USES_ROUTE_TABLE_UPSERT,
};
use crate::graph::plan::GraphWrite;
use crate::ports::{NaclRuleBatch, RegulatedBoundaryRecord, SgRuleBatch};

verus! {

/// One statement with its rows.
#[derive(Debug, PartialEq, Eq)]
pub enum Upsert {
    /// Merges nodes under a label.
    Nodes { label: &'static str, rows: Vec<NodeRow> },
    /// Merges edges.
    Edges(EdgeUpsert),
}

/// What an `Upsert` holds.
pub ghost enum UpsertView {
    Nodes { label: Seq<char>, rows: Seq<crate::graph::neo4j::NodeRowView> },
    Edges(crate::graph::neo4j::EdgeUpsertView),
}

impl DeepView for Upsert {
    type V = UpsertView;

    open spec fn deep_view(&self) -> UpsertView {
        match self {
            Upsert::Nodes { label, rows } => UpsertView::Nodes {
                label: label@,
                rows: rows.deep_view(),
            },
            Upsert::Edges(upsert) => UpsertView::Edges(upsert.deep_view()),
        }
    }
}

/// Rules grouped by their security group, as batches.
pub open spec fn sg_batches(
    groups: Seq<(Seq<char>, Seq<crate::domain::rule::SgRuleView>)>,
) -> Seq<crate::ports::SgRuleBatchView> {
    groups.map_values(
        |group: (Seq<char>, Seq<crate::domain::rule::SgRuleView>)|
            crate::ports::SgRuleBatchView { security_group_id: group.0, rules: group.1 },
    )
}

/// Rules grouped by their network ACL, as batches.
pub open spec fn nacl_batches(
    groups: Seq<(Seq<char>, Seq<crate::domain::rule::NaclRuleView>)>,
) -> Seq<crate::ports::NaclRuleBatchView> {
    groups.map_values(
        |group: (Seq<char>, Seq<crate::domain::rule::NaclRuleView>)|
            crate::ports::NaclRuleBatchView { network_acl_id: group.0, rules: group.1 },
    )
}

/// Statements that merge edges.
pub open spec fn edge_upserts(plan: Seq<crate::graph::neo4j::EdgeUpsertView>) -> Seq<UpsertView> {
    plan.map_values(|upsert: crate::graph::neo4j::EdgeUpsertView| UpsertView::Edges(upsert))
}

/// Whether a write can be carried out: every route in it is resolved exactly
/// where it has a target.
pub open spec fn is_writable(write: crate::graph::plan::GraphWriteView) -> bool {
    match write {
        crate::graph::plan::GraphWriteView::RoutesTo(edges) => forall|i: int|
            0 <= i < edges.len() ==> crate::graph::neo4j::route_consistent(#[trigger] edges[i]),
        _ => true,
    }
}

/// The statements that carry out a write, in the order in which they run.
pub open spec fn upserts_of(write: crate::graph::plan::GraphWriteView) -> Seq<UpsertView> {
    match write {
        crate::graph::plan::GraphWriteView::Enis(records) => seq![
            UpsertView::Nodes {
                label: "ENI"@,
                rows: records.map_values(
                    |record: crate::ports::EniRecordView| crate::graph::neo4j::eni_row_of(record),
                ),
            },
        ],
        crate::graph::plan::GraphWriteView::SecurityGroups(records) => seq![
            UpsertView::Nodes {
                label: "SecurityGroup"@,
                rows: records.map_values(
                    |record: crate::ports::SecurityGroupRecordView| crate::graph::neo4j::security_group_row_of(record),
                ),
            },
        ],
        crate::graph::plan::GraphWriteView::NetworkAcls(records) => seq![
            UpsertView::Nodes {
                label: "NetworkACL"@,
                rows: records.map_values(
                    |record: crate::ports::NetworkAclRecordView| crate::graph::neo4j::network_acl_row_of(record),
                ),
            },
        ],
        crate::graph::plan::GraphWriteView::Subnets(records) => seq![
            UpsertView::Nodes {
                label: "Subnet"@,
                rows: records.map_values(
                    |record: crate::ports::SubnetRecordView| crate::graph::neo4j::subnet_row_of(record),
                ),
            },
        ],
        crate::graph::plan::GraphWriteView::Vpcs(records) => seq![
            UpsertView::Nodes {
                label: "VPC"@,
                rows: records.map_values(
                    |record: crate::ports::VpcRecordView| crate::graph::neo4j::vpc_row_of(record),
                ),
            },
        ],
        crate::graph::plan::GraphWriteView::RouteTables(records) => seq![
            UpsertView::Nodes {
                label: "RouteTable"@,
                rows: records.map_values(
                    |record: crate::ports::RouteTableRecordView| crate::graph::neo4j::route_table_row_of(record),
                ),
            },
        ],
        crate::graph::plan::GraphWriteView::HasSg(edges) => seq![
            UpsertView::Edges(
                crate::graph::neo4j::EdgeUpsertView {
                    edge_type: "HAS_SG"@,
                    statement: HAS_SG_UPSERT@,
                    rows: edges.map_values(
                        |edge: crate::ports::HasSgEdgeView| crate::graph::neo4j::has_sg_row_of(edge),
                    ),
                },
            ),
        ],
        crate::graph::plan::GraphWriteView::InSubnet(edges) => seq![
            UpsertView::Edges(
                crate::graph::neo4j::EdgeUpsertView {
                    edge_type: "IN_SUBNET"@,
                    statement: IN_SUBNET_UPSERT@,
                    rows: edges.map_values(
                        |edge: crate::ports::InSubnetEdgeView| crate::graph::neo4j::in_subnet_row_of(edge),
                    ),
                },
            ),
        ],
        crate::graph::plan::GraphWriteView::ProtectedBy(edges) => seq![
            UpsertView::Edges(
                crate::graph::neo4j::EdgeUpsertView {
                    edge_type: "PROTECTED_BY"@,
                    statement: PROTECTED_BY_UPSERT@,
                    rows: edges.map_values(
                        |edge: crate::ports::ProtectedByEdgeView| crate::graph::neo4j::protected_by_row_of(edge),
                    ),
                },
            ),
        ],
        crate::graph::plan::GraphWriteView::UsesRouteTable(edges) => seq![
            UpsertView::Edges(
                crate::graph::neo4j::EdgeUpsertView {
                    edge_type: "USES_ROUTE_TABLE"@,
                    statement: USES_ROUTE_TABLE_UPSERT@,
                    rows: edges.map_values(
                        |edge: crate::ports::UsesRouteTableEdgeView| crate::graph::neo4j::uses_route_table_row_of(edge),
                    ),
                },
            ),
        ],
        crate::graph::plan::GraphWriteView::RoutesTo(edges) => edge_upserts(
            crate::graph::neo4j::routes_to_plan(edges),
        ),
        crate::graph::plan::GraphWriteView::AllowsIngress(groups) => edge_upserts(
            crate::graph::neo4j::allows_plan(sg_batches(groups), Direction::Ingress),
        ),
        crate::graph::plan::GraphWriteView::AllowsEgress(groups) => edge_upserts(
            crate::graph::neo4j::allows_plan(sg_batches(groups), Direction::Egress),
        ),
        crate::graph::plan::GraphWriteView::HasRules(groups) => seq![
            UpsertView::Edges(
                crate::graph::neo4j::EdgeUpsertView {
                    edge_type: "HAS_RULE"@,
                    statement: crate::graph::neo4j::HAS_RULE_UPSERT@,
                    rows: crate::graph::neo4j::nacl_batch_rows(nacl_batches(groups)),
                },
            ),
        ],
    }
}

/// The rows of `items`, in order.
fn map_rows<T: DeepView, R: DeepView, F: Fn(&T) -> R>(
    items: &[T],
    row: F,
    Ghost(row_of): Ghost<spec_fn(T::V) -> R::V>,
) -> (rows: Vec<R>)
    requires
        forall|item: &T| call_requires(row, (item,)),
        forall|item: &T, made: R|
            call_ensures(row, (item,), made) ==> made.deep_view() == row_of(item.deep_view()),
    ensures
        rows.deep_view() == items.deep_view().map_values(row_of),
{
    let ghost all = items.deep_view().map_values(row_of);
    let mut rows: Vec<R> = Vec::new();
    let mut i: usize = 0;
    while i < items.len()
        invariant
            0 <= i <= items@.len(),
            all == items.deep_view().map_values(row_of),
            rows@.len() == i,
            forall|item: &T| call_requires(row, (item,)),
            forall|item: &T, made: R|
                call_ensures(row, (item,), made) ==> made.deep_view() == row_of(item.deep_view()),
            forall|j: int| 0 <= j < i ==> (#[trigger] rows@[j]).deep_view() == all[j],
        decreases items@.len() - i,
    {
        let made = row(&items[i]);
        assert(made.deep_view() == all[i as int]);
        rows.push(made);
        i = i + 1;
    }
    assert(rows.deep_view() =~= all);
    rows
}

fn one_upsert(upsert: Upsert) -> (upserts: Vec<Upsert>)
    ensures
        upserts.deep_view() == seq![upsert.deep_view()],
{
    let upserts = vec![upsert];
    assert(upserts.deep_view() =~= seq![upsert.deep_view()]);
    upserts
}

fn wrap_edges(plan: Vec<EdgeUpsert>) -> (upserts: Vec<Upsert>)
    ensures
        upserts.deep_view() == edge_upserts(plan.deep_view()),
{
    let ghost given = plan@;
    let ghost all = edge_upserts(plan.deep_view());
    let mut upserts: Vec<Upsert> = Vec::new();
    for upsert in it: plan
        invariant
            it.seq() == given,
            given == plan@,
            all == edge_upserts(plan.deep_view()),
            upserts@.len() == it.index(),
            forall|j: int|
                0 <= j < it.index() ==> (#[trigger] upserts@[j]).deep_view() == all[j],
    {
        assert(upsert == given[it.index() as int]);
        assert(plan.deep_view()[it.index() as int] == upsert.deep_view());
        upserts.push(Upsert::Edges(upsert));
    }
    assert(upserts.deep_view() =~= all);
    upserts
}

fn as_sg_batches(groups: &Vec<(String, Vec<SgRule>)>) -> (batches: Vec<SgRuleBatch<'_>>)
    ensures
        batches.deep_view() == sg_batches(groups.deep_view()),
{
    let ghost all = sg_batches(groups.deep_view());
    let mut batches: Vec<SgRuleBatch<'_>> = Vec::new();
    let mut i: usize = 0;
    while i < groups.len()
        invariant
            0 <= i <= groups@.len(),
            all == sg_batches(groups.deep_view()),
            batches@.len() == i,
            forall|j: int| 0 <= j < i ==> (#[trigger] batches@[j]).deep_view() == all[j],
        decreases groups@.len() - i,
    {
        assert(groups.deep_view()[i as int] == groups@[i as int].deep_view());
        batches.push(
            SgRuleBatch {
                security_group_id: groups[i].0.as_str(),
                rules: groups[i].1.as_slice(),
            },
        );
        i = i + 1;
    }
    assert(batches.deep_view() =~= all);
    batches
}

fn as_nacl_batches(groups: &Vec<(String, Vec<NaclRule>)>) -> (batches: Vec<NaclRuleBatch<'_>>)
    ensures
        batches.deep_view() == nacl_batches(groups.deep_view()),
{
    let ghost all = nacl_batches(groups.deep_view());
    let mut batches: Vec<NaclRuleBatch<'_>> = Vec::new();
    let mut i: usize = 0;
    while i < groups.len()
        invariant
            0 <= i <= groups@.len(),
            all == nacl_batches(groups.deep_view()),
            batches@.len() == i,
            forall|j: int| 0 <= j < i ==> (#[trigger] batches@[j]).deep_view() == all[j],
        decreases groups@.len() - i,
    {
        assert(groups.deep_view()[i as int] == groups@[i as int].deep_view());
        batches.push(
            NaclRuleBatch {
                network_acl_id: groups[i].0.as_str(),
                rules: groups[i].1.as_slice(),
            },
        );
        i = i + 1;
    }
    assert(batches.deep_view() =~= all);
    batches
}

/// The statement that merges the boundary.
pub fn boundary_upsert(record: &RegulatedBoundaryRecord) -> (upsert: Upsert)
    ensures
        upsert.deep_view() == (UpsertView::Nodes {
            label: "RegulatedBoundary"@,
            rows: seq![crate::graph::neo4j::regulated_boundary_row_of(record.deep_view())],
        }),
{
    let row = regulated_boundary_row(record);
    let rows = vec![row];
    assert(rows.deep_view() =~= seq![row.deep_view()]);
    Upsert::Nodes { label: "RegulatedBoundary", rows }
}

/// Whether a statement merges edges of this type.
pub open spec fn merges_edges(upsert: Upsert, edge_type: Seq<char>) -> bool {
    upsert matches Upsert::Edges(edges) && edges.edge_type@ == edge_type
}

/// The statements that carry out a write, in the order in which they run.
/// Fails where a route is resolved without a target or has a target without
/// being resolved.
pub fn upserts_for(write: &GraphWrite) -> (upserts: Result<Vec<Upsert>, GraphWriteError>)
    ensures
        upserts is Ok <==> is_writable(write.deep_view()),
        upserts matches Ok(made) ==> made.deep_view() == upserts_of(write.deep_view()),
        upserts matches Err(GraphWriteError::Write { source }) ==> (write.deep_view() matches
            crate::graph::plan::GraphWriteView::RoutesTo(edges) && (source matches
            ErrorSource::Message(text) && crate::graph::neo4j::is_first_inconsistency(
            edges,
            text@,
        ))),
        write is AllowsIngress ==> (upserts matches Ok(made) && forall|i: int|
            0 <= i < made@.len() ==> merges_edges(#[trigger] made@[i], "ALLOWS_INGRESS"@)),
        write is AllowsEgress ==> (upserts matches Ok(made) && forall|i: int|
            0 <= i < made@.len() ==> merges_edges(#[trigger] made@[i], "ALLOWS_EGRESS"@)),
{
    match write {
        GraphWrite::Enis(records) => {
            let rows: Vec<NodeRow> = map_rows(
                records.as_slice(),
                eni_row,
                Ghost(|record: crate::ports::EniRecordView| crate::graph::neo4j::eni_row_of(record)),
            );
            Ok(one_upsert(Upsert::Nodes { label: "ENI", rows }))
        },
        GraphWrite::SecurityGroups(records) => {
            let rows: Vec<NodeRow> = map_rows(
                records.as_slice(),
                security_group_row,
                Ghost(|record: crate::ports::SecurityGroupRecordView| crate::graph::neo4j::security_group_row_of(record)),
            );
            Ok(one_upsert(Upsert::Nodes { label: "SecurityGroup", rows }))
        },
        GraphWrite::NetworkAcls(records) => {
            let rows: Vec<NodeRow> = map_rows(
                records.as_slice(),
                network_acl_row,
                Ghost(|record: crate::ports::NetworkAclRecordView| crate::graph::neo4j::network_acl_row_of(record)),
            );
            Ok(one_upsert(Upsert::Nodes { label: "NetworkACL", rows }))
        },
        GraphWrite::Subnets(records) => {
            let rows: Vec<NodeRow> = map_rows(
                records.as_slice(),
                subnet_row,
                Ghost(|record: crate::ports::SubnetRecordView| crate::graph::neo4j::subnet_row_of(record)),
            );
            Ok(one_upsert(Upsert::Nodes { label: "Subnet", rows }))
        },
        GraphWrite::Vpcs(records) => {
            let rows: Vec<NodeRow> = map_rows(
                records.as_slice(),
                vpc_row,
                Ghost(|record: crate::ports::VpcRecordView| crate::graph::neo4j::vpc_row_of(record)),
            );
            Ok(one_upsert(Upsert::Nodes { label: "VPC", rows }))
        },
        GraphWrite::RouteTables(records) => {
            let rows: Vec<NodeRow> = map_rows(
                records.as_slice(),
                route_table_row,
                Ghost(|record: crate::ports::RouteTableRecordView| crate::graph::neo4j::route_table_row_of(record)),
            );
            Ok(one_upsert(Upsert::Nodes { label: "RouteTable", rows }))
        },
        GraphWrite::HasSg(edges) => {
            let rows = map_rows(
                edges.as_slice(),
                has_sg_row,
                Ghost(|edge: crate::ports::HasSgEdgeView| crate::graph::neo4j::has_sg_row_of(edge)),
            );
            let upsert = EdgeUpsert { edge_type: "HAS_SG", statement: HAS_SG_UPSERT, rows };
            Ok(one_upsert(Upsert::Edges(upsert)))
        },
        GraphWrite::InSubnet(edges) => {
            let rows = map_rows(
                edges.as_slice(),
                in_subnet_row,
                Ghost(|edge: crate::ports::InSubnetEdgeView| crate::graph::neo4j::in_subnet_row_of(edge)),
            );
            let upsert = EdgeUpsert { edge_type: "IN_SUBNET", statement: IN_SUBNET_UPSERT, rows };
            Ok(one_upsert(Upsert::Edges(upsert)))
        },
        GraphWrite::ProtectedBy(edges) => {
            let rows = map_rows(
                edges.as_slice(),
                protected_by_row,
                Ghost(|edge: crate::ports::ProtectedByEdgeView| crate::graph::neo4j::protected_by_row_of(edge)),
            );
            let upsert = EdgeUpsert { edge_type: "PROTECTED_BY", statement: PROTECTED_BY_UPSERT, rows };
            Ok(one_upsert(Upsert::Edges(upsert)))
        },
        GraphWrite::UsesRouteTable(edges) => {
            let rows = map_rows(
                edges.as_slice(),
                uses_route_table_row,
                Ghost(|edge: crate::ports::UsesRouteTableEdgeView| crate::graph::neo4j::uses_route_table_row_of(edge)),
            );
            let upsert = EdgeUpsert { edge_type: "USES_ROUTE_TABLE", statement: USES_ROUTE_TABLE_UPSERT, rows };
            Ok(one_upsert(Upsert::Edges(upsert)))
        },
        GraphWrite::RoutesTo(edges) => match routes_to_upserts(edges.as_slice()) {
            Ok(plan) => Ok(wrap_edges(plan)),
            Err(error) => Err(error),
        },
        GraphWrite::AllowsIngress(groups) => {
            let batches = as_sg_batches(groups);
            let plan = allows_upserts(batches.as_slice(), Direction::Ingress);
            let ghost model = plan.deep_view();
            let upserts = wrap_edges(plan);
            assert forall|i: int| 0 <= i < upserts@.len() implies merges_edges(
                #[trigger] upserts@[i],
                "ALLOWS_INGRESS"@,
            ) by {
                assert(upserts.deep_view().len() == upserts@.len());
                assert(upserts.deep_view()[i] == upserts@[i].deep_view());
                assert(i == 0 || i == 1 || i == 2);
                assert(upserts.deep_view()[i] == UpsertView::Edges(model[i]));
            }
            Ok(upserts)
        },
        GraphWrite::AllowsEgress(groups) => {
            let batches = as_sg_batches(groups);
            let plan = allows_upserts(batches.as_slice(), Direction::Egress);
            let ghost model = plan.deep_view();
            let upserts = wrap_edges(plan);
            assert forall|i: int| 0 <= i < upserts@.len() implies merges_edges(
                #[trigger] upserts@[i],
                "ALLOWS_EGRESS"@,
            ) by {
                assert(upserts.deep_view().len() == upserts@.len());
                assert(upserts.deep_view()[i] == upserts@[i].deep_view());
                assert(i == 0 || i == 1 || i == 2);
                assert(upserts.deep_view()[i] == UpsertView::Edges(model[i]));
            }
            Ok(upserts)
        },
        GraphWrite::HasRules(groups) => {
            let batches = as_nacl_batches(groups);
            Ok(one_upsert(Upsert::Edges(has_rule_upsert(batches.as_slice()))))
        },
    }
}

} // verus!
