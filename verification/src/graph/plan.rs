//! The writing of a batch: which records and edges go to the graph, and in
//! which order.
//!
//! Nodes come before edges, so that every edge finds its endpoints. Rules are
//! grouped by the resource that owns them.
use vstd::prelude::*;

use crate::domain::rule::{NaclRule, SgRule};
use crate::graph::groups::group_rule_edges;
use crate::graph::model::{Edge, GraphBatch};
use crate::ports::{
    EniRecord, HasSgEdge, InSubnetEdge, NetworkAclRecord, ProtectedByEdge, RouteTableRecord,
    RoutesToEdge, SecurityGroupRecord, SubnetRecord, UsesRouteTableEdge, VpcRecord,
};

verus! {

/// One call on the writer of the graph.
#[derive(Debug, PartialEq, Eq)]
pub enum GraphWrite {
    Enis(Vec<EniRecord>),
    SecurityGroups(Vec<SecurityGroupRecord>),
    NetworkAcls(Vec<NetworkAclRecord>),
    Subnets(Vec<SubnetRecord>),
    Vpcs(Vec<VpcRecord>),
    RouteTables(Vec<RouteTableRecord>),
    HasSg(Vec<HasSgEdge>),
    InSubnet(Vec<InSubnetEdge>),
    ProtectedBy(Vec<ProtectedByEdge>),
    UsesRouteTable(Vec<UsesRouteTableEdge>),
    RoutesTo(Vec<RoutesToEdge>),
    /// Ingress rules by the security group that owns them.
    AllowsIngress(Vec<(String, Vec<SgRule>)>),
    /// Egress rules by the security group that owns them.
    AllowsEgress(Vec<(String, Vec<SgRule>)>),
    /// Rules by the network ACL that owns them.
    HasRules(Vec<(String, Vec<NaclRule>)>),
}

/// What a `GraphWrite` holds.
pub ghost enum GraphWriteView {
    Enis(Seq<crate::ports::EniRecordView>),
    SecurityGroups(Seq<crate::ports::SecurityGroupRecordView>),
    NetworkAcls(Seq<crate::ports::NetworkAclRecordView>),
    Subnets(Seq<crate::ports::SubnetRecordView>),
    Vpcs(Seq<crate::ports::VpcRecordView>),
    RouteTables(Seq<crate::ports::RouteTableRecordView>),
    HasSg(Seq<crate::ports::HasSgEdgeView>),
    InSubnet(Seq<crate::ports::InSubnetEdgeView>),
    ProtectedBy(Seq<crate::ports::ProtectedByEdgeView>),
    UsesRouteTable(Seq<crate::ports::UsesRouteTableEdgeView>),
    RoutesTo(Seq<crate::ports::RoutesToEdgeView>),
    AllowsIngress(Seq<(Seq<char>, Seq<crate::domain::rule::SgRuleView>)>),
    AllowsEgress(Seq<(Seq<char>, Seq<crate::domain::rule::SgRuleView>)>),
    HasRules(Seq<(Seq<char>, Seq<crate::domain::rule::NaclRuleView>)>),
}

impl DeepView for GraphWrite {
    type V = GraphWriteView;

    open spec fn deep_view(&self) -> GraphWriteView {
        match self {
            GraphWrite::Enis(items) => GraphWriteView::Enis(items.deep_view()),
            GraphWrite::SecurityGroups(items) => GraphWriteView::SecurityGroups(items.deep_view()),
            GraphWrite::NetworkAcls(items) => GraphWriteView::NetworkAcls(items.deep_view()),
            GraphWrite::Subnets(items) => GraphWriteView::Subnets(items.deep_view()),
            GraphWrite::Vpcs(items) => GraphWriteView::Vpcs(items.deep_view()),
            GraphWrite::RouteTables(items) => GraphWriteView::RouteTables(items.deep_view()),
            GraphWrite::HasSg(items) => GraphWriteView::HasSg(items.deep_view()),
            GraphWrite::InSubnet(items) => GraphWriteView::InSubnet(items.deep_view()),
            GraphWrite::ProtectedBy(items) => GraphWriteView::ProtectedBy(items.deep_view()),
            GraphWrite::UsesRouteTable(items) => GraphWriteView::UsesRouteTable(items.deep_view()),
            GraphWrite::RoutesTo(items) => GraphWriteView::RoutesTo(items.deep_view()),
            GraphWrite::AllowsIngress(items) => GraphWriteView::AllowsIngress(items.deep_view()),
            GraphWrite::AllowsEgress(items) => GraphWriteView::AllowsEgress(items.deep_view()),
            GraphWrite::HasRules(items) => GraphWriteView::HasRules(items.deep_view()),
        }
    }
}

/// The `HAS_SG` edges among `edges`, in order.
pub open spec fn has_sg_of(edges: Seq<crate::graph::model::EdgeView>) -> Seq<
    crate::ports::HasSgEdgeView,
>
    decreases edges.len(),
{
    if edges.len() == 0 {
        Seq::empty()
    } else {
        match edges.last() {
            crate::graph::model::EdgeView::HasSg(edge) => has_sg_of(edges.drop_last()).push(edge),
            _ => has_sg_of(edges.drop_last()),
        }
    }
}

/// The `IN_SUBNET` edges among `edges`, in order.
pub open spec fn in_subnet_of(edges: Seq<crate::graph::model::EdgeView>) -> Seq<
    crate::ports::InSubnetEdgeView,
>
    decreases edges.len(),
{
    if edges.len() == 0 {
        Seq::empty()
    } else {
        match edges.last() {
            crate::graph::model::EdgeView::InSubnet(edge) => in_subnet_of(edges.drop_last()).push(edge),
            _ => in_subnet_of(edges.drop_last()),
        }
    }
}

/// The `PROTECTED_BY` edges among `edges`, in order.
pub open spec fn protected_by_of(edges: Seq<crate::graph::model::EdgeView>) -> Seq<
    crate::ports::ProtectedByEdgeView,
>
    decreases edges.len(),
{
    if edges.len() == 0 {
        Seq::empty()
    } else {
        match edges.last() {
            crate::graph::model::EdgeView::ProtectedBy(edge) => protected_by_of(edges.drop_last()).push(edge),
            _ => protected_by_of(edges.drop_last()),
        }
    }
}

/// The `USES_ROUTE_TABLE` edges among `edges`, in order.
pub open spec fn uses_route_table_of(edges: Seq<crate::graph::model::EdgeView>) -> Seq<
    crate::ports::UsesRouteTableEdgeView,
>
    decreases edges.len(),
{
    if edges.len() == 0 {
        Seq::empty()
    } else {
        match edges.last() {
            crate::graph::model::EdgeView::UsesRouteTable(edge) => uses_route_table_of(edges.drop_last()).push(edge),
            _ => uses_route_table_of(edges.drop_last()),
        }
    }
}

/// The `ROUTES_TO` edges among `edges`, in order.
pub open spec fn routes_to_of(edges: Seq<crate::graph::model::EdgeView>) -> Seq<
    crate::ports::RoutesToEdgeView,
>
    decreases edges.len(),
{
    if edges.len() == 0 {
        Seq::empty()
    } else {
        match edges.last() {
            crate::graph::model::EdgeView::RoutesTo(edge) => routes_to_of(edges.drop_last()).push(edge),
            _ => routes_to_of(edges.drop_last()),
        }
    }
}

/// The writes of a batch, in the order in which they are made.
pub open spec fn write_plan(batch: crate::graph::model::GraphBatchView) -> Seq<GraphWriteView> {
    seq![
        GraphWriteView::Enis(batch.enis),
        GraphWriteView::SecurityGroups(batch.security_groups),
        GraphWriteView::NetworkAcls(batch.network_acls),
        GraphWriteView::Subnets(batch.subnets),
        GraphWriteView::Vpcs(batch.vpcs),
        GraphWriteView::RouteTables(batch.route_tables),
        GraphWriteView::HasSg(has_sg_of(batch.edges)),
        GraphWriteView::InSubnet(in_subnet_of(batch.edges)),
        GraphWriteView::ProtectedBy(protected_by_of(batch.edges)),
        GraphWriteView::UsesRouteTable(uses_route_table_of(batch.edges)),
        GraphWriteView::RoutesTo(routes_to_of(batch.edges)),
        GraphWriteView::AllowsIngress(
            crate::graph::groups::grouped(crate::graph::groups::ingress_pairs(batch.edges)),
        ),
        GraphWriteView::AllowsEgress(
            crate::graph::groups::grouped(crate::graph::groups::egress_pairs(batch.edges)),
        ),
        GraphWriteView::HasRules(
            crate::graph::groups::grouped(crate::graph::groups::nacl_pairs(batch.edges)),
        ),
    ]
}

fn push_edge<T: DeepView>(edges: &mut Vec<T>, edge: T)
    ensures
        final(edges).deep_view() == old(edges).deep_view().push(edge.deep_view()),
{
    let ghost before = edges.deep_view();
    let ghost added = edge.deep_view();
    edges.push(edge);
    assert(edges.deep_view() =~= before.push(added));
}

/// The topology edges of a batch, by kind.
struct TopologyEdges {
    has_sg: Vec<HasSgEdge>,
    in_subnet: Vec<InSubnetEdge>,
    protected_by: Vec<ProtectedByEdge>,
    uses_route_table: Vec<UsesRouteTableEdge>,
    routes_to: Vec<RoutesToEdge>,
}

impl TopologyEdges {
    /// Whether this holds the topology edges among `edges`.
    spec fn sorts(self, edges: Seq<crate::graph::model::EdgeView>) -> bool {
        &&& self.has_sg.deep_view() == has_sg_of(edges)
        &&& self.in_subnet.deep_view() == in_subnet_of(edges)
        &&& self.protected_by.deep_view() == protected_by_of(edges)
        &&& self.uses_route_table.deep_view() == uses_route_table_of(edges)
        &&& self.routes_to.deep_view() == routes_to_of(edges)
    }
}

fn sort_topology_edges(edges: &Vec<Edge>) -> (sorted: TopologyEdges)
    ensures
        sorted.sorts(edges.deep_view()),
{
    let ghost model = edges.deep_view();
    let mut sorted = TopologyEdges {
        has_sg: Vec::new(),
        in_subnet: Vec::new(),
        protected_by: Vec::new(),
        uses_route_table: Vec::new(),
        routes_to: Vec::new(),
    };
    let mut i: usize = 0;
    proof {
        assert(model.take(0) =~= Seq::empty());
        assert(sorted.has_sg.deep_view() =~= Seq::empty());
        assert(sorted.in_subnet.deep_view() =~= Seq::empty());
        assert(sorted.protected_by.deep_view() =~= Seq::empty());
        assert(sorted.uses_route_table.deep_view() =~= Seq::empty());
        assert(sorted.routes_to.deep_view() =~= Seq::empty());
    }
    while i < edges.len()
        invariant
            0 <= i <= edges@.len(),
            model == edges.deep_view(),
            sorted.sorts(model.take(i as int)),
        decreases edges@.len() - i,
    {
        assert(model.take(i + 1).drop_last() =~= model.take(i as int));
        assert(model.take(i + 1).last() == edges@[i as int].deep_view());
        match &edges[i] {
            Edge::HasSg(edge) => push_edge(
                &mut sorted.has_sg,
                HasSgEdge {
                    eni_id: edge.eni_id.clone(),
                    security_group_id: edge.security_group_id.clone(),
                },
            ),
            Edge::InSubnet(edge) => push_edge(
                &mut sorted.in_subnet,
                InSubnetEdge {
                    eni_id: edge.eni_id.clone(),
                    subnet_id: edge.subnet_id.clone(),
                },
            ),
            Edge::ProtectedBy(edge) => push_edge(
                &mut sorted.protected_by,
                ProtectedByEdge {
                    subnet_id: edge.subnet_id.clone(),
                    network_acl_id: edge.network_acl_id.clone(),
                },
            ),
            Edge::UsesRouteTable(edge) => push_edge(
                &mut sorted.uses_route_table,
                UsesRouteTableEdge {
                    subnet_id: edge.subnet_id.clone(),
                    route_table_id: edge.route_table_id.clone(),
                },
            ),
            Edge::RoutesTo(edge) => {
                let target_vpc_id = edge.target_vpc_id.clone();
                push_edge(
                    &mut sorted.routes_to,
                    RoutesToEdge {
                        route_table_id: edge.route_table_id.clone(),
                        destination_cidr: edge.destination_cidr.clone(),
                        target_vpc_id,
                        resolved: edge.resolved,
                    },
                );
            },
            _ => {},
        }
        i = i + 1;
    }
    assert(model.take(i as int) =~= model);
    sorted
}

/// Plans the writes of a batch.
pub fn plan_writes(batch: GraphBatch) -> (plan: Vec<GraphWrite>)
    ensures
        plan.deep_view() == write_plan(batch.deep_view()),
{
    let ghost model = batch.deep_view();
    let (egress, ingress, nacl) = group_rule_edges(batch.edges.as_slice());
    let topology = sort_topology_edges(&batch.edges);
    let plan = vec![
        GraphWrite::Enis(batch.enis),
        GraphWrite::SecurityGroups(batch.security_groups),
        GraphWrite::NetworkAcls(batch.network_acls),
        GraphWrite::Subnets(batch.subnets),
        GraphWrite::Vpcs(batch.vpcs),
        GraphWrite::RouteTables(batch.route_tables),
        GraphWrite::HasSg(topology.has_sg),
        GraphWrite::InSubnet(topology.in_subnet),
        GraphWrite::ProtectedBy(topology.protected_by),
        GraphWrite::UsesRouteTable(topology.uses_route_table),
        GraphWrite::RoutesTo(topology.routes_to),
        GraphWrite::AllowsIngress(ingress),
        GraphWrite::AllowsEgress(egress),
        GraphWrite::HasRules(nacl),
    ];
    assert(plan.deep_view() =~= write_plan(model));
    plan
}

/// Whether a write is of nodes.
pub open spec fn writes_nodes(write: GraphWriteView) -> bool {
    write is Enis || write is SecurityGroups || write is NetworkAcls || write is Subnets
        || write is Vpcs || write is RouteTables
}

/// Every node is written before any edge, so that no edge misses an endpoint
/// of its own batch.
pub proof fn law_nodes_are_written_first(
    batch: crate::graph::model::GraphBatchView,
    i: int,
    j: int,
)
    requires
        0 <= i < write_plan(batch).len(),
        0 <= j < write_plan(batch).len(),
        writes_nodes(write_plan(batch)[i]),
        !writes_nodes(write_plan(batch)[j]),
    ensures
        i < j,
{
}

/// Every edge of a batch goes into exactly one of the planned writes.
pub proof fn law_every_edge_is_written_once(edges: Seq<crate::graph::model::EdgeView>)
    ensures
        has_sg_of(edges).len() + in_subnet_of(edges).len() + protected_by_of(edges).len()
            + uses_route_table_of(edges).len() + routes_to_of(edges).len()
            + crate::graph::groups::total(
            crate::graph::groups::grouped(crate::graph::groups::ingress_pairs(edges)),
        ) + crate::graph::groups::total(
            crate::graph::groups::grouped(crate::graph::groups::egress_pairs(edges)),
        ) + crate::graph::groups::total(
            crate::graph::groups::grouped(crate::graph::groups::nacl_pairs(edges)),
        ) == edges.len(),
    decreases edges.len(),
{
    crate::graph::groups::law_grouping_keeps_every_item(
        crate::graph::groups::ingress_pairs(edges),
    );
    crate::graph::groups::law_grouping_keeps_every_item(crate::graph::groups::egress_pairs(edges));
    crate::graph::groups::law_grouping_keeps_every_item(crate::graph::groups::nacl_pairs(edges));
    if edges.len() > 0 {
        let front = edges.drop_last();
        law_every_edge_is_written_once(front);
        crate::graph::groups::law_grouping_keeps_every_item(
            crate::graph::groups::ingress_pairs(front),
        );
        crate::graph::groups::law_grouping_keeps_every_item(
            crate::graph::groups::egress_pairs(front),
        );
        crate::graph::groups::law_grouping_keeps_every_item(
            crate::graph::groups::nacl_pairs(front),
        );
    }
}

} // verus!
