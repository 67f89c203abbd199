//! The batch of nodes and edges that one ingestion pass derives.
use vstd::prelude::*;

use crate::domain::rule::{NaclRule, SgRule};
use crate::ports::{
    EniRecord, HasSgEdge, InSubnetEdge, NetworkAclRecord, ProtectedByEdge, RouteTableRecord,
    RoutesToEdge, SecurityGroupRecord, SubnetRecord, UsesRouteTableEdge, VpcRecord,
};

verus! {

/// One graph edge, with exactly one payload type per kind of edge.
#[derive(Debug, Clone, PartialEq, Eq)]
pub enum Edge {
    /// A `HAS_SG` edge: `ENI` to `SecurityGroup`.
    HasSg(HasSgEdge),
    /// An `IN_SUBNET` edge: `ENI` to `Subnet`.
    InSubnet(InSubnetEdge),
    /// A `PROTECTED_BY` edge: `Subnet` to `NetworkACL`.
    ProtectedBy(ProtectedByEdge),
    /// A `USES_ROUTE_TABLE` edge: `Subnet` to `RouteTable`.
    UsesRouteTable(UsesRouteTableEdge),
    /// A `ROUTES_TO` edge: `RouteTable` to `VPC`, or unresolved.
    RoutesTo(RoutesToEdge),
    /// An `ALLOWS_INGRESS` edge, owned by the `SecurityGroup` with `security_group_id`.
    AllowsIngress { security_group_id: String, rule: SgRule },
    /// An `ALLOWS_EGRESS` edge, owned by the `SecurityGroup` with `security_group_id`.
    AllowsEgress { security_group_id: String, rule: SgRule },
    /// A `HAS_RULE` self-edge, owned by the `NetworkACL` with `network_acl_id`.
    HasRule { network_acl_id: String, rule: NaclRule },
}

/// What an `Edge` holds.
pub ghost enum EdgeView {
    HasSg(crate::ports::HasSgEdgeView),
    InSubnet(crate::ports::InSubnetEdgeView),
    ProtectedBy(crate::ports::ProtectedByEdgeView),
    UsesRouteTable(crate::ports::UsesRouteTableEdgeView),
    RoutesTo(crate::ports::RoutesToEdgeView),
    AllowsIngress { security_group_id: Seq<char>, rule: crate::domain::rule::SgRuleView },
    AllowsEgress { security_group_id: Seq<char>, rule: crate::domain::rule::SgRuleView },
    HasRule { network_acl_id: Seq<char>, rule: crate::domain::rule::NaclRuleView },
}

impl DeepView for Edge {
    type V = EdgeView;

    open spec fn deep_view(&self) -> EdgeView {
        match self {
            Edge::HasSg(edge) => EdgeView::HasSg(edge.deep_view()),
            Edge::InSubnet(edge) => EdgeView::InSubnet(edge.deep_view()),
            Edge::ProtectedBy(edge) => EdgeView::ProtectedBy(edge.deep_view()),
            Edge::UsesRouteTable(edge) => EdgeView::UsesRouteTable(edge.deep_view()),
            Edge::RoutesTo(edge) => EdgeView::RoutesTo(edge.deep_view()),
            Edge::AllowsIngress { security_group_id, rule } => EdgeView::AllowsIngress {
                security_group_id: security_group_id@,
                rule: rule.deep_view(),
            },
            Edge::AllowsEgress { security_group_id, rule } => EdgeView::AllowsEgress {
                security_group_id: security_group_id@,
                rule: rule.deep_view(),
            },
            Edge::HasRule { network_acl_id, rule } => EdgeView::HasRule {
                network_acl_id: network_acl_id@,
                rule: rule.deep_view(),
            },
        }
    }
}

/// The full set of nodes and edges derived from one ingestion pass. It holds
/// no `RegulatedBoundary` nodes: those are operator-assigned, not derived from
/// AWS topology.
#[derive(Debug, Clone, PartialEq, Eq)]
pub struct GraphBatch {
    /// `ENI` nodes, one per network interface.
    pub enis: Vec<EniRecord>,
    /// `SecurityGroup` nodes, one per security group.
    pub security_groups: Vec<SecurityGroupRecord>,
    /// `NetworkACL` nodes, one per network ACL.
    pub network_acls: Vec<NetworkAclRecord>,
    /// `Subnet` nodes, one per subnet that any resource references.
    pub subnets: Vec<SubnetRecord>,
    /// `VPC` nodes, one per VPC that any resource references.
    pub vpcs: Vec<VpcRecord>,
    /// `RouteTable` nodes, one per route table.
    pub route_tables: Vec<RouteTableRecord>,
    /// Every topology and rule edge derived from this ingestion pass.
    pub edges: Vec<Edge>,
}

/// What a `GraphBatch` holds.
pub ghost struct GraphBatchView {
    pub enis: Seq<crate::ports::EniRecordView>,
    pub security_groups: Seq<crate::ports::SecurityGroupRecordView>,
    pub network_acls: Seq<crate::ports::NetworkAclRecordView>,
    pub subnets: Seq<crate::ports::SubnetRecordView>,
    pub vpcs: Seq<crate::ports::VpcRecordView>,
    pub route_tables: Seq<crate::ports::RouteTableRecordView>,
    pub edges: Seq<EdgeView>,
}

impl DeepView for GraphBatch {
    type V = GraphBatchView;

    open spec fn deep_view(&self) -> GraphBatchView {
        GraphBatchView {
            enis: self.enis.deep_view(),
            security_groups: self.security_groups.deep_view(),
            network_acls: self.network_acls.deep_view(),
            subnets: self.subnets.deep_view(),
            vpcs: self.vpcs.deep_view(),
            route_tables: self.route_tables.deep_view(),
            edges: self.edges.deep_view(),
        }
    }
}

impl GraphBatchView {
    /// The batch without nodes and edges.
    pub open spec fn empty() -> GraphBatchView {
        GraphBatchView {
            enis: Seq::empty(),
            security_groups: Seq::empty(),
            network_acls: Seq::empty(),
            subnets: Seq::empty(),
            vpcs: Seq::empty(),
            route_tables: Seq::empty(),
            edges: Seq::empty(),
        }
    }
}

impl Default for GraphBatch {
    fn default() -> (batch: Self)
        ensures
            batch.deep_view() == GraphBatchView::empty(),
    {
        let batch = GraphBatch {
            enis: Vec::new(),
            security_groups: Vec::new(),
            network_acls: Vec::new(),
            subnets: Vec::new(),
            vpcs: Vec::new(),
            route_tables: Vec::new(),
            edges: Vec::new(),
        };
        assert(batch.enis.deep_view() =~= Seq::empty());
        assert(batch.security_groups.deep_view() =~= Seq::empty());
        assert(batch.network_acls.deep_view() =~= Seq::empty());
        assert(batch.subnets.deep_view() =~= Seq::empty());
        assert(batch.vpcs.deep_view() =~= Seq::empty());
        assert(batch.route_tables.deep_view() =~= Seq::empty());
        assert(batch.edges.deep_view() =~= Seq::empty());
        batch
    }
}

} // verus!
