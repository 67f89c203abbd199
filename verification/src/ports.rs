//! The records and edges that the graph is written with, and what a resolver
//! answers.
use vstd::prelude::*;

use crate::domain::rule::{NaclRule, SgRule};

verus! {

/// An `ENI` node record. The first field of a node record is its upsert key.
#[derive(Debug, Clone, PartialEq, Eq)]
pub struct EniRecord {
    pub id: String,
    pub account_id: String,
    pub vpc_id: String,
    pub subnet_id: String,
    pub private_ip: String,
    pub description: Option<String>,
}

/// What an `EniRecord` holds.
pub ghost struct EniRecordView {
    pub id: Seq<char>,
    pub account_id: Seq<char>,
    pub vpc_id: Seq<char>,
    pub subnet_id: Seq<char>,
    pub private_ip: Seq<char>,
    pub description: Option<Seq<char>>,
}

impl DeepView for EniRecord {
    type V = EniRecordView;

    open spec fn deep_view(&self) -> EniRecordView {
        EniRecordView {
            id: self.id@,
            account_id: self.account_id@,
            vpc_id: self.vpc_id@,
            subnet_id: self.subnet_id@,
            private_ip: self.private_ip@,
            description: self.description.deep_view(),
        }
    }
}

/// A `SecurityGroup` node record.
#[derive(Debug, Clone, PartialEq, Eq)]
pub struct SecurityGroupRecord {
    pub id: String,
    pub account_id: String,
    pub vpc_id: String,
    pub name: String,
    pub description: Option<String>,
}

/// What a `SecurityGroupRecord` holds.
pub ghost struct SecurityGroupRecordView {
    pub id: Seq<char>,
    pub account_id: Seq<char>,
    pub vpc_id: Seq<char>,
    pub name: Seq<char>,
    pub description: Option<Seq<char>>,
}

impl DeepView for SecurityGroupRecord {
    type V = SecurityGroupRecordView;

    open spec fn deep_view(&self) -> SecurityGroupRecordView {
        SecurityGroupRecordView {
            id: self.id@,
            account_id: self.account_id@,
            vpc_id: self.vpc_id@,
            name: self.name@,
            description: self.description.deep_view(),
        }
    }
}

/// A `NetworkACL` node record.
#[derive(Debug, Clone, PartialEq, Eq)]
pub struct NetworkAclRecord {
    pub id: String,
    pub account_id: String,
    pub vpc_id: String,
    pub is_default: bool,
}

/// What a `NetworkAclRecord` holds.
pub ghost struct NetworkAclRecordView {
    pub id: Seq<char>,
    pub account_id: Seq<char>,
    pub vpc_id: Seq<char>,
    pub is_default: bool,
}

impl DeepView for NetworkAclRecord {
    type V = NetworkAclRecordView;

    open spec fn deep_view(&self) -> NetworkAclRecordView {
        NetworkAclRecordView {
            id: self.id@,
            account_id: self.account_id@,
            vpc_id: self.vpc_id@,
            is_default: self.is_default,
        }
    }
}

/// A `Subnet` node record.
#[derive(Debug, Clone, PartialEq, Eq)]
pub struct SubnetRecord {
    pub id: String,
    pub account_id: String,
    pub vpc_id: String,
    pub cidr_block: String,
    pub availability_zone: String,
}

/// What a `SubnetRecord` holds.
pub ghost struct SubnetRecordView {
    pub id: Seq<char>,
    pub account_id: Seq<char>,
    pub vpc_id: Seq<char>,
    pub cidr_block: Seq<char>,
    pub availability_zone: Seq<char>,
}

impl DeepView for SubnetRecord {
    type V = SubnetRecordView;

    open spec fn deep_view(&self) -> SubnetRecordView {
        SubnetRecordView {
            id: self.id@,
            account_id: self.account_id@,
            vpc_id: self.vpc_id@,
            cidr_block: self.cidr_block@,
            availability_zone: self.availability_zone@,
        }
    }
}

/// A `VPC` node record.
#[derive(Debug, Clone, PartialEq, Eq)]
pub struct VpcRecord {
    pub id: String,
    pub account_id: String,
    pub cidr_block: String,
}

/// What a `VpcRecord` holds.
pub ghost struct VpcRecordView {
    pub id: Seq<char>,
    pub account_id: Seq<char>,
    pub cidr_block: Seq<char>,
}

impl DeepView for VpcRecord {
    type V = VpcRecordView;

    open spec fn deep_view(&self) -> VpcRecordView {
        VpcRecordView {
            id: self.id@,
            account_id: self.account_id@,
            cidr_block: self.cidr_block@,
        }
    }
}

/// A `RouteTable` node record.
#[derive(Debug, Clone, PartialEq, Eq)]
pub struct RouteTableRecord {
    pub id: String,
    pub account_id: String,
    pub vpc_id: String,
    pub is_main: bool,
}

/// What a `RouteTableRecord` holds.
pub ghost struct RouteTableRecordView {
    pub id: Seq<char>,
    pub account_id: Seq<char>,
    pub vpc_id: Seq<char>,
    pub is_main: bool,
}

impl DeepView for RouteTableRecord {
    type V = RouteTableRecordView;

    open spec fn deep_view(&self) -> RouteTableRecordView {
        RouteTableRecordView {
            id: self.id@,
            account_id: self.account_id@,
            vpc_id: self.vpc_id@,
            is_main: self.is_main,
        }
    }
}

/// A `RegulatedBoundary` node record, operator-assigned rather than sourced
/// from AWS.
#[derive(Debug, Clone, PartialEq, Eq)]
pub struct RegulatedBoundaryRecord {
    pub id: String,
    pub account_id: String,
    pub name: String,
    pub regime: String,
    pub description: Option<String>,
}

/// What a `RegulatedBoundaryRecord` holds.
pub ghost struct RegulatedBoundaryRecordView {
    pub id: Seq<char>,
    pub account_id: Seq<char>,
    pub name: Seq<char>,
    pub regime: Seq<char>,
    pub description: Option<Seq<char>>,
}

impl DeepView for RegulatedBoundaryRecord {
    type V = RegulatedBoundaryRecordView;

    open spec fn deep_view(&self) -> RegulatedBoundaryRecordView {
        RegulatedBoundaryRecordView {
            id: self.id@,
            account_id: self.account_id@,
            name: self.name@,
            regime: self.regime@,
            description: self.description.deep_view(),
        }
    }
}

/// A `HAS_SG` edge: `ENI` to `SecurityGroup`. Keyed on both fields.
#[derive(Debug, Clone, PartialEq, Eq)]
pub struct HasSgEdge {
    pub eni_id: String,
    pub security_group_id: String,
}

/// What a `HasSgEdge` holds.
pub ghost struct HasSgEdgeView {
    pub eni_id: Seq<char>,
    pub security_group_id: Seq<char>,
}

impl DeepView for HasSgEdge {
    type V = HasSgEdgeView;

    open spec fn deep_view(&self) -> HasSgEdgeView {
        HasSgEdgeView {
            eni_id: self.eni_id@,
            security_group_id: self.security_group_id@,
        }
    }
}

/// An `IN_SUBNET` edge: `ENI` to `Subnet`. Keyed on both fields.
#[derive(Debug, Clone, PartialEq, Eq)]
pub struct InSubnetEdge {
    pub eni_id: String,
    pub subnet_id: String,
}

/// What an `InSubnetEdge` holds.
pub ghost struct InSubnetEdgeView {
    pub eni_id: Seq<char>,
    pub subnet_id: Seq<char>,
}

impl DeepView for InSubnetEdge {
    type V = InSubnetEdgeView;

    open spec fn deep_view(&self) -> InSubnetEdgeView {
        InSubnetEdgeView {
            eni_id: self.eni_id@,
            subnet_id: self.subnet_id@,
        }
    }
}

/// A `PROTECTED_BY` edge: `Subnet` to `NetworkACL`. Keyed on both fields.
#[derive(Debug, Clone, PartialEq, Eq)]
pub struct ProtectedByEdge {
    pub subnet_id: String,
    pub network_acl_id: String,
}

/// What a `ProtectedByEdge` holds.
pub ghost struct ProtectedByEdgeView {
    pub subnet_id: Seq<char>,
    pub network_acl_id: Seq<char>,
}

impl DeepView for ProtectedByEdge {
    type V = ProtectedByEdgeView;

    open spec fn deep_view(&self) -> ProtectedByEdgeView {
        ProtectedByEdgeView {
            subnet_id: self.subnet_id@,
            network_acl_id: self.network_acl_id@,
        }
    }
}

/// A `USES_ROUTE_TABLE` edge: `Subnet` to `RouteTable`. Keyed on both fields.
#[derive(Debug, Clone, PartialEq, Eq)]
pub struct UsesRouteTableEdge {
    pub subnet_id: String,
    pub route_table_id: String,
}

/// What a `UsesRouteTableEdge` holds.
pub ghost struct UsesRouteTableEdgeView {
    pub subnet_id: Seq<char>,
    pub route_table_id: Seq<char>,
}

impl DeepView for UsesRouteTableEdge {
    type V = UsesRouteTableEdgeView;

    open spec fn deep_view(&self) -> UsesRouteTableEdgeView {
        UsesRouteTableEdgeView {
            subnet_id: self.subnet_id@,
            route_table_id: self.route_table_id@,
        }
    }
}

/// A `ROUTES_TO` edge: `RouteTable` to a `VPC`, or to no node where it is not
/// resolved (internet or NAT gateway, foreign peering connection). Keyed on
/// `(route_table_id, destination_cidr)`.
#[derive(Debug, Clone, PartialEq, Eq)]
pub struct RoutesToEdge {
    pub route_table_id: String,
    pub destination_cidr: String,
    pub target_vpc_id: Option<String>,
    pub resolved: bool,
}

/// What a `RoutesToEdge` holds.
pub ghost struct RoutesToEdgeView {
    pub route_table_id: Seq<char>,
    pub destination_cidr: Seq<char>,
    pub target_vpc_id: Option<Seq<char>>,
    pub resolved: bool,
}

impl DeepView for RoutesToEdge {
    type V = RoutesToEdgeView;

    open spec fn deep_view(&self) -> RoutesToEdgeView {
        RoutesToEdgeView {
            route_table_id: self.route_table_id@,
            destination_cidr: self.destination_cidr@,
            target_vpc_id: self.target_vpc_id.deep_view(),
            resolved: self.resolved,
        }
    }
}

/// One `SecurityGroup`'s rules for an egress or ingress upsert.
#[derive(Debug, Clone, PartialEq, Eq)]
pub struct SgRuleBatch<'a> {
    pub security_group_id: &'a str,
    pub rules: &'a [SgRule],
}

/// What an `SgRuleBatch` holds.
pub ghost struct SgRuleBatchView {
    pub security_group_id: Seq<char>,
    pub rules: Seq<crate::domain::rule::SgRuleView>,
}

impl<'a> DeepView for SgRuleBatch<'a> {
    type V = SgRuleBatchView;

    open spec fn deep_view(&self) -> SgRuleBatchView {
        SgRuleBatchView {
            security_group_id: self.security_group_id@,
            rules: self.rules.deep_view(),
        }
    }
}

/// One `NetworkACL`'s rules for a `HAS_RULE` upsert.
#[derive(Debug, Clone, PartialEq, Eq)]
pub struct NaclRuleBatch<'a> {
    pub network_acl_id: &'a str,
    pub rules: &'a [NaclRule],
}

/// What a `NaclRuleBatch` holds.
pub ghost struct NaclRuleBatchView {
    pub network_acl_id: Seq<char>,
    pub rules: Seq<crate::domain::rule::NaclRuleView>,
}

impl<'a> DeepView for NaclRuleBatch<'a> {
    type V = NaclRuleBatchView;

    open spec fn deep_view(&self) -> NaclRuleBatchView {
        NaclRuleBatchView {
            network_acl_id: self.network_acl_id@,
            rules: self.rules.deep_view(),
        }
    }
}

/// The outcome of resolving a security group reference. `resolved: false` is a
/// successful, expected outcome, most commonly of a cross-account reference.
#[derive(Debug, Clone, PartialEq, Eq)]
pub struct ResolvedReference {
    /// The security group id that was looked up.
    pub security_group_id: String,
    /// Whether the reference could be dereferenced to a known node.
    pub resolved: bool,
}

} // verus!
