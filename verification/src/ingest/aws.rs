//! What the EC2 API tells of an account's network, as plain values. Nearly
//! every field can be absent from an answer.
use vstd::prelude::*;

verus! {

/// An IPv4 range of a permission.
#[derive(Debug, Clone, PartialEq, Eq)]
pub struct IpRange {
    pub cidr_ip: Option<String>,
}

/// An IPv6 range of a permission.
#[derive(Debug, Clone, PartialEq, Eq)]
pub struct Ipv6Range {
    pub cidr_ipv6: Option<String>,
}

/// A security group that a permission references, with the account that owns
/// it.
#[derive(Debug, Clone, PartialEq, Eq)]
pub struct UserIdGroupPair {
    pub group_id: Option<String>,
    pub user_id: Option<String>,
}

/// One permission of a security group. It can carry ranges and references at
/// once.
#[derive(Debug, Clone, PartialEq, Eq)]
pub struct IpPermission {
    pub ip_protocol: Option<String>,
    pub from_port: Option<i32>,
    pub to_port: Option<i32>,
    pub ip_ranges: Vec<IpRange>,
    pub ipv6_ranges: Vec<Ipv6Range>,
    pub user_id_group_pairs: Vec<UserIdGroupPair>,
}

/// A security group.
#[derive(Debug, Clone, PartialEq, Eq)]
pub struct SecurityGroup {
    pub group_id: Option<String>,
    pub vpc_id: Option<String>,
    pub group_name: Option<String>,
    pub description: Option<String>,
    pub ip_permissions: Vec<IpPermission>,
    pub ip_permissions_egress: Vec<IpPermission>,
}

/// The action of a network ACL entry.
#[derive(Debug, Clone, Copy, PartialEq, Eq)]
pub enum RuleAction {
    Allow,
    Deny,
    /// An action that the API has added since.
    Unknown,
}

/// The ports of a network ACL entry.
#[derive(Debug, Clone, Copy, PartialEq, Eq)]
pub struct EntryPortRange {
    pub from: Option<i32>,
    pub to: Option<i32>,
}

/// One entry of a network ACL.
#[derive(Debug, Clone, PartialEq, Eq)]
pub struct NetworkAclEntry {
    pub rule_number: Option<i32>,
    pub protocol: Option<String>,
    pub port_range: Option<EntryPortRange>,
    pub cidr_block: Option<String>,
    pub ipv6_cidr_block: Option<String>,
    pub egress: Option<bool>,
    pub rule_action: Option<RuleAction>,
}

/// A subnet that a network ACL protects.
#[derive(Debug, Clone, PartialEq, Eq)]
pub struct NetworkAclAssociation {
    pub subnet_id: Option<String>,
}

/// A network ACL.
#[derive(Debug, Clone, PartialEq, Eq)]
pub struct NetworkAcl {
    pub network_acl_id: Option<String>,
    pub vpc_id: Option<String>,
    pub is_default: Option<bool>,
    pub entries: Vec<NetworkAclEntry>,
    pub associations: Vec<NetworkAclAssociation>,
}

/// A subnet that uses a route table. The implicit association of a VPC's main
/// route table has no subnet.
#[derive(Debug, Clone, PartialEq, Eq)]
pub struct RouteTableAssociation {
    pub subnet_id: Option<String>,
    pub main: Option<bool>,
}

/// One route of a route table.
#[derive(Debug, Clone, PartialEq, Eq)]
pub struct Route {
    pub destination_cidr_block: Option<String>,
    pub destination_ipv6_cidr_block: Option<String>,
    pub gateway_id: Option<String>,
    pub vpc_peering_connection_id: Option<String>,
}

/// A route table.
#[derive(Debug, Clone, PartialEq, Eq)]
pub struct RouteTable {
    pub route_table_id: Option<String>,
    pub vpc_id: Option<String>,
    pub associations: Vec<RouteTableAssociation>,
    pub routes: Vec<Route>,
}

/// A security group that a network interface is a member of.
#[derive(Debug, Clone, PartialEq, Eq)]
pub struct GroupIdentifier {
    pub group_id: Option<String>,
}

/// A network interface.
#[derive(Debug, Clone, PartialEq, Eq)]
pub struct NetworkInterface {
    pub network_interface_id: Option<String>,
    pub vpc_id: Option<String>,
    pub subnet_id: Option<String>,
    pub private_ip_address: Option<String>,
    pub description: Option<String>,
    pub groups: Vec<GroupIdentifier>,
}

/// One side of a peering connection.
#[derive(Debug, Clone, PartialEq, Eq)]
pub struct PeeringVpcInfo {
    pub vpc_id: Option<String>,
    pub owner_id: Option<String>,
}

/// A peering connection between two VPCs.
#[derive(Debug, Clone, PartialEq, Eq)]
pub struct VpcPeeringConnection {
    pub vpc_peering_connection_id: Option<String>,
    pub requester_vpc_info: Option<PeeringVpcInfo>,
    pub accepter_vpc_info: Option<PeeringVpcInfo>,
}

} // verus!
