//! Mapping of an account's resources into the nodes and edges of the graph.
use vstd::prelude::*;

use crate::domain::rule::Direction;
use crate::error::MappingError;
use crate::graph::model::{Edge, GraphBatch};
use crate::ingest::aws::{
    GroupIdentifier, NetworkAcl, NetworkAclAssociation, NetworkInterface, PeeringVpcInfo, Route,
    RouteTable, RouteTableAssociation, SecurityGroup, VpcPeeringConnection,
};
use crate::ingest::map::nacl::map_network_acl_rules;
use crate::ingest::map::sg::map_security_group_rules;
use crate::ingest::map::stubs::{collect_subnet_stubs, collect_vpc_stubs};
use crate::ingest::map::{absent_field, append_items, push_item, require_str};
use crate::ports::{
    EniRecord, HasSgEdge, InSubnetEdge, NetworkAclRecord, ProtectedByEdge, RouteTableRecord,
    RoutesToEdge, SecurityGroupRecord, UsesRouteTableEdge,
};
use crate::text::same_text;

verus! {

/// The node of a network interface.
pub open spec fn eni_node(account_id: Seq<char>) -> spec_fn(NetworkInterface) -> Result<
    crate::ports::EniRecordView,
    crate::error::MappingErrorView,
> {
    |eni: NetworkInterface|
        match crate::ingest::map::required(
            "<unknown ENI>"@,
            "network_interface_id"@,
            eni.network_interface_id,
        ) {
            Err(error) => Err(error),
            Ok(id) => match crate::ingest::map::required(id, "vpc_id"@, eni.vpc_id) {
                Err(error) => Err(error),
                Ok(vpc_id) => match crate::ingest::map::required(id, "subnet_id"@, eni.subnet_id) {
                    Err(error) => Err(error),
                    Ok(subnet_id) => match crate::ingest::map::required(
                        id,
                        "private_ip_address"@,
                        eni.private_ip_address,
                    ) {
                        Err(error) => Err(error),
                        Ok(private_ip) => Ok(
                            crate::ports::EniRecordView {
                                id,
                                account_id,
                                vpc_id,
                                subnet_id,
                                private_ip,
                                description: eni.description.deep_view(),
                            },
                        ),
                    },
                },
            },
        }
}

/// The node of a security group.
pub open spec fn security_group_node(account_id: Seq<char>) -> spec_fn(SecurityGroup) -> Result<
    crate::ports::SecurityGroupRecordView,
    crate::error::MappingErrorView,
> {
    |sg: SecurityGroup|
        match crate::ingest::map::required(
            "<unknown security group>"@,
            "group_id"@,
            sg.group_id,
        ) {
            Err(error) => Err(error),
            Ok(id) => match crate::ingest::map::required(id, "vpc_id"@, sg.vpc_id) {
                Err(error) => Err(error),
                Ok(vpc_id) => match crate::ingest::map::required(
                    id,
                    "group_name"@,
                    sg.group_name,
                ) {
                    Err(error) => Err(error),
                    Ok(name) => Ok(
                        crate::ports::SecurityGroupRecordView {
                            id,
                            account_id,
                            vpc_id,
                            name,
                            description: sg.description.deep_view(),
                        },
                    ),
                },
            },
        }
}

/// The node of a network ACL.
pub open spec fn network_acl_node(account_id: Seq<char>) -> spec_fn(NetworkAcl) -> Result<
    crate::ports::NetworkAclRecordView,
    crate::error::MappingErrorView,
> {
    |acl: NetworkAcl|
        match crate::ingest::map::required(
            "<unknown network acl>"@,
            "network_acl_id"@,
            acl.network_acl_id,
        ) {
            Err(error) => Err(error),
            Ok(id) => match crate::ingest::map::required(id, "vpc_id"@, acl.vpc_id) {
                Err(error) => Err(error),
                Ok(vpc_id) => match acl.is_default {
                    None => Err(crate::ingest::map::absent(id, "is_default"@)),
                    Some(is_default) => Ok(
                        crate::ports::NetworkAclRecordView { id, account_id, vpc_id, is_default },
                    ),
                },
            },
        }
}

/// Whether a route table is its VPC's main one.
pub open spec fn is_main_table(route_table: RouteTable) -> bool {
    exists|i: int|
        0 <= i < route_table.associations@.len() && (#[trigger] route_table.associations@[i]).main
            == Some(true)
}

/// The node of a route table. A main table without a subnet of its own is
/// recorded as such, not dropped.
pub open spec fn route_table_node(account_id: Seq<char>) -> spec_fn(RouteTable) -> Result<
    crate::ports::RouteTableRecordView,
    crate::error::MappingErrorView,
> {
    |route_table: RouteTable|
        match crate::ingest::map::required(
            "<unknown route table>"@,
            "route_table_id"@,
            route_table.route_table_id,
        ) {
            Err(error) => Err(error),
            Ok(id) => match crate::ingest::map::required(id, "vpc_id"@, route_table.vpc_id) {
                Err(error) => Err(error),
                Ok(vpc_id) => Ok(
                    crate::ports::RouteTableRecordView {
                        id,
                        account_id,
                        vpc_id,
                        is_main: is_main_table(route_table),
                    },
                ),
            },
        }
}

/// Maps a network interface to its node.
pub fn map_eni_node(eni: &NetworkInterface, account_id: &str) -> (record: Result<
    EniRecord,
    MappingError,
>)
    ensures
        crate::ingest::map::agrees(record, eni_node(account_id@)(*eni)),
{
    let id = match require_str("<unknown ENI>", "network_interface_id", &eni.network_interface_id) {
        Ok(id) => id,
        Err(error) => return Err(error),
    };
    let vpc_id = match require_str(id.as_str(), "vpc_id", &eni.vpc_id) {
        Ok(vpc_id) => vpc_id,
        Err(error) => return Err(error),
    };
    let subnet_id = match require_str(id.as_str(), "subnet_id", &eni.subnet_id) {
        Ok(subnet_id) => subnet_id,
        Err(error) => return Err(error),
    };
    let private_ip = match require_str(id.as_str(), "private_ip_address", &eni.private_ip_address) {
        Ok(private_ip) => private_ip,
        Err(error) => return Err(error),
    };
    let description = eni.description.clone();
    Ok(
        EniRecord {
            id,
            account_id: account_id.to_owned(),
            vpc_id,
            subnet_id,
            private_ip,
            description,
        },
    )
}

/// Maps a security group to its node.
pub fn map_security_group_node(sg: &SecurityGroup, account_id: &str) -> (record: Result<
    SecurityGroupRecord,
    MappingError,
>)
    ensures
        crate::ingest::map::agrees(record, security_group_node(account_id@)(*sg)),
{
    let id = match require_str("<unknown security group>", "group_id", &sg.group_id) {
        Ok(id) => id,
        Err(error) => return Err(error),
    };
    let vpc_id = match require_str(id.as_str(), "vpc_id", &sg.vpc_id) {
        Ok(vpc_id) => vpc_id,
        Err(error) => return Err(error),
    };
    let name = match require_str(id.as_str(), "group_name", &sg.group_name) {
        Ok(name) => name,
        Err(error) => return Err(error),
    };
    let description = sg.description.clone();
    Ok(
        SecurityGroupRecord {
            id,
            account_id: account_id.to_owned(),
            vpc_id,
            name,
            description,
        },
    )
}

/// Maps a network ACL to its node.
pub fn map_network_acl_node(acl: &NetworkAcl, account_id: &str) -> (record: Result<
    NetworkAclRecord,
    MappingError,
>)
    ensures
        crate::ingest::map::agrees(record, network_acl_node(account_id@)(*acl)),
{
    let id = match require_str("<unknown network acl>", "network_acl_id", &acl.network_acl_id) {
        Ok(id) => id,
        Err(error) => return Err(error),
    };
    let vpc_id = match require_str(id.as_str(), "vpc_id", &acl.vpc_id) {
        Ok(vpc_id) => vpc_id,
        Err(error) => return Err(error),
    };
    match acl.is_default {
        Some(is_default) => Ok(
            NetworkAclRecord { id, account_id: account_id.to_owned(), vpc_id, is_default },
        ),
        None => Err(absent_field(id.as_str(), "is_default")),
    }
}

fn has_main_association(route_table: &RouteTable) -> (main: bool)
    ensures
        main == is_main_table(*route_table),
{
    let mut i: usize = 0;
    while i < route_table.associations.len()
        invariant
            0 <= i <= route_table.associations@.len(),
            forall|j: int|
                0 <= j < i ==> (#[trigger] route_table.associations@[j]).main != Some(true),
        decreases route_table.associations@.len() - i,
    {
        if let Some(true) = route_table.associations[i].main {
            return true;
        }
        i = i + 1;
    }
    false
}

/// Maps a route table to its node.
pub fn map_route_table_node(route_table: &RouteTable, account_id: &str) -> (record: Result<
    RouteTableRecord,
    MappingError,
>)
    ensures
        crate::ingest::map::agrees(record, route_table_node(account_id@)(*route_table)),
{
    let id = match require_str(
        "<unknown route table>",
        "route_table_id",
        &route_table.route_table_id,
    ) {
        Ok(id) => id,
        Err(error) => return Err(error),
    };
    let vpc_id = match require_str(id.as_str(), "vpc_id", &route_table.vpc_id) {
        Ok(vpc_id) => vpc_id,
        Err(error) => return Err(error),
    };
    Ok(
        RouteTableRecord {
            id,
            account_id: account_id.to_owned(),
            vpc_id,
            is_main: has_main_association(route_table),
        },
    )
}

/// The text of a field that has been found present.
pub open spec fn given(value: Option<String>) -> Seq<char> {
    match value {
        Some(text) => text@,
        None => Seq::empty(),
    }
}

/// The edge from network interface `eni_id` to one of its groups.
pub open spec fn has_sg_edge(eni_id: Seq<char>) -> spec_fn(GroupIdentifier) -> Result<
    crate::graph::model::EdgeView,
    crate::error::MappingErrorView,
> {
    |group: GroupIdentifier|
        match crate::ingest::map::required(eni_id, "groups[].group_id"@, group.group_id) {
            Ok(security_group_id) => Ok(
                crate::graph::model::EdgeView::HasSg(
                    crate::ports::HasSgEdgeView { eni_id, security_group_id },
                ),
            ),
            Err(error) => Err(error),
        }
}

/// The `HAS_SG` edges of a network interface: one per group, in order.
pub open spec fn eni_has_sg() -> spec_fn(NetworkInterface) -> Result<
    Seq<crate::graph::model::EdgeView>,
    crate::error::MappingErrorView,
> {
    |eni: NetworkInterface|
        crate::ingest::map::map_all(eni.groups@, has_sg_edge(given(eni.network_interface_id)))
}

/// The `IN_SUBNET` edge of a network interface.
pub open spec fn eni_in_subnet() -> spec_fn(crate::ports::EniRecordView) -> Seq<
    crate::graph::model::EdgeView,
> {
    |eni: crate::ports::EniRecordView|
        seq![
            crate::graph::model::EdgeView::InSubnet(
                crate::ports::InSubnetEdgeView { eni_id: eni.id, subnet_id: eni.subnet_id },
            ),
        ]
}

/// The `PROTECTED_BY` edge of one association of a network ACL.
pub open spec fn protected_by_edge(network_acl_id: Seq<char>) -> spec_fn(
    NetworkAclAssociation,
) -> Seq<crate::graph::model::EdgeView> {
    |association: NetworkAclAssociation|
        match association.subnet_id {
            Some(subnet_id) => seq![
                crate::graph::model::EdgeView::ProtectedBy(
                    crate::ports::ProtectedByEdgeView { subnet_id: subnet_id@, network_acl_id },
                ),
            ],
            None => Seq::empty(),
        }
}

/// The `PROTECTED_BY` edges of a network ACL: one per associated subnet.
pub open spec fn acl_protected_by() -> spec_fn(NetworkAcl) -> Seq<crate::graph::model::EdgeView> {
    |acl: NetworkAcl|
        crate::ingest::map::joined_map(
            acl.associations@,
            protected_by_edge(given(acl.network_acl_id)),
        )
}

/// The `USES_ROUTE_TABLE` edge of one association of a route table.
pub open spec fn uses_route_table_edge(route_table_id: Seq<char>) -> spec_fn(
    RouteTableAssociation,
) -> Seq<crate::graph::model::EdgeView> {
    |association: RouteTableAssociation|
        match association.subnet_id {
            Some(subnet_id) => seq![
                crate::graph::model::EdgeView::UsesRouteTable(
                    crate::ports::UsesRouteTableEdgeView { subnet_id: subnet_id@, route_table_id },
                ),
            ],
            None => Seq::empty(),
        }
}

/// The `USES_ROUTE_TABLE` edges of a route table: one per associated subnet.
pub open spec fn table_uses() -> spec_fn(RouteTable) -> Seq<crate::graph::model::EdgeView> {
    |route_table: RouteTable|
        crate::ingest::map::joined_map(
            route_table.associations@,
            uses_route_table_edge(given(route_table.route_table_id)),
        )
}

/// The first peering connection with the id `peering_id`.
pub open spec fn find_peering(
    peerings: Seq<VpcPeeringConnection>,
    peering_id: Seq<char>,
) -> Option<VpcPeeringConnection>
    decreases peerings.len(),
{
    if peerings.len() == 0 {
        None
    } else {
        match find_peering(peerings.drop_last(), peering_id) {
            Some(peering) => Some(peering),
            None => if peerings.last().vpc_peering_connection_id matches Some(id) && id@
                == peering_id {
                Some(peerings.last())
            } else {
                None
            },
        }
    }
}

/// Whether a side of a peering connection is the VPC `vpc_id`.
pub open spec fn is_side(info: PeeringVpcInfo, vpc_id: Seq<char>) -> bool {
    info.vpc_id matches Some(id) && id@ == vpc_id
}

/// The side of a peering connection that is not the VPC `vpc_id`: the
/// requester's, unless that is the VPC or is not known.
pub open spec fn other_side(peering: VpcPeeringConnection, vpc_id: Seq<char>) -> Option<
    PeeringVpcInfo,
> {
    match (peering.requester_vpc_info, peering.accepter_vpc_info) {
        (Some(requester), Some(accepter)) => if !is_side(requester, vpc_id) {
            Some(requester)
        } else if !is_side(accepter, vpc_id) {
            Some(accepter)
        } else {
            None
        },
        (Some(side), None) => if !is_side(side, vpc_id) {
            Some(side)
        } else {
            None
        },
        (None, Some(side)) => if !is_side(side, vpc_id) {
            Some(side)
        } else {
            None
        },
        (None, None) => None,
    }
}

/// The VPC that a route leads to, where it is one of the audited account: the
/// table's own through the local gateway, the other side's through a peering
/// connection.
pub open spec fn route_target(
    account_id: Seq<char>,
    vpc_id: Seq<char>,
    route: Route,
    peerings: Seq<VpcPeeringConnection>,
) -> Option<Seq<char>> {
    if route.gateway_id matches Some(gateway) && gateway@ == "local"@ {
        Some(vpc_id)
    } else {
        match route.vpc_peering_connection_id {
            None => None,
            Some(peering_id) => match find_peering(peerings, peering_id@) {
                None => None,
                Some(peering) => match other_side(peering, vpc_id) {
                    None => None,
                    Some(info) => if crate::ingest::map::stubs::owned_by(info, account_id) {
                        info.vpc_id.deep_view()
                    } else {
                        None
                    },
                },
            },
        }
    }
}

/// The CIDR that a route is for: its IPv4 block, or else its IPv6 block.
pub open spec fn route_destination(route: Route) -> Option<Seq<char>> {
    match route.destination_cidr_block {
        Some(cidr) => Some(cidr@),
        None => route.destination_ipv6_cidr_block.deep_view(),
    }
}

/// The `ROUTES_TO` edge of a route, which is resolved where its target is a
/// VPC of the audited account. A route for no CIDR has none.
pub open spec fn routes_to_edge(
    account_id: Seq<char>,
    route_table_id: Seq<char>,
    vpc_id: Seq<char>,
    peerings: Seq<VpcPeeringConnection>,
) -> spec_fn(Route) -> Seq<crate::graph::model::EdgeView> {
    |route: Route|
        match route_destination(route) {
            Some(destination_cidr) => seq![
                crate::graph::model::EdgeView::RoutesTo(
                    crate::ports::RoutesToEdgeView {
                        route_table_id,
                        destination_cidr,
                        target_vpc_id: route_target(account_id, vpc_id, route, peerings),
                        resolved: route_target(account_id, vpc_id, route, peerings) is Some,
                    },
                ),
            ],
            None => Seq::empty(),
        }
}

/// The `ROUTES_TO` edges of a route table, in the order of its routes.
pub open spec fn table_routes(
    account_id: Seq<char>,
    peerings: Seq<VpcPeeringConnection>,
) -> spec_fn(RouteTable) -> Seq<crate::graph::model::EdgeView> {
    |route_table: RouteTable|
        crate::ingest::map::joined_map(
            route_table.routes@,
            routes_to_edge(
                account_id,
                given(route_table.route_table_id),
                given(route_table.vpc_id),
                peerings,
            ),
        )
}

/// The edge of a security group rule, of the type that its direction selects.
pub open spec fn allows_edge(
    security_group_id: Seq<char>,
    rule: crate::domain::rule::SgRuleView,
) -> crate::graph::model::EdgeView {
    match rule.direction {
        Direction::Ingress => crate::graph::model::EdgeView::AllowsIngress {
            security_group_id,
            rule,
        },
        Direction::Egress => crate::graph::model::EdgeView::AllowsEgress {
            security_group_id,
            rule,
        },
    }
}

/// The rule edges of a security group, in the order of its rules.
pub open spec fn group_allows(account_id: Seq<char>) -> spec_fn(SecurityGroup) -> Result<
    Seq<crate::graph::model::EdgeView>,
    crate::error::MappingErrorView,
> {
    |sg: SecurityGroup|
        match crate::ingest::map::sg::security_group_rules(sg, account_id) {
            Ok(rules) => Ok(
                rules.map_values(
                    |rule: crate::domain::rule::SgRuleView| allows_edge(given(sg.group_id), rule),
                ),
            ),
            Err(error) => Err(error),
        }
}

/// The rule edges of a network ACL, in evaluation order.
pub open spec fn acl_has_rules() -> spec_fn(NetworkAcl) -> Result<
    Seq<crate::graph::model::EdgeView>,
    crate::error::MappingErrorView,
> {
    |acl: NetworkAcl|
        match crate::ingest::map::nacl::network_acl_rules(acl) {
            Ok(rules) => Ok(
                rules.map_values(
                    |rule: crate::domain::rule::NaclRuleView|
                        crate::graph::model::EdgeView::HasRule {
                            network_acl_id: given(acl.network_acl_id),
                            rule,
                        },
                ),
            ),
            Err(error) => Err(error),
        }
}

fn map_eni_nodes(network_interfaces: &[NetworkInterface], account_id: &str) -> (records: Result<
    Vec<EniRecord>,
    MappingError,
>)
    ensures
        crate::ingest::map::agrees(
            records,
            crate::ingest::map::map_all(network_interfaces@, eni_node(account_id@)),
        ),
{
    let ghost f = eni_node(account_id@);
    let mut records: Vec<EniRecord> = Vec::new();
    let mut i: usize = 0;
    assert(records.deep_view() =~= Seq::empty());
    assert(network_interfaces@.take(0) =~= Seq::empty());
    while i < network_interfaces.len()
        invariant
            0 <= i <= network_interfaces@.len(),
            f == eni_node(account_id@),
            crate::ingest::map::map_all(network_interfaces@.take(i as int), f) == Ok::<
                Seq<crate::ports::EniRecordView>,
                crate::error::MappingErrorView,
            >(records.deep_view()),
        decreases network_interfaces@.len() - i,
    {
        proof {
            crate::ingest::map::lemma_map_all_step(network_interfaces@, f, i as int);
        }
        match map_eni_node(&network_interfaces[i], account_id) {
            Ok(record) => push_item(&mut records, record),
            Err(error) => {
                proof {
                    crate::ingest::map::lemma_map_all_fault(network_interfaces@, f, i + 1);
                }
                return Err(error);
            },
        }
        i = i + 1;
    }
    assert(network_interfaces@.take(i as int) =~= network_interfaces@);
    Ok(records)
}

fn map_security_group_nodes(security_groups: &[SecurityGroup], account_id: &str) -> (records: Result<
    Vec<SecurityGroupRecord>,
    MappingError,
>)
    ensures
        crate::ingest::map::agrees(
            records,
            crate::ingest::map::map_all(security_groups@, security_group_node(account_id@)),
        ),
{
    let ghost f = security_group_node(account_id@);
    let mut records: Vec<SecurityGroupRecord> = Vec::new();
    let mut i: usize = 0;
    assert(records.deep_view() =~= Seq::empty());
    assert(security_groups@.take(0) =~= Seq::empty());
    while i < security_groups.len()
        invariant
            0 <= i <= security_groups@.len(),
            f == security_group_node(account_id@),
            crate::ingest::map::map_all(security_groups@.take(i as int), f) == Ok::<
                Seq<crate::ports::SecurityGroupRecordView>,
                crate::error::MappingErrorView,
            >(records.deep_view()),
        decreases security_groups@.len() - i,
    {
        proof {
            crate::ingest::map::lemma_map_all_step(security_groups@, f, i as int);
        }
        match map_security_group_node(&security_groups[i], account_id) {
            Ok(record) => push_item(&mut records, record),
            Err(error) => {
                proof {
                    crate::ingest::map::lemma_map_all_fault(security_groups@, f, i + 1);
                }
                return Err(error);
            },
        }
        i = i + 1;
    }
    assert(security_groups@.take(i as int) =~= security_groups@);
    Ok(records)
}

fn map_network_acl_nodes(network_acls: &[NetworkAcl], account_id: &str) -> (records: Result<
    Vec<NetworkAclRecord>,
    MappingError,
>)
    ensures
        crate::ingest::map::agrees(
            records,
            crate::ingest::map::map_all(network_acls@, network_acl_node(account_id@)),
        ),
{
    let ghost f = network_acl_node(account_id@);
    let mut records: Vec<NetworkAclRecord> = Vec::new();
    let mut i: usize = 0;
    assert(records.deep_view() =~= Seq::empty());
    assert(network_acls@.take(0) =~= Seq::empty());
    while i < network_acls.len()
        invariant
            0 <= i <= network_acls@.len(),
            f == network_acl_node(account_id@),
            crate::ingest::map::map_all(network_acls@.take(i as int), f) == Ok::<
                Seq<crate::ports::NetworkAclRecordView>,
                crate::error::MappingErrorView,
            >(records.deep_view()),
        decreases network_acls@.len() - i,
    {
        proof {
            crate::ingest::map::lemma_map_all_step(network_acls@, f, i as int);
        }
        match map_network_acl_node(&network_acls[i], account_id) {
            Ok(record) => push_item(&mut records, record),
            Err(error) => {
                proof {
                    crate::ingest::map::lemma_map_all_fault(network_acls@, f, i + 1);
                }
                return Err(error);
            },
        }
        i = i + 1;
    }
    assert(network_acls@.take(i as int) =~= network_acls@);
    Ok(records)
}

fn map_route_table_nodes(route_tables: &[RouteTable], account_id: &str) -> (records: Result<
    Vec<RouteTableRecord>,
    MappingError,
>)
    ensures
        crate::ingest::map::agrees(
            records,
            crate::ingest::map::map_all(route_tables@, route_table_node(account_id@)),
        ),
{
    let ghost f = route_table_node(account_id@);
    let mut records: Vec<RouteTableRecord> = Vec::new();
    let mut i: usize = 0;
    assert(records.deep_view() =~= Seq::empty());
    assert(route_tables@.take(0) =~= Seq::empty());
    while i < route_tables.len()
        invariant
            0 <= i <= route_tables@.len(),
            f == route_table_node(account_id@),
            crate::ingest::map::map_all(route_tables@.take(i as int), f) == Ok::<
                Seq<crate::ports::RouteTableRecordView>,
                crate::error::MappingErrorView,
            >(records.deep_view()),
        decreases route_tables@.len() - i,
    {
        proof {
            crate::ingest::map::lemma_map_all_step(route_tables@, f, i as int);
        }
        match map_route_table_node(&route_tables[i], account_id) {
            Ok(record) => push_item(&mut records, record),
            Err(error) => {
                proof {
                    crate::ingest::map::lemma_map_all_fault(route_tables@, f, i + 1);
                }
                return Err(error);
            },
        }
        i = i + 1;
    }
    assert(route_tables@.take(i as int) =~= route_tables@);
    Ok(records)
}

pub(crate) fn eni_has_sg_edges(eni: &NetworkInterface, eni_id: &String) -> (edges: Result<
    Vec<Edge>,
    MappingError,
>)
    ensures
        crate::ingest::map::agrees(
            edges,
            crate::ingest::map::map_all(eni.groups@, has_sg_edge(eni_id@)),
        ),
{
    let ghost f = has_sg_edge(eni_id@);
    let ghost groups = eni.groups@;
    let mut edges: Vec<Edge> = Vec::new();
    let mut i: usize = 0;
    assert(edges.deep_view() =~= Seq::empty());
    assert(groups.take(0) =~= Seq::empty());
    while i < eni.groups.len()
        invariant
            0 <= i <= groups.len(),
            groups == eni.groups@,
            f == has_sg_edge(eni_id@),
            crate::ingest::map::map_all(groups.take(i as int), f) == Ok::<
                Seq<crate::graph::model::EdgeView>,
                crate::error::MappingErrorView,
            >(edges.deep_view()),
        decreases groups.len() - i,
    {
        proof {
            crate::ingest::map::lemma_map_all_step(groups, f, i as int);
        }
        match require_str(eni_id.as_str(), "groups[].group_id", &eni.groups[i].group_id) {
            Ok(security_group_id) => push_item(
                &mut edges,
                Edge::HasSg(HasSgEdge { eni_id: eni_id.clone(), security_group_id }),
            ),
            Err(error) => {
                proof {
                    crate::ingest::map::lemma_map_all_fault(groups, f, i + 1);
                }
                return Err(error);
            },
        }
        i = i + 1;
    }
    assert(groups.take(i as int) =~= groups);
    Ok(edges)
}

/// The `HAS_SG` edges of the network interfaces, whose nodes are `records`.
fn has_sg_edges(
    network_interfaces: &[NetworkInterface],
    records: &Vec<EniRecord>,
    account_id: &str,
) -> (edges: Result<Vec<Edge>, MappingError>)
    requires
        crate::ingest::map::map_all(network_interfaces@, eni_node(account_id@)) == Ok::<
            Seq<crate::ports::EniRecordView>,
            crate::error::MappingErrorView,
        >(records.deep_view()),
    ensures
        crate::ingest::map::agrees(
            edges,
            (match crate::ingest::map::map_all(network_interfaces@, eni_has_sg()) {
                Ok(parts) => Ok(crate::ingest::map::joined(parts)),
                Err(error) => Err(error),
            }),
        ),
{
    let ghost f = eni_has_sg();
    let ghost mut parts: Seq<Seq<crate::graph::model::EdgeView>> = Seq::empty();
    let ghost model = records.deep_view();
    let mut edges: Vec<Edge> = Vec::new();
    let mut i: usize = 0;
    proof {
        crate::ingest::map::lemma_map_all_ok(network_interfaces@, eni_node(account_id@));
        assert(edges.deep_view() =~= Seq::empty());
        assert(network_interfaces@.take(0) =~= Seq::empty());
    }
    while i < network_interfaces.len()
        invariant
            0 <= i <= network_interfaces@.len(),
            model == records.deep_view(),
            model.len() == network_interfaces@.len(),
            forall|j: int|
                0 <= j < network_interfaces@.len() ==> eni_node(account_id@)(network_interfaces@[j])
                    == Ok::<crate::ports::EniRecordView, crate::error::MappingErrorView>(#[trigger] model[j]),
            f == eni_has_sg(),
            crate::ingest::map::map_all(network_interfaces@.take(i as int), f) == Ok::<
                Seq<Seq<crate::graph::model::EdgeView>>,
                crate::error::MappingErrorView,
            >(parts),
            edges.deep_view() == crate::ingest::map::joined(parts),
        decreases network_interfaces@.len() - i,
    {
        proof {
            crate::ingest::map::lemma_map_all_step(network_interfaces@, f, i as int);
            assert(model[i as int] == records@[i as int].deep_view());
            assert(given(network_interfaces@[i as int].network_interface_id) == records@[i as int].id@);
        }
        match eni_has_sg_edges(&network_interfaces[i], &records[i].id) {
            Ok(more) => {
                proof {
                    crate::ingest::map::lemma_joined_push(parts, more.deep_view());
                    parts = parts.push(more.deep_view());
                }
                append_items(&mut edges, more);
            },
            Err(error) => {
                proof {
                    crate::ingest::map::lemma_map_all_fault(network_interfaces@, f, i + 1);
                }
                return Err(error);
            },
        }
        i = i + 1;
    }
    assert(network_interfaces@.take(i as int) =~= network_interfaces@);
    Ok(edges)
}

pub(crate) fn group_allows_edges(sg: &SecurityGroup, security_group_id: &String, account_id: &str) -> (edges:
    Result<Vec<Edge>, MappingError>)
    requires
        given(sg.group_id) == security_group_id@,
    ensures
        crate::ingest::map::agrees(edges, group_allows(account_id@)(*sg)),
{
    let rules = match map_security_group_rules(sg, account_id) {
        Ok(rules) => rules,
        Err(error) => return Err(error),
    };
    let mut edges: Vec<Edge> = Vec::new();
    let mut i: usize = 0;
    while i < rules.len()
        invariant
            0 <= i <= rules@.len(),
            edges@.len() == i,
            forall|j: int|
                0 <= j < i ==> (#[trigger] edges@[j]).deep_view() == allows_edge(
                    security_group_id@,
                    rules@[j].deep_view(),
                ),
        decreases rules@.len() - i,
    {
        let rule = rules[i].clone();
        let owner = security_group_id.clone();
        edges.push(
            match rule.direction {
                Direction::Ingress => Edge::AllowsIngress { security_group_id: owner, rule },
                Direction::Egress => Edge::AllowsEgress { security_group_id: owner, rule },
            },
        );
        i = i + 1;
    }
    assert(edges.deep_view() =~= rules.deep_view().map_values(
        |rule: crate::domain::rule::SgRuleView| allows_edge(given(sg.group_id), rule),
    ));
    Ok(edges)
}

/// The rule edges of the security groups, whose nodes are `records`.
fn allows_edges(
    security_groups: &[SecurityGroup],
    records: &Vec<SecurityGroupRecord>,
    account_id: &str,
) -> (edges: Result<Vec<Edge>, MappingError>)
    requires
        crate::ingest::map::map_all(security_groups@, security_group_node(account_id@)) == Ok::<
            Seq<crate::ports::SecurityGroupRecordView>,
            crate::error::MappingErrorView,
        >(records.deep_view()),
    ensures
        crate::ingest::map::agrees(
            edges,
            (match crate::ingest::map::map_all(security_groups@, group_allows(account_id@)) {
                Ok(parts) => Ok(crate::ingest::map::joined(parts)),
                Err(error) => Err(error),
            }),
        ),
{
    let ghost f = group_allows(account_id@);
    let ghost mut parts: Seq<Seq<crate::graph::model::EdgeView>> = Seq::empty();
    let ghost model = records.deep_view();
    let mut edges: Vec<Edge> = Vec::new();
    let mut i: usize = 0;
    proof {
        crate::ingest::map::lemma_map_all_ok(security_groups@, security_group_node(account_id@));
        assert(edges.deep_view() =~= Seq::empty());
        assert(security_groups@.take(0) =~= Seq::empty());
    }
    while i < security_groups.len()
        invariant
            0 <= i <= security_groups@.len(),
            model == records.deep_view(),
            model.len() == security_groups@.len(),
            forall|j: int|
                0 <= j < security_groups@.len() ==> security_group_node(account_id@)(security_groups@[j])
                    == Ok::<crate::ports::SecurityGroupRecordView, crate::error::MappingErrorView>(#[trigger] model[j]),
            f == group_allows(account_id@),
            crate::ingest::map::map_all(security_groups@.take(i as int), f) == Ok::<
                Seq<Seq<crate::graph::model::EdgeView>>,
                crate::error::MappingErrorView,
            >(parts),
            edges.deep_view() == crate::ingest::map::joined(parts),
        decreases security_groups@.len() - i,
    {
        proof {
            crate::ingest::map::lemma_map_all_step(security_groups@, f, i as int);
            assert(model[i as int] == records@[i as int].deep_view());
            assert(given(security_groups@[i as int].group_id) == records@[i as int].id@);
        }
        match group_allows_edges(&security_groups[i], &records[i].id, account_id) {
            Ok(more) => {
                proof {
                    crate::ingest::map::lemma_joined_push(parts, more.deep_view());
                    parts = parts.push(more.deep_view());
                }
                append_items(&mut edges, more);
            },
            Err(error) => {
                proof {
                    crate::ingest::map::lemma_map_all_fault(security_groups@, f, i + 1);
                }
                return Err(error);
            },
        }
        i = i + 1;
    }
    assert(security_groups@.take(i as int) =~= security_groups@);
    Ok(edges)
}

pub(crate) fn acl_has_rule_edges(acl: &NetworkAcl, network_acl_id: &String) -> (edges: Result<
    Vec<Edge>,
    MappingError,
>)
    requires
        given(acl.network_acl_id) == network_acl_id@,
    ensures
        crate::ingest::map::agrees(edges, acl_has_rules()(*acl)),
{
    let rules = match map_network_acl_rules(acl) {
        Ok(rules) => rules,
        Err(error) => return Err(error),
    };
    let mut edges: Vec<Edge> = Vec::new();
    let mut i: usize = 0;
    while i < rules.len()
        invariant
            0 <= i <= rules@.len(),
            edges@.len() == i,
            forall|j: int|
                0 <= j < i ==> (#[trigger] edges@[j]).deep_view()
                    == (crate::graph::model::EdgeView::HasRule {
                    network_acl_id: network_acl_id@,
                    rule: rules@[j].deep_view(),
                }),
        decreases rules@.len() - i,
    {
        edges.push(
            Edge::HasRule { network_acl_id: network_acl_id.clone(), rule: rules[i].clone() },
        );
        i = i + 1;
    }
    assert(edges.deep_view() =~= rules.deep_view().map_values(
        |rule: crate::domain::rule::NaclRuleView|
            crate::graph::model::EdgeView::HasRule {
                network_acl_id: given(acl.network_acl_id),
                rule,
            },
    ));
    Ok(edges)
}

/// The rule edges of the network ACLs, whose nodes are `records`.
fn has_rule_edges(
    network_acls: &[NetworkAcl],
    records: &Vec<NetworkAclRecord>,
    account_id: &str,
) -> (edges: Result<Vec<Edge>, MappingError>)
    requires
        crate::ingest::map::map_all(network_acls@, network_acl_node(account_id@)) == Ok::<
            Seq<crate::ports::NetworkAclRecordView>,
            crate::error::MappingErrorView,
        >(records.deep_view()),
    ensures
        crate::ingest::map::agrees(
            edges,
            (match crate::ingest::map::map_all(network_acls@, acl_has_rules()) {
                Ok(parts) => Ok(crate::ingest::map::joined(parts)),
                Err(error) => Err(error),
            }),
        ),
{
    let ghost f = acl_has_rules();
    let ghost mut parts: Seq<Seq<crate::graph::model::EdgeView>> = Seq::empty();
    let ghost model = records.deep_view();
    let mut edges: Vec<Edge> = Vec::new();
    let mut i: usize = 0;
    proof {
        crate::ingest::map::lemma_map_all_ok(network_acls@, network_acl_node(account_id@));
        assert(edges.deep_view() =~= Seq::empty());
        assert(network_acls@.take(0) =~= Seq::empty());
    }
    while i < network_acls.len()
        invariant
            0 <= i <= network_acls@.len(),
            model == records.deep_view(),
            model.len() == network_acls@.len(),
            forall|j: int|
                0 <= j < network_acls@.len() ==> network_acl_node(account_id@)(network_acls@[j])
                    == Ok::<crate::ports::NetworkAclRecordView, crate::error::MappingErrorView>(#[trigger] model[j]),
            f == acl_has_rules(),
            crate::ingest::map::map_all(network_acls@.take(i as int), f) == Ok::<
                Seq<Seq<crate::graph::model::EdgeView>>,
                crate::error::MappingErrorView,
            >(parts),
            edges.deep_view() == crate::ingest::map::joined(parts),
        decreases network_acls@.len() - i,
    {
        proof {
            crate::ingest::map::lemma_map_all_step(network_acls@, f, i as int);
            assert(model[i as int] == records@[i as int].deep_view());
            assert(given(network_acls@[i as int].network_acl_id) == records@[i as int].id@);
        }
        match acl_has_rule_edges(&network_acls[i], &records[i].id) {
            Ok(more) => {
                proof {
                    crate::ingest::map::lemma_joined_push(parts, more.deep_view());
                    parts = parts.push(more.deep_view());
                }
                append_items(&mut edges, more);
            },
            Err(error) => {
                proof {
                    crate::ingest::map::lemma_map_all_fault(network_acls@, f, i + 1);
                }
                return Err(error);
            },
        }
        i = i + 1;
    }
    assert(network_acls@.take(i as int) =~= network_acls@);
    Ok(edges)
}

/// The `IN_SUBNET` edges of the network interfaces.
pub fn in_subnet_edges(enis: &[EniRecord]) -> (edges: Vec<Edge>)
    ensures
        edges.deep_view() == crate::ingest::map::joined_map(enis.deep_view(), eni_in_subnet()),
{
    let ghost f = eni_in_subnet();
    let ghost model = enis.deep_view();
    let mut edges: Vec<Edge> = Vec::new();
    let mut i: usize = 0;
    assert(edges.deep_view() =~= Seq::empty());
    assert(model.take(0) =~= Seq::empty());
    while i < enis.len()
        invariant
            0 <= i <= enis@.len(),
            model == enis.deep_view(),
            f == eni_in_subnet(),
            edges.deep_view() == crate::ingest::map::joined_map(model.take(i as int), f),
        decreases enis@.len() - i,
    {
        let ghost before = edges.deep_view();
        proof {
            crate::ingest::map::lemma_joined_map_step(model, f, i as int);
            assert(model[i as int] == enis@[i as int].deep_view());
        }
        push_item(
            &mut edges,
            Edge::InSubnet(
                InSubnetEdge { eni_id: enis[i].id.clone(), subnet_id: enis[i].subnet_id.clone() },
            ),
        );
        assert(edges.deep_view() =~= before + f(model[i as int]));
        i = i + 1;
    }
    assert(model.take(i as int) =~= model);
    edges
}

fn acl_protected_by_edges(acl: &NetworkAcl, network_acl_id: &String) -> (edges: Vec<Edge>)
    ensures
        edges.deep_view() == crate::ingest::map::joined_map(
            acl.associations@,
            protected_by_edge(network_acl_id@),
        ),
{
    let ghost f = protected_by_edge(network_acl_id@);
    let ghost associations = acl.associations@;
    let mut edges: Vec<Edge> = Vec::new();
    let mut i: usize = 0;
    assert(edges.deep_view() =~= Seq::empty());
    assert(associations.take(0) =~= Seq::empty());
    while i < acl.associations.len()
        invariant
            0 <= i <= associations.len(),
            associations == acl.associations@,
            f == protected_by_edge(network_acl_id@),
            edges.deep_view() == crate::ingest::map::joined_map(associations.take(i as int), f),
        decreases associations.len() - i,
    {
        let ghost before = edges.deep_view();
        proof {
            crate::ingest::map::lemma_joined_map_step(associations, f, i as int);
        }
        match &acl.associations[i].subnet_id {
            Some(subnet_id) => push_item(
                &mut edges,
                Edge::ProtectedBy(
                    ProtectedByEdge {
                        subnet_id: subnet_id.clone(),
                        network_acl_id: network_acl_id.clone(),
                    },
                ),
            ),
            None => {},
        }
        assert(edges.deep_view() =~= before + f(associations[i as int]));
        i = i + 1;
    }
    assert(associations.take(i as int) =~= associations);
    edges
}

/// The `PROTECTED_BY` edges of resources whose nodes are `records`.
fn protected_by_edges(
    network_acls: &[NetworkAcl],
    records: &Vec<NetworkAclRecord>,
    Ghost(account_id): Ghost<Seq<char>>,
) -> (edges: Vec<Edge>)
    requires
        crate::ingest::map::map_all(network_acls@, network_acl_node(account_id)) == Ok::<
            Seq<crate::ports::NetworkAclRecordView>,
            crate::error::MappingErrorView,
        >(records.deep_view()),
    ensures
        edges.deep_view() == crate::ingest::map::joined_map(network_acls@, acl_protected_by()),
{
    let ghost f = acl_protected_by();
    let ghost model = records.deep_view();
    let mut edges: Vec<Edge> = Vec::new();
    let mut i: usize = 0;
    proof {
        crate::ingest::map::lemma_map_all_ok(network_acls@, network_acl_node(account_id));
        assert(edges.deep_view() =~= Seq::empty());
        assert(network_acls@.take(0) =~= Seq::empty());
    }
    while i < network_acls.len()
        invariant
            0 <= i <= network_acls@.len(),
            model == records.deep_view(),
            model.len() == network_acls@.len(),
            forall|j: int|
                0 <= j < network_acls@.len() ==> network_acl_node(account_id)(network_acls@[j])
                    == Ok::<crate::ports::NetworkAclRecordView, crate::error::MappingErrorView>(#[trigger] model[j]),
            f == acl_protected_by(),
            edges.deep_view() == crate::ingest::map::joined_map(network_acls@.take(i as int), f),
        decreases network_acls@.len() - i,
    {
        proof {
            crate::ingest::map::lemma_joined_map_step(network_acls@, f, i as int);
            assert(model[i as int] == records@[i as int].deep_view());
            assert(given(network_acls@[i as int].network_acl_id) == records@[i as int].id@);
        }
        append_items(&mut edges, acl_protected_by_edges(&network_acls[i], &records[i].id));
        i = i + 1;
    }
    assert(network_acls@.take(i as int) =~= network_acls@);
    edges
}

fn table_uses_edges(route_table: &RouteTable, route_table_id: &String) -> (edges: Vec<Edge>)
    ensures
        edges.deep_view() == crate::ingest::map::joined_map(
            route_table.associations@,
            uses_route_table_edge(route_table_id@),
        ),
{
    let ghost f = uses_route_table_edge(route_table_id@);
    let ghost associations = route_table.associations@;
    let mut edges: Vec<Edge> = Vec::new();
    let mut i: usize = 0;
    assert(edges.deep_view() =~= Seq::empty());
    assert(associations.take(0) =~= Seq::empty());
    while i < route_table.associations.len()
        invariant
            0 <= i <= associations.len(),
            associations == route_table.associations@,
            f == uses_route_table_edge(route_table_id@),
            edges.deep_view() == crate::ingest::map::joined_map(associations.take(i as int), f),
        decreases associations.len() - i,
    {
        let ghost before = edges.deep_view();
        proof {
            crate::ingest::map::lemma_joined_map_step(associations, f, i as int);
        }
        match &route_table.associations[i].subnet_id {
            Some(subnet_id) => push_item(
                &mut edges,
                Edge::UsesRouteTable(
                    UsesRouteTableEdge {
                        subnet_id: subnet_id.clone(),
                        route_table_id: route_table_id.clone(),
                    },
                ),
            ),
            None => {},
        }
        assert(edges.deep_view() =~= before + f(associations[i as int]));
        i = i + 1;
    }
    assert(associations.take(i as int) =~= associations);
    edges
}

/// The `USES_ROUTE_TABLE` edges of resources whose nodes are `records`.
fn uses_route_table_edges(
    route_tables: &[RouteTable],
    records: &Vec<RouteTableRecord>,
    Ghost(account_id): Ghost<Seq<char>>,
) -> (edges: Vec<Edge>)
    requires
        crate::ingest::map::map_all(route_tables@, route_table_node(account_id)) == Ok::<
            Seq<crate::ports::RouteTableRecordView>,
            crate::error::MappingErrorView,
        >(records.deep_view()),
    ensures
        edges.deep_view() == crate::ingest::map::joined_map(route_tables@, table_uses()),
{
    let ghost f = table_uses();
    let ghost model = records.deep_view();
    let mut edges: Vec<Edge> = Vec::new();
    let mut i: usize = 0;
    proof {
        crate::ingest::map::lemma_map_all_ok(route_tables@, route_table_node(account_id));
        assert(edges.deep_view() =~= Seq::empty());
        assert(route_tables@.take(0) =~= Seq::empty());
    }
    while i < route_tables.len()
        invariant
            0 <= i <= route_tables@.len(),
            model == records.deep_view(),
            model.len() == route_tables@.len(),
            forall|j: int|
                0 <= j < route_tables@.len() ==> route_table_node(account_id)(route_tables@[j])
                    == Ok::<crate::ports::RouteTableRecordView, crate::error::MappingErrorView>(#[trigger] model[j]),
            f == table_uses(),
            edges.deep_view() == crate::ingest::map::joined_map(route_tables@.take(i as int), f),
        decreases route_tables@.len() - i,
    {
        proof {
            crate::ingest::map::lemma_joined_map_step(route_tables@, f, i as int);
            assert(model[i as int] == records@[i as int].deep_view());
            assert(given(route_tables@[i as int].route_table_id) == records@[i as int].id@);
        }
        append_items(&mut edges, table_uses_edges(&route_tables[i], &records[i].id));
        i = i + 1;
    }
    assert(route_tables@.take(i as int) =~= route_tables@);
    edges
}

fn is_local_gateway(gateway_id: &Option<String>) -> (local: bool)
    ensures
        local == (gateway_id matches Some(gateway) && gateway@ == "local"@),
{
    match gateway_id {
        Some(gateway) => same_text(gateway.as_str(), "local"),
        None => false,
    }
}

fn holds(value: &Option<String>, text: &str) -> (holds: bool)
    ensures
        holds == (value matches Some(found) && found@ == text@),
{
    match value {
        Some(found) => same_text(found.as_str(), text),
        None => false,
    }
}

fn peering_by_id<'a>(peerings: &'a [VpcPeeringConnection], peering_id: &str) -> (peering: Option<
    &'a VpcPeeringConnection,
>)
    ensures
        peering is Some == find_peering(peerings@, peering_id@) is Some,
        peering matches Some(found) ==> *found == find_peering(peerings@, peering_id@)->0,
{
    let mut i: usize = 0;
    assert(peerings@.take(0) =~= Seq::empty());
    while i < peerings.len()
        invariant
            0 <= i <= peerings@.len(),
            find_peering(peerings@.take(i as int), peering_id@) is None,
        decreases peerings@.len() - i,
    {
        assert(peerings@.take(i + 1).drop_last() =~= peerings@.take(i as int));
        if holds(&peerings[i].vpc_peering_connection_id, peering_id) {
            proof {
                lemma_find_peering_stays(peerings@, peering_id@, i + 1);
            }
            return Some(&peerings[i]);
        }
        i = i + 1;
    }
    assert(peerings@.take(i as int) =~= peerings@);
    None
}

proof fn lemma_find_peering_stays(
    peerings: Seq<VpcPeeringConnection>,
    peering_id: Seq<char>,
    i: int,
)
    requires
        0 <= i <= peerings.len(),
        find_peering(peerings.take(i), peering_id) is Some,
    ensures
        find_peering(peerings, peering_id) == find_peering(peerings.take(i), peering_id),
    decreases peerings.len() - i,
{
    if i < peerings.len() {
        assert(peerings.take(i + 1).drop_last() =~= peerings.take(i));
        lemma_find_peering_stays(peerings, peering_id, i + 1);
    } else {
        assert(peerings.take(i) =~= peerings);
    }
}

fn side_other_than<'a>(peering: &'a VpcPeeringConnection, vpc_id: &str) -> (side: Option<
    &'a PeeringVpcInfo,
>)
    ensures
        side is Some == other_side(*peering, vpc_id@) is Some,
        side matches Some(found) ==> *found == other_side(*peering, vpc_id@)->0,
{
    if let Some(requester) = &peering.requester_vpc_info {
        if !holds(&requester.vpc_id, vpc_id) {
            return Some(requester);
        }
    }
    if let Some(accepter) = &peering.accepter_vpc_info {
        if !holds(&accepter.vpc_id, vpc_id) {
            return Some(accepter);
        }
    }
    None
}

/// The VPC of the audited account that a route leads to, if any, and whether
/// there is one.
pub fn resolve_route_target(
    account_id: &str,
    rt_vpc_id: &str,
    route: &Route,
    peerings: &[VpcPeeringConnection],
) -> (target: (Option<String>, bool))
    ensures
        target.0.deep_view() == route_target(account_id@, rt_vpc_id@, *route, peerings@),
        target.1 == route_target(account_id@, rt_vpc_id@, *route, peerings@) is Some,
        (route.gateway_id matches Some(gateway) && gateway@ == "local"@) ==> target.1 && (target.0
            matches Some(vpc_id) && vpc_id@ == rt_vpc_id@),
{
    if is_local_gateway(&route.gateway_id) {
        return (Some(rt_vpc_id.to_owned()), true);
    }
    match &route.vpc_peering_connection_id {
        None => (None, false),
        Some(peering_id) => match peering_by_id(peerings, peering_id.as_str()) {
            None => (None, false),
            Some(peering) => match side_other_than(peering, rt_vpc_id) {
                None => (None, false),
                Some(info) => {
                    if holds(&info.owner_id, account_id) {
                        match &info.vpc_id {
                            Some(vpc_id) => (Some(vpc_id.clone()), true),
                            None => (None, false),
                        }
                    } else {
                        (None, false)
                    }
                },
            },
        },
    }
}

fn table_routes_edges(
    account_id: &str,
    route_table: &RouteTable,
    record: &RouteTableRecord,
    peerings: &[VpcPeeringConnection],
) -> (edges: Vec<Edge>)
    ensures
        edges.deep_view() == crate::ingest::map::joined_map(
            route_table.routes@,
            routes_to_edge(account_id@, record.id@, record.vpc_id@, peerings@),
        ),
{
    let ghost f = routes_to_edge(account_id@, record.id@, record.vpc_id@, peerings@);
    let ghost routes = route_table.routes@;
    let mut edges: Vec<Edge> = Vec::new();
    let mut i: usize = 0;
    assert(edges.deep_view() =~= Seq::empty());
    assert(routes.take(0) =~= Seq::empty());
    while i < route_table.routes.len()
        invariant
            0 <= i <= routes.len(),
            routes == route_table.routes@,
            f == routes_to_edge(account_id@, record.id@, record.vpc_id@, peerings@),
            edges.deep_view() == crate::ingest::map::joined_map(routes.take(i as int), f),
        decreases routes.len() - i,
    {
        let ghost before = edges.deep_view();
        proof {
            crate::ingest::map::lemma_joined_map_step(routes, f, i as int);
        }
        let route = &route_table.routes[i];
        let destination = match &route.destination_cidr_block {
            Some(cidr) => Some(cidr.clone()),
            None => match &route.destination_ipv6_cidr_block {
                Some(cidr) => Some(cidr.clone()),
                None => None,
            },
        };
        match destination {
            Some(destination_cidr) => {
                let (target_vpc_id, resolved) = resolve_route_target(
                    account_id,
                    record.vpc_id.as_str(),
                    route,
                    peerings,
                );
                push_item(
                    &mut edges,
                    Edge::RoutesTo(
                        RoutesToEdge {
                            route_table_id: record.id.clone(),
                            destination_cidr,
                            target_vpc_id,
                            resolved,
                        },
                    ),
                );
            },
            None => {},
        }
        assert(edges.deep_view() =~= before + f(routes[i as int]));
        i = i + 1;
    }
    assert(routes.take(i as int) =~= routes);
    edges
}

/// The `ROUTES_TO` edges of the route tables, whose nodes are `records`.
fn routes_to_edges(
    account_id: &str,
    route_tables: &[RouteTable],
    records: &Vec<RouteTableRecord>,
    peerings: &[VpcPeeringConnection],
) -> (edges: Vec<Edge>)
    requires
        crate::ingest::map::map_all(route_tables@, route_table_node(account_id@)) == Ok::<
            Seq<crate::ports::RouteTableRecordView>,
            crate::error::MappingErrorView,
        >(records.deep_view()),
    ensures
        edges.deep_view() == crate::ingest::map::joined_map(
            route_tables@,
            table_routes(account_id@, peerings@),
        ),
{
    let ghost f = table_routes(account_id@, peerings@);
    let ghost model = records.deep_view();
    let mut edges: Vec<Edge> = Vec::new();
    let mut i: usize = 0;
    proof {
        crate::ingest::map::lemma_map_all_ok(route_tables@, route_table_node(account_id@));
        assert(edges.deep_view() =~= Seq::empty());
        assert(route_tables@.take(0) =~= Seq::empty());
    }
    while i < route_tables.len()
        invariant
            0 <= i <= route_tables@.len(),
            model == records.deep_view(),
            model.len() == route_tables@.len(),
            forall|j: int|
                0 <= j < route_tables@.len() ==> route_table_node(account_id@)(route_tables@[j])
                    == Ok::<crate::ports::RouteTableRecordView, crate::error::MappingErrorView>(#[trigger] model[j]),
            f == table_routes(account_id@, peerings@),
            edges.deep_view() == crate::ingest::map::joined_map(route_tables@.take(i as int), f),
        decreases route_tables@.len() - i,
    {
        proof {
            crate::ingest::map::lemma_joined_map_step(route_tables@, f, i as int);
            assert(model[i as int] == records@[i as int].deep_view());
            assert(given(route_tables@[i as int].route_table_id) == records@[i as int].id@);
            assert(given(route_tables@[i as int].vpc_id) == records@[i as int].vpc_id@);
        }
        append_items(
            &mut edges,
            table_routes_edges(account_id, &route_tables[i], &records[i], peerings),
        );
        i = i + 1;
    }
    assert(route_tables@.take(i as int) =~= route_tables@);
    edges
}

/// The graph of an account: its nodes and edges, or the first resource that
/// cannot be mapped.
pub open spec fn graph_batch(
    account_id: Seq<char>,
    security_groups: Seq<SecurityGroup>,
    network_acls: Seq<NetworkAcl>,
    route_tables: Seq<RouteTable>,
    network_interfaces: Seq<NetworkInterface>,
    peerings: Seq<VpcPeeringConnection>,
) -> Result<crate::graph::model::GraphBatchView, crate::error::MappingErrorView> {
    match (
        graph_nodes(account_id, security_groups, network_acls, route_tables, network_interfaces),
        crate::ingest::map::map_all(network_interfaces, eni_has_sg()),
        crate::ingest::map::map_all(security_groups, group_allows(account_id)),
        crate::ingest::map::map_all(network_acls, acl_has_rules()),
    ) {
        (Err(error), _, _, _) => Err(error),
        (Ok(_), Err(error), _, _) => Err(error),
        (Ok(_), Ok(_), Err(error), _) => Err(error),
        (Ok(_), Ok(_), Ok(_), Err(error)) => Err(error),
        (Ok(nodes), Ok(has_sg), Ok(allows), Ok(has_rules)) => Ok(
            crate::graph::model::GraphBatchView {
                enis: nodes.enis,
                security_groups: nodes.security_groups,
                network_acls: nodes.network_acls,
                route_tables: nodes.route_tables,
                vpcs: crate::ingest::map::stubs::vpc_stubs(
                    account_id,
                    crate::ingest::map::stubs::vpc_sightings(
                        account_id,
                        security_groups,
                        network_acls,
                        route_tables,
                        network_interfaces,
                        peerings,
                    ),
                ),
                subnets: crate::ingest::map::stubs::subnet_stubs(
                    account_id,
                    crate::ingest::map::stubs::subnet_sightings(
                        network_interfaces,
                        network_acls,
                        route_tables,
                    ),
                ),
                edges: crate::ingest::map::joined(has_sg) + crate::ingest::map::joined_map(
                    nodes.enis,
                    eni_in_subnet(),
                ) + crate::ingest::map::joined_map(network_acls, acl_protected_by())
                    + crate::ingest::map::joined_map(route_tables, table_uses())
                    + crate::ingest::map::joined_map(
                    route_tables,
                    table_routes(account_id, peerings),
                ) + crate::ingest::map::joined(allows) + crate::ingest::map::joined(has_rules),
            },
        ),
    }
}

/// The nodes that stand for one resource each.
pub ghost struct GraphNodes {
    pub enis: Seq<crate::ports::EniRecordView>,
    pub security_groups: Seq<crate::ports::SecurityGroupRecordView>,
    pub network_acls: Seq<crate::ports::NetworkAclRecordView>,
    pub route_tables: Seq<crate::ports::RouteTableRecordView>,
}

/// The nodes of an account's resources, or the first resource that cannot be
/// mapped.
pub open spec fn graph_nodes(
    account_id: Seq<char>,
    security_groups: Seq<SecurityGroup>,
    network_acls: Seq<NetworkAcl>,
    route_tables: Seq<RouteTable>,
    network_interfaces: Seq<NetworkInterface>,
) -> Result<GraphNodes, crate::error::MappingErrorView> {
    match (
        crate::ingest::map::map_all(network_interfaces, eni_node(account_id)),
        crate::ingest::map::map_all(security_groups, security_group_node(account_id)),
        crate::ingest::map::map_all(network_acls, network_acl_node(account_id)),
        crate::ingest::map::map_all(route_tables, route_table_node(account_id)),
    ) {
        (Err(error), _, _, _) => Err(error),
        (Ok(_), Err(error), _, _) => Err(error),
        (Ok(_), Ok(_), Err(error), _) => Err(error),
        (Ok(_), Ok(_), Ok(_), Err(error)) => Err(error),
        (Ok(enis), Ok(security_groups), Ok(network_acls), Ok(route_tables)) => Ok(
            GraphNodes { enis, security_groups, network_acls, route_tables },
        ),
    }
}

/// Builds the graph of an account from its resources, with every edge derived
/// at exactly one place.
pub fn build_graph_batch(
    account_id: &str,
    security_groups: &[SecurityGroup],
    network_acls: &[NetworkAcl],
    route_tables: &[RouteTable],
    network_interfaces: &[NetworkInterface],
    vpc_peering_connections: &[VpcPeeringConnection],
) -> (batch: Result<GraphBatch, MappingError>)
    ensures
        crate::ingest::map::agrees(
            batch,
            graph_batch(
                account_id@,
                security_groups@,
                network_acls@,
                route_tables@,
                network_interfaces@,
                vpc_peering_connections@,
            ),
        ),
{
    let enis = match map_eni_nodes(network_interfaces, account_id) {
        Ok(records) => records,
        Err(error) => return Err(error),
    };
    let security_group_records = match map_security_group_nodes(security_groups, account_id) {
        Ok(records) => records,
        Err(error) => return Err(error),
    };
    let network_acl_records = match map_network_acl_nodes(network_acls, account_id) {
        Ok(records) => records,
        Err(error) => return Err(error),
    };
    let route_table_records = match map_route_table_nodes(route_tables, account_id) {
        Ok(records) => records,
        Err(error) => return Err(error),
    };
    let vpcs = collect_vpc_stubs(
        account_id,
        security_groups,
        network_acls,
        route_tables,
        network_interfaces,
        vpc_peering_connections,
    );
    let subnets = collect_subnet_stubs(account_id, network_interfaces, network_acls, route_tables);
    let mut edges = match has_sg_edges(network_interfaces, &enis, account_id) {
        Ok(edges) => edges,
        Err(error) => return Err(error),
    };
    append_items(&mut edges, in_subnet_edges(enis.as_slice()));
    append_items(
        &mut edges,
        protected_by_edges(network_acls, &network_acl_records, Ghost(account_id@)),
    );
    append_items(
        &mut edges,
        uses_route_table_edges(route_tables, &route_table_records, Ghost(account_id@)),
    );
    append_items(
        &mut edges,
        routes_to_edges(account_id, route_tables, &route_table_records, vpc_peering_connections),
    );
    match allows_edges(security_groups, &security_group_records, account_id) {
        Ok(more) => append_items(&mut edges, more),
        Err(error) => return Err(error),
    }
    match has_rule_edges(network_acls, &network_acl_records, account_id) {
        Ok(more) => append_items(&mut edges, more),
        Err(error) => return Err(error),
    }
    Ok(
        GraphBatch {
            enis,
            security_groups: security_group_records,
            network_acls: network_acl_records,
            subnets,
            vpcs,
            route_tables: route_table_records,
            edges,
        },
    )
}

/// A route through a peering connection whose other side another account owns
/// is unresolved.
pub proof fn law_foreign_peering_is_unresolved(
    account_id: Seq<char>,
    vpc_id: Seq<char>,
    route: Route,
    peerings: Seq<VpcPeeringConnection>,
)
    requires
        !(route.gateway_id matches Some(gateway) && gateway@ == "local"@),
        route.vpc_peering_connection_id matches Some(peering_id) && (find_peering(
            peerings,
            peering_id@,
        ) matches Some(peering) && (other_side(peering, vpc_id) matches Some(info)
            && !crate::ingest::map::stubs::owned_by(info, account_id))),
    ensures
        route_target(account_id, vpc_id, route, peerings) is None,
{
}

/// Whether `id` is the id of an ENI node.
pub open spec fn has_eni(batch: crate::graph::model::GraphBatchView, id: Seq<char>) -> bool {
    exists|i: int| 0 <= i < batch.enis.len() && (#[trigger] batch.enis[i]).id == id
}

/// Whether `id` is the id of a security group node.
pub open spec fn has_group(batch: crate::graph::model::GraphBatchView, id: Seq<char>) -> bool {
    exists|i: int|
        0 <= i < batch.security_groups.len() && (#[trigger] batch.security_groups[i]).id == id
}

/// Whether `id` is the id of a network ACL node.
pub open spec fn has_acl(batch: crate::graph::model::GraphBatchView, id: Seq<char>) -> bool {
    exists|i: int|
        0 <= i < batch.network_acls.len() && (#[trigger] batch.network_acls[i]).id == id
}

/// Whether `id` is the id of a route table node.
pub open spec fn has_table(batch: crate::graph::model::GraphBatchView, id: Seq<char>) -> bool {
    exists|i: int|
        0 <= i < batch.route_tables.len() && (#[trigger] batch.route_tables[i]).id == id
}

/// Whether `id` is the id of a subnet node.
pub open spec fn has_subnet(batch: crate::graph::model::GraphBatchView, id: Seq<char>) -> bool {
    exists|i: int| 0 <= i < batch.subnets.len() && (#[trigger] batch.subnets[i]).id == id
}

/// Whether `id` is the id of a VPC node.
pub open spec fn has_vpc(batch: crate::graph::model::GraphBatchView, id: Seq<char>) -> bool {
    exists|i: int| 0 <= i < batch.vpcs.len() && (#[trigger] batch.vpcs[i]).id == id
}

/// Whether `eni` lists the security group `id` among its groups.
pub open spec fn is_member(eni: NetworkInterface, id: Seq<char>) -> bool {
    exists|g: int|
        0 <= g < eni.groups@.len() && ((#[trigger] eni.groups@[g]).group_id matches Some(group_id)
            && group_id@ == id)
}

/// Whether an edge that is a membership is one that some interface lists.
pub open spec fn is_listed_membership(
    edge: crate::graph::model::EdgeView,
    network_interfaces: Seq<NetworkInterface>,
) -> bool {
    edge matches crate::graph::model::EdgeView::HasSg(membership) ==> exists|i: int|
        0 <= i < network_interfaces.len() && is_member(
            #[trigger] network_interfaces[i],
            membership.security_group_id,
        )
}

/// Whether an edge joins nodes of `batch`, except for a security group that an
/// interface is a member of, which the account's answers need not describe. A
/// route is resolved exactly where it has a target.
pub open spec fn joins_known_nodes(
    edge: crate::graph::model::EdgeView,
    batch: crate::graph::model::GraphBatchView,
) -> bool {
    match edge {
        crate::graph::model::EdgeView::HasSg(edge) => has_eni(batch, edge.eni_id),
        crate::graph::model::EdgeView::InSubnet(edge) => has_eni(batch, edge.eni_id)
            && has_subnet(batch, edge.subnet_id),
        crate::graph::model::EdgeView::ProtectedBy(edge) => has_subnet(batch, edge.subnet_id)
            && has_acl(batch, edge.network_acl_id),
        crate::graph::model::EdgeView::UsesRouteTable(edge) => has_subnet(batch, edge.subnet_id)
            && has_table(batch, edge.route_table_id),
        crate::graph::model::EdgeView::RoutesTo(edge) => {
            &&& has_table(batch, edge.route_table_id)
            &&& crate::graph::neo4j::route_consistent(edge)
            &&& edge.target_vpc_id matches Some(target) ==> has_vpc(batch, target)
        },
        crate::graph::model::EdgeView::AllowsIngress { security_group_id, rule } => {
            has_group(batch, security_group_id) && rule.direction == Direction::Ingress
        },
        crate::graph::model::EdgeView::AllowsEgress { security_group_id, rule } => {
            has_group(batch, security_group_id) && rule.direction == Direction::Egress
        },
        crate::graph::model::EdgeView::HasRule { network_acl_id, .. } => has_acl(
            batch,
            network_acl_id,
        ),
    }
}

proof fn lemma_has_sg_known(
    account_id: Seq<char>,
    network_interfaces: Seq<NetworkInterface>,
    batch: crate::graph::model::GraphBatchView,
    edge: crate::graph::model::EdgeView,
)
    requires
        crate::ingest::map::map_all(network_interfaces, eni_node(account_id)) == Ok::<
            Seq<crate::ports::EniRecordView>,
            crate::error::MappingErrorView,
        >(batch.enis),
        crate::ingest::map::map_all(network_interfaces, eni_has_sg()) matches Ok(parts)
            && crate::ingest::map::joined(parts).contains(edge),
    ensures
        joins_known_nodes(edge, batch),
        is_listed_membership(edge, network_interfaces),
{
    let parts = crate::ingest::map::map_all(network_interfaces, eni_has_sg())->Ok_0;
    crate::ingest::map::lemma_map_all_ok(network_interfaces, eni_node(account_id));
    crate::ingest::map::lemma_map_all_ok(network_interfaces, eni_has_sg());
    crate::ingest::map::lemma_joined_contains(parts, edge);
    let k = choose|k: int| 0 <= k < parts.len() && (#[trigger] parts[k]).contains(edge);
    let eni = network_interfaces[k];
    let f = has_sg_edge(given(eni.network_interface_id));
    crate::ingest::map::lemma_map_all_ok(eni.groups@, f);
    let g = choose|g: int| 0 <= g < parts[k].len() && parts[k][g] == edge;
    assert(f(eni.groups@[g]) == Ok::<
        crate::graph::model::EdgeView,
        crate::error::MappingErrorView,
    >(parts[k][g]));
    assert(batch.enis[k].id == given(eni.network_interface_id));
    assert(is_member(network_interfaces[k], edge->HasSg_0.security_group_id));
}

proof fn lemma_in_subnet_known(
    account_id: Seq<char>,
    network_acls: Seq<NetworkAcl>,
    route_tables: Seq<RouteTable>,
    network_interfaces: Seq<NetworkInterface>,
    batch: crate::graph::model::GraphBatchView,
    edge: crate::graph::model::EdgeView,
)
    requires
        crate::ingest::map::map_all(network_interfaces, eni_node(account_id)) == Ok::<
            Seq<crate::ports::EniRecordView>,
            crate::error::MappingErrorView,
        >(batch.enis),
        batch.subnets == crate::ingest::map::stubs::subnet_stubs(
            account_id,
            crate::ingest::map::stubs::subnet_sightings(
                network_interfaces,
                network_acls,
                route_tables,
            ),
        ),
        crate::ingest::map::joined_map(batch.enis, eni_in_subnet()).contains(edge),
    ensures
        joins_known_nodes(edge, batch),
        !(edge is HasSg),
{
    crate::ingest::map::lemma_map_all_ok(network_interfaces, eni_node(account_id));
    crate::ingest::map::lemma_joined_map_contains(batch.enis, eni_in_subnet(), edge);
    let k = choose|k: int|
        0 <= k < batch.enis.len() && eni_in_subnet()(#[trigger] batch.enis[k]).contains(edge);
    let record = batch.enis[k];
    let made = eni_in_subnet()(record);
    let g = choose|g: int| 0 <= g < made.len() && made[g] == edge;
    assert(g == 0);
    let eni = network_interfaces[k];
    assert(eni_node(account_id)(eni) == Ok::<
        crate::ports::EniRecordView,
        crate::error::MappingErrorView,
    >(record));
    let pair = (record.subnet_id, record.vpc_id);
    let part = crate::ingest::map::stubs::eni_subnet()(eni);
    assert(part[0] == pair);
    assert(part.contains(pair));
    lemma_subnet_sighted(account_id, network_interfaces, network_acls, route_tables, pair);
}

/// A subnet that is mentioned has a node.
proof fn lemma_subnet_sighted(
    account_id: Seq<char>,
    network_interfaces: Seq<NetworkInterface>,
    network_acls: Seq<NetworkAcl>,
    route_tables: Seq<RouteTable>,
    pair: (Seq<char>, Seq<char>),
)
    requires
        (exists|k: int|
            0 <= k < network_interfaces.len() && crate::ingest::map::stubs::eni_subnet()(
                #[trigger] network_interfaces[k],
            ).contains(pair)) || (exists|k: int|
            0 <= k < network_acls.len() && crate::ingest::map::stubs::acl_subnets()(
                #[trigger] network_acls[k],
            ).contains(pair)) || (exists|k: int|
            0 <= k < route_tables.len() && crate::ingest::map::stubs::table_subnets()(
                #[trigger] route_tables[k],
            ).contains(pair)),
    ensures
        ({
            let stubs = crate::ingest::map::stubs::subnet_stubs(
                account_id,
                crate::ingest::map::stubs::subnet_sightings(
                    network_interfaces,
                    network_acls,
                    route_tables,
                ),
            );
            exists|i: int| 0 <= i < stubs.len() && (#[trigger] stubs[i]).id == pair.0
        }),
{
    let sightings = crate::ingest::map::stubs::subnet_sightings(
        network_interfaces,
        network_acls,
        route_tables,
    );
    let a = crate::ingest::map::joined_map(
        network_interfaces,
        crate::ingest::map::stubs::eni_subnet(),
    );
    let b = crate::ingest::map::joined_map(
        network_acls,
        crate::ingest::map::stubs::acl_subnets(),
    );
    let c = crate::ingest::map::joined_map(
        route_tables,
        crate::ingest::map::stubs::table_subnets(),
    );
    crate::ingest::map::lemma_joined_map_contains(
        network_interfaces,
        crate::ingest::map::stubs::eni_subnet(),
        pair,
    );
    crate::ingest::map::lemma_joined_map_contains(
        network_acls,
        crate::ingest::map::stubs::acl_subnets(),
        pair,
    );
    crate::ingest::map::lemma_joined_map_contains(
        route_tables,
        crate::ingest::map::stubs::table_subnets(),
        pair,
    );
    if a.contains(pair) {
        let p = choose|p: int| 0 <= p < a.len() && a[p] == pair;
        assert(sightings[p] == pair);
    } else if b.contains(pair) {
        let p = choose|p: int| 0 <= p < b.len() && b[p] == pair;
        assert(sightings[a.len() + p] == pair);
    } else {
        let p = choose|p: int| 0 <= p < c.len() && c[p] == pair;
        assert(sightings[a.len() + b.len() + p] == pair);
    }
    crate::ingest::map::stubs::law_one_subnet_node_per_subnet(account_id, sightings, pair.0);
}

proof fn lemma_protected_by_known(
    account_id: Seq<char>,
    network_acls: Seq<NetworkAcl>,
    route_tables: Seq<RouteTable>,
    network_interfaces: Seq<NetworkInterface>,
    batch: crate::graph::model::GraphBatchView,
    edge: crate::graph::model::EdgeView,
)
    requires
        crate::ingest::map::map_all(network_acls, network_acl_node(account_id)) == Ok::<
            Seq<crate::ports::NetworkAclRecordView>,
            crate::error::MappingErrorView,
        >(batch.network_acls),
        batch.subnets == crate::ingest::map::stubs::subnet_stubs(
            account_id,
            crate::ingest::map::stubs::subnet_sightings(
                network_interfaces,
                network_acls,
                route_tables,
            ),
        ),
        crate::ingest::map::joined_map(network_acls, acl_protected_by()).contains(edge),
    ensures
        joins_known_nodes(edge, batch),
        !(edge is HasSg),
{
    crate::ingest::map::lemma_map_all_ok(network_acls, network_acl_node(account_id));
    crate::ingest::map::lemma_joined_map_contains(network_acls, acl_protected_by(), edge);
    let k = choose|k: int|
        0 <= k < network_acls.len() && acl_protected_by()(#[trigger] network_acls[k]).contains(
            edge,
        );
    let acl = network_acls[k];
    let f = protected_by_edge(given(acl.network_acl_id));
    crate::ingest::map::lemma_joined_map_contains(acl.associations@, f, edge);
    let g = choose|g: int|
        0 <= g < acl.associations@.len() && f(#[trigger] acl.associations@[g]).contains(edge);
    let association = acl.associations@[g];
    let made = f(association);
    let m = choose|m: int| 0 <= m < made.len() && made[m] == edge;
    assert(m == 0);
    assert(network_acl_node(account_id)(acl) == Ok::<
        crate::ports::NetworkAclRecordView,
        crate::error::MappingErrorView,
    >(batch.network_acls[k]));
    let vpc_id = acl.vpc_id->0@;
    let pair = (association.subnet_id->0@, vpc_id);
    let h = crate::ingest::map::stubs::acl_association_subnet(vpc_id);
    assert(h(association)[0] == pair);
    assert(h(acl.associations@[g]).contains(pair));
    crate::ingest::map::lemma_joined_map_contains(acl.associations@, h, pair);
    assert(crate::ingest::map::stubs::acl_subnets()(network_acls[k]).contains(pair));
    lemma_subnet_sighted(account_id, network_interfaces, network_acls, route_tables, pair);
}

proof fn lemma_uses_table_known(
    account_id: Seq<char>,
    network_acls: Seq<NetworkAcl>,
    route_tables: Seq<RouteTable>,
    network_interfaces: Seq<NetworkInterface>,
    batch: crate::graph::model::GraphBatchView,
    edge: crate::graph::model::EdgeView,
)
    requires
        crate::ingest::map::map_all(route_tables, route_table_node(account_id)) == Ok::<
            Seq<crate::ports::RouteTableRecordView>,
            crate::error::MappingErrorView,
        >(batch.route_tables),
        batch.subnets == crate::ingest::map::stubs::subnet_stubs(
            account_id,
            crate::ingest::map::stubs::subnet_sightings(
                network_interfaces,
                network_acls,
                route_tables,
            ),
        ),
        crate::ingest::map::joined_map(route_tables, table_uses()).contains(edge),
    ensures
        joins_known_nodes(edge, batch),
        !(edge is HasSg),
{
    crate::ingest::map::lemma_map_all_ok(route_tables, route_table_node(account_id));
    crate::ingest::map::lemma_joined_map_contains(route_tables, table_uses(), edge);
    let k = choose|k: int|
        0 <= k < route_tables.len() && table_uses()(#[trigger] route_tables[k]).contains(edge);
    let table = route_tables[k];
    let f = uses_route_table_edge(given(table.route_table_id));
    crate::ingest::map::lemma_joined_map_contains(table.associations@, f, edge);
    let g = choose|g: int|
        0 <= g < table.associations@.len() && f(#[trigger] table.associations@[g]).contains(edge);
    let association = table.associations@[g];
    let made = f(association);
    let m = choose|m: int| 0 <= m < made.len() && made[m] == edge;
    assert(m == 0);
    assert(route_table_node(account_id)(table) == Ok::<
        crate::ports::RouteTableRecordView,
        crate::error::MappingErrorView,
    >(batch.route_tables[k]));
    let vpc_id = table.vpc_id->0@;
    let pair = (association.subnet_id->0@, vpc_id);
    let h = crate::ingest::map::stubs::table_association_subnet(vpc_id);
    assert(h(association)[0] == pair);
    assert(h(table.associations@[g]).contains(pair));
    crate::ingest::map::lemma_joined_map_contains(table.associations@, h, pair);
    assert(crate::ingest::map::stubs::table_subnets()(route_tables[k]).contains(pair));
    lemma_subnet_sighted(account_id, network_interfaces, network_acls, route_tables, pair);
}

proof fn lemma_find_peering_in(peerings: Seq<VpcPeeringConnection>, peering_id: Seq<char>) -> (i:
    int)
    requires
        find_peering(peerings, peering_id) is Some,
    ensures
        0 <= i < peerings.len(),
        find_peering(peerings, peering_id) == Some(peerings[i]),
    decreases peerings.len(),
{
    if find_peering(peerings.drop_last(), peering_id) is Some {
        lemma_find_peering_in(peerings.drop_last(), peering_id)
    } else {
        peerings.len() - 1
    }
}

proof fn lemma_routes_known(
    account_id: Seq<char>,
    security_groups: Seq<SecurityGroup>,
    network_acls: Seq<NetworkAcl>,
    route_tables: Seq<RouteTable>,
    network_interfaces: Seq<NetworkInterface>,
    peerings: Seq<VpcPeeringConnection>,
    batch: crate::graph::model::GraphBatchView,
    edge: crate::graph::model::EdgeView,
)
    requires
        crate::ingest::map::map_all(route_tables, route_table_node(account_id)) == Ok::<
            Seq<crate::ports::RouteTableRecordView>,
            crate::error::MappingErrorView,
        >(batch.route_tables),
        batch.vpcs == crate::ingest::map::stubs::vpc_stubs(
            account_id,
            crate::ingest::map::stubs::vpc_sightings(
                account_id,
                security_groups,
                network_acls,
                route_tables,
                network_interfaces,
                peerings,
            ),
        ),
        crate::ingest::map::joined_map(route_tables, table_routes(account_id, peerings)).contains(
            edge,
        ),
    ensures
        joins_known_nodes(edge, batch),
        !(edge is HasSg),
{
    let all = table_routes(account_id, peerings);
    crate::ingest::map::lemma_map_all_ok(route_tables, route_table_node(account_id));
    crate::ingest::map::lemma_joined_map_contains(route_tables, all, edge);
    let k = choose|k: int|
        0 <= k < route_tables.len() && all(#[trigger] route_tables[k]).contains(edge);
    let table = route_tables[k];
    let vpc_id = given(table.vpc_id);
    let f = routes_to_edge(account_id, given(table.route_table_id), vpc_id, peerings);
    crate::ingest::map::lemma_joined_map_contains(table.routes@, f, edge);
    let g = choose|g: int|
        0 <= g < table.routes@.len() && f(#[trigger] table.routes@[g]).contains(edge);
    let route = table.routes@[g];
    let made = f(route);
    let m = choose|m: int| 0 <= m < made.len() && made[m] == edge;
    assert(m == 0);
    assert(route_table_node(account_id)(table) == Ok::<
        crate::ports::RouteTableRecordView,
        crate::error::MappingErrorView,
    >(batch.route_tables[k]));
    let target = route_target(account_id, vpc_id, route, peerings);
    if target is Some {
        let sightings = crate::ingest::map::stubs::vpc_sightings(
            account_id,
            security_groups,
            network_acls,
            route_tables,
            network_interfaces,
            peerings,
        );
        let id = target->0;
        let tables = crate::ingest::map::joined_map(
            route_tables,
            crate::ingest::map::stubs::route_table_vpc(),
        );
        let sides = crate::ingest::map::joined_map(
            peerings,
            crate::ingest::map::stubs::peering_vpcs(account_id),
        );
        let before_tables = crate::ingest::map::joined_map(
            security_groups,
            crate::ingest::map::stubs::sg_vpc(),
        ) + crate::ingest::map::joined_map(network_acls, crate::ingest::map::stubs::acl_vpc());
        let before_sides = before_tables + tables + crate::ingest::map::joined_map(
            network_interfaces,
            crate::ingest::map::stubs::eni_vpc(),
        );
        if route.gateway_id matches Some(gateway) && gateway@ == "local"@ {
            let part = crate::ingest::map::stubs::route_table_vpc()(table);
            assert(part[0] == id);
            assert(crate::ingest::map::stubs::route_table_vpc()(route_tables[k]).contains(id));
            crate::ingest::map::lemma_joined_map_contains(
                route_tables,
                crate::ingest::map::stubs::route_table_vpc(),
                id,
            );
            let p = choose|p: int| 0 <= p < tables.len() && tables[p] == id;
            assert(sightings[before_tables.len() + p] == id);
        } else {
            let peering_id = route.vpc_peering_connection_id->0@;
            let i = lemma_find_peering_in(peerings, peering_id);
            let peering = peerings[i];
            let part = crate::ingest::map::stubs::peering_vpcs(account_id)(peering);
            let requester = crate::ingest::map::stubs::side_vpc(
                peering.requester_vpc_info,
                account_id,
            );
            let accepter = crate::ingest::map::stubs::side_vpc(
                peering.accepter_vpc_info,
                account_id,
            );
            if other_side(peering, vpc_id) == peering.requester_vpc_info {
                assert(requester[0] == id);
                assert(part[0] == id);
            } else {
                assert(accepter[0] == id);
                assert(part[requester.len() as int] == id);
            }
            assert(crate::ingest::map::stubs::peering_vpcs(account_id)(peerings[i]).contains(id));
            crate::ingest::map::lemma_joined_map_contains(
                peerings,
                crate::ingest::map::stubs::peering_vpcs(account_id),
                id,
            );
            let p = choose|p: int| 0 <= p < sides.len() && sides[p] == id;
            assert(sightings[before_sides.len() + p] == id);
        }
        assert(sightings.contains(id));
        crate::ingest::map::stubs::law_one_vpc_node_per_vpc(account_id, sightings, id);
    }
}

proof fn lemma_allows_known(
    account_id: Seq<char>,
    security_groups: Seq<SecurityGroup>,
    batch: crate::graph::model::GraphBatchView,
    edge: crate::graph::model::EdgeView,
)
    requires
        crate::ingest::map::map_all(security_groups, security_group_node(account_id)) == Ok::<
            Seq<crate::ports::SecurityGroupRecordView>,
            crate::error::MappingErrorView,
        >(batch.security_groups),
        crate::ingest::map::map_all(security_groups, group_allows(account_id)) matches Ok(parts)
            && crate::ingest::map::joined(parts).contains(edge),
    ensures
        joins_known_nodes(edge, batch),
        !(edge is HasSg),
{
    let parts = crate::ingest::map::map_all(security_groups, group_allows(account_id))->Ok_0;
    crate::ingest::map::lemma_map_all_ok(security_groups, security_group_node(account_id));
    crate::ingest::map::lemma_map_all_ok(security_groups, group_allows(account_id));
    crate::ingest::map::lemma_joined_contains(parts, edge);
    let k = choose|k: int| 0 <= k < parts.len() && (#[trigger] parts[k]).contains(edge);
    let g = choose|g: int| 0 <= g < parts[k].len() && parts[k][g] == edge;
    assert(group_allows(account_id)(security_groups[k]) == Ok::<
        Seq<crate::graph::model::EdgeView>,
        crate::error::MappingErrorView,
    >(parts[k]));
    assert(batch.security_groups[k].id == given(security_groups[k].group_id));
}

proof fn lemma_has_rules_known(
    account_id: Seq<char>,
    network_acls: Seq<NetworkAcl>,
    batch: crate::graph::model::GraphBatchView,
    edge: crate::graph::model::EdgeView,
)
    requires
        crate::ingest::map::map_all(network_acls, network_acl_node(account_id)) == Ok::<
            Seq<crate::ports::NetworkAclRecordView>,
            crate::error::MappingErrorView,
        >(batch.network_acls),
        crate::ingest::map::map_all(network_acls, acl_has_rules()) matches Ok(parts)
            && crate::ingest::map::joined(parts).contains(edge),
    ensures
        joins_known_nodes(edge, batch),
        !(edge is HasSg),
{
    let parts = crate::ingest::map::map_all(network_acls, acl_has_rules())->Ok_0;
    crate::ingest::map::lemma_map_all_ok(network_acls, network_acl_node(account_id));
    crate::ingest::map::lemma_map_all_ok(network_acls, acl_has_rules());
    crate::ingest::map::lemma_joined_contains(parts, edge);
    let k = choose|k: int| 0 <= k < parts.len() && (#[trigger] parts[k]).contains(edge);
    let g = choose|g: int| 0 <= g < parts[k].len() && parts[k][g] == edge;
    assert(acl_has_rules()(network_acls[k]) == Ok::<
        Seq<crate::graph::model::EdgeView>,
        crate::error::MappingErrorView,
    >(parts[k]));
    assert(batch.network_acls[k].id == given(network_acls[k].network_acl_id));
}

/// Every edge of a graph that has been built joins nodes of that graph, the
/// security group that an interface is a member of aside, and every membership
/// is one that an interface lists.
pub proof fn law_edges_join_known_nodes(
    account_id: Seq<char>,
    security_groups: Seq<SecurityGroup>,
    network_acls: Seq<NetworkAcl>,
    route_tables: Seq<RouteTable>,
    network_interfaces: Seq<NetworkInterface>,
    peerings: Seq<VpcPeeringConnection>,
    i: int,
)
    requires
        graph_batch(
            account_id,
            security_groups,
            network_acls,
            route_tables,
            network_interfaces,
            peerings,
        ) matches Ok(batch) && 0 <= i < batch.edges.len(),
    ensures
        graph_batch(
            account_id,
            security_groups,
            network_acls,
            route_tables,
            network_interfaces,
            peerings,
        ) matches Ok(batch) && joins_known_nodes(batch.edges[i], batch) && is_listed_membership(
            batch.edges[i],
            network_interfaces,
        ),
{
    let batch = graph_batch(
        account_id,
        security_groups,
        network_acls,
        route_tables,
        network_interfaces,
        peerings,
    )->Ok_0;
    let edge = batch.edges[i];
    let p1 = crate::ingest::map::joined(
        crate::ingest::map::map_all(network_interfaces, eni_has_sg())->Ok_0,
    );
    let p2 = crate::ingest::map::joined_map(batch.enis, eni_in_subnet());
    let p3 = crate::ingest::map::joined_map(network_acls, acl_protected_by());
    let p4 = crate::ingest::map::joined_map(route_tables, table_uses());
    let p5 = crate::ingest::map::joined_map(route_tables, table_routes(account_id, peerings));
    let p6 = crate::ingest::map::joined(
        crate::ingest::map::map_all(security_groups, group_allows(account_id))->Ok_0,
    );
    let p7 = crate::ingest::map::joined(
        crate::ingest::map::map_all(network_acls, acl_has_rules())->Ok_0,
    );
    let n2 = p1.len() + p2.len();
    let n3 = n2 + p3.len();
    let n4 = n3 + p4.len();
    let n5 = n4 + p5.len();
    let n6 = n5 + p6.len();
    if i < p1.len() {
        assert(p1[i] == edge);
        assert(p1.contains(edge));
        lemma_has_sg_known(account_id, network_interfaces, batch, edge);
    } else if i < n2 {
        assert(p2[i - p1.len()] == edge);
        assert(p2.contains(edge));
        lemma_in_subnet_known(
            account_id,
            network_acls,
            route_tables,
            network_interfaces,
            batch,
            edge,
        );
    } else if i < n3 {
        assert(p3[i - n2] == edge);
        assert(p3.contains(edge));
        lemma_protected_by_known(
            account_id,
            network_acls,
            route_tables,
            network_interfaces,
            batch,
            edge,
        );
    } else if i < n4 {
        assert(p4[i - n3] == edge);
        assert(p4.contains(edge));
        lemma_uses_table_known(
            account_id,
            network_acls,
            route_tables,
            network_interfaces,
            batch,
            edge,
        );
    } else if i < n5 {
        assert(p5[i - n4] == edge);
        assert(p5.contains(edge));
        lemma_routes_known(
            account_id,
            security_groups,
            network_acls,
            route_tables,
            network_interfaces,
            peerings,
            batch,
            edge,
        );
    } else if i < n6 {
        assert(p6[i - n5] == edge);
        assert(p6.contains(edge));
        lemma_allows_known(account_id, security_groups, batch, edge);
    } else {
        assert(p7[i - n6] == edge);
        assert(p7.contains(edge));
        lemma_has_rules_known(account_id, network_acls, batch, edge);
    }
}

} // verus!
