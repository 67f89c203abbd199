//! `VPC` and `Subnet` nodes, derived from where other resources mention them.
//!
//! Nothing describes VPCs and subnets themselves, so their CIDR blocks and
//! availability zones stay empty.
use vstd::prelude::*;

use crate::graph::groups::add_item;
use crate::ingest::aws::{
    NetworkAcl, NetworkAclAssociation, NetworkInterface, PeeringVpcInfo, RouteTable,
    RouteTableAssociation, SecurityGroup, VpcPeeringConnection,
};
use crate::ports::{SubnetRecord, VpcRecord};
use crate::text::same_text;

verus! {

/// The VPC that a security group is in.
pub open spec fn sg_vpc() -> spec_fn(SecurityGroup) -> Seq<Seq<char>> {
    |sg: SecurityGroup| crate::ingest::map::present(sg.vpc_id)
}

/// The VPC that a network ACL is in.
pub open spec fn acl_vpc() -> spec_fn(NetworkAcl) -> Seq<Seq<char>> {
    |acl: NetworkAcl| crate::ingest::map::present(acl.vpc_id)
}

/// The VPC that a route table is in.
pub open spec fn route_table_vpc() -> spec_fn(RouteTable) -> Seq<Seq<char>> {
    |route_table: RouteTable| crate::ingest::map::present(route_table.vpc_id)
}

/// The VPC that a network interface is in.
pub open spec fn eni_vpc() -> spec_fn(NetworkInterface) -> Seq<Seq<char>> {
    |eni: NetworkInterface| crate::ingest::map::present(eni.vpc_id)
}

/// Whether a side of a peering connection belongs to `account_id`.
pub open spec fn owned_by(info: PeeringVpcInfo, account_id: Seq<char>) -> bool {
    info.owner_id matches Some(owner) && owner@ == account_id
}

/// The VPC of one side of a peering connection, where the audited account owns
/// it. One that it does not own is no node of the account's graph.
pub open spec fn side_vpc(side: Option<PeeringVpcInfo>, account_id: Seq<char>) -> Seq<Seq<char>> {
    match side {
        Some(info) => if owned_by(info, account_id) {
            crate::ingest::map::present(info.vpc_id)
        } else {
            Seq::empty()
        },
        None => Seq::empty(),
    }
}

/// The audited account's VPCs among the two sides of a peering connection.
pub open spec fn peering_vpcs(account_id: Seq<char>) -> spec_fn(VpcPeeringConnection) -> Seq<
    Seq<char>,
> {
    |peering: VpcPeeringConnection|
        side_vpc(peering.requester_vpc_info, account_id) + side_vpc(
            peering.accepter_vpc_info,
            account_id,
        )
}

/// Every mention of a VPC.
pub open spec fn vpc_sightings(
    account_id: Seq<char>,
    security_groups: Seq<SecurityGroup>,
    network_acls: Seq<NetworkAcl>,
    route_tables: Seq<RouteTable>,
    network_interfaces: Seq<NetworkInterface>,
    peerings: Seq<VpcPeeringConnection>,
) -> Seq<Seq<char>> {
    crate::ingest::map::joined_map(security_groups, sg_vpc()) + crate::ingest::map::joined_map(
        network_acls,
        acl_vpc(),
    ) + crate::ingest::map::joined_map(route_tables, route_table_vpc())
        + crate::ingest::map::joined_map(network_interfaces, eni_vpc())
        + crate::ingest::map::joined_map(peerings, peering_vpcs(account_id))
}

/// A sequence of ids as pairs of an id and nothing.
pub open spec fn unit_pairs(ids: Seq<Seq<char>>) -> Seq<(Seq<char>, ())> {
    ids.map_values(|id: Seq<char>| (id, ()))
}

/// One `VPC` node per VPC that is mentioned, in the order of their ids.
pub open spec fn vpc_stubs(account_id: Seq<char>, sightings: Seq<Seq<char>>) -> Seq<
    crate::ports::VpcRecordView,
> {
    crate::graph::groups::grouped(unit_pairs(sightings)).map_values(
        |group: (Seq<char>, Seq<()>)|
            crate::ports::VpcRecordView { id: group.0, account_id, cidr_block: Seq::empty() },
    )
}

proof fn lemma_unit_pairs_push(ids: Seq<Seq<char>>, id: Seq<char>)
    ensures
        unit_pairs(ids + seq![id]) == unit_pairs(ids).push((id, ())),
{
    assert(unit_pairs(ids + seq![id]) =~= unit_pairs(ids).push((id, ())));
}

/// Notes a mention of a VPC.
fn sight_vpc(
    groups: &mut Vec<(String, Vec<()>)>,
    vpc_id: &Option<String>,
    Ghost(ids): Ghost<Seq<Seq<char>>>,
)
    requires
        crate::graph::groups::is_grouping(old(groups).deep_view(), unit_pairs(ids)),
    ensures
        crate::graph::groups::is_grouping(
            final(groups).deep_view(),
            unit_pairs(ids + crate::ingest::map::present(*vpc_id)),
        ),
{
    match vpc_id {
        Some(id) => {
            proof {
                lemma_unit_pairs_push(ids, id@);
            }
            add_item(groups, id, (), Ghost(unit_pairs(ids)));
        },
        None => {
            assert(ids + Seq::<Seq<char>>::empty() =~= ids);
        },
    }
}

/// Notes the VPC of one side of a peering connection.
fn sight_side(
    groups: &mut Vec<(String, Vec<()>)>,
    side: &Option<PeeringVpcInfo>,
    account_id: &str,
    Ghost(ids): Ghost<Seq<Seq<char>>>,
)
    requires
        crate::graph::groups::is_grouping(old(groups).deep_view(), unit_pairs(ids)),
    ensures
        crate::graph::groups::is_grouping(
            final(groups).deep_view(),
            unit_pairs(ids + side_vpc(*side, account_id@)),
        ),
{
    assert(ids + Seq::<Seq<char>>::empty() =~= ids);
    match side {
        Some(info) => match &info.owner_id {
            Some(owner) => {
                if same_text(owner.as_str(), account_id) {
                    sight_vpc(groups, &info.vpc_id, Ghost(ids));
                }
            },
            None => {},
        },
        None => {},
    }
}

/// Derives one `VPC` node per VPC of the audited account that any resource
/// mentions.
pub fn collect_vpc_stubs(
    account_id: &str,
    security_groups: &[SecurityGroup],
    network_acls: &[NetworkAcl],
    route_tables: &[RouteTable],
    network_interfaces: &[NetworkInterface],
    peerings: &[VpcPeeringConnection],
) -> (stubs: Vec<VpcRecord>)
    ensures
        stubs.deep_view() == vpc_stubs(
            account_id@,
            vpc_sightings(
                account_id@,
                security_groups@,
                network_acls@,
                route_tables@,
                network_interfaces@,
                peerings@,
            ),
        ),
{
    let mut groups: Vec<(String, Vec<()>)> = Vec::new();
    let ghost mut ids: Seq<Seq<char>> = Seq::empty();
    let mut i: usize = 0;
    assert(unit_pairs(ids) =~= Seq::empty());
    assert(security_groups@.take(0) =~= Seq::empty());
    while i < security_groups.len()
        invariant
            0 <= i <= security_groups@.len(),
            ids == crate::ingest::map::joined_map(security_groups@.take(i as int), sg_vpc()),
            crate::graph::groups::is_grouping(groups.deep_view(), unit_pairs(ids)),
        decreases security_groups@.len() - i,
    {
        sight_vpc(&mut groups, &security_groups[i].vpc_id, Ghost(ids));
        proof {
            crate::ingest::map::lemma_joined_map_step(security_groups@, sg_vpc(), i as int);
            ids = ids + sg_vpc()(security_groups@[i as int]);
        }
        i = i + 1;
    }
    assert(security_groups@.take(i as int) =~= security_groups@);
    let ghost first = ids;
    i = 0;
    assert(network_acls@.take(0) =~= Seq::empty());
    assert(first + Seq::<Seq<char>>::empty() =~= first);
    while i < network_acls.len()
        invariant
            0 <= i <= network_acls@.len(),
            ids == first + crate::ingest::map::joined_map(network_acls@.take(i as int), acl_vpc()),
            crate::graph::groups::is_grouping(groups.deep_view(), unit_pairs(ids)),
        decreases network_acls@.len() - i,
    {
        sight_vpc(&mut groups, &network_acls[i].vpc_id, Ghost(ids));
        proof {
            crate::ingest::map::lemma_joined_map_step(network_acls@, acl_vpc(), i as int);
            let more = acl_vpc()(network_acls@[i as int]);
            assert(ids + more =~= first + crate::ingest::map::joined_map(
                network_acls@.take(i + 1),
                acl_vpc(),
            ));
            ids = ids + more;
        }
        i = i + 1;
    }
    assert(network_acls@.take(i as int) =~= network_acls@);
    let ghost second = ids;
    i = 0;
    assert(route_tables@.take(0) =~= Seq::empty());
    assert(second + Seq::<Seq<char>>::empty() =~= second);
    while i < route_tables.len()
        invariant
            0 <= i <= route_tables@.len(),
            ids == second + crate::ingest::map::joined_map(
                route_tables@.take(i as int),
                route_table_vpc(),
            ),
            crate::graph::groups::is_grouping(groups.deep_view(), unit_pairs(ids)),
        decreases route_tables@.len() - i,
    {
        sight_vpc(&mut groups, &route_tables[i].vpc_id, Ghost(ids));
        proof {
            crate::ingest::map::lemma_joined_map_step(route_tables@, route_table_vpc(), i as int);
            let more = route_table_vpc()(route_tables@[i as int]);
            assert(ids + more =~= second + crate::ingest::map::joined_map(
                route_tables@.take(i + 1),
                route_table_vpc(),
            ));
            ids = ids + more;
        }
        i = i + 1;
    }
    assert(route_tables@.take(i as int) =~= route_tables@);
    let ghost third = ids;
    i = 0;
    assert(network_interfaces@.take(0) =~= Seq::empty());
    assert(third + Seq::<Seq<char>>::empty() =~= third);
    while i < network_interfaces.len()
        invariant
            0 <= i <= network_interfaces@.len(),
            ids == third + crate::ingest::map::joined_map(
                network_interfaces@.take(i as int),
                eni_vpc(),
            ),
            crate::graph::groups::is_grouping(groups.deep_view(), unit_pairs(ids)),
        decreases network_interfaces@.len() - i,
    {
        sight_vpc(&mut groups, &network_interfaces[i].vpc_id, Ghost(ids));
        proof {
            crate::ingest::map::lemma_joined_map_step(network_interfaces@, eni_vpc(), i as int);
            let more = eni_vpc()(network_interfaces@[i as int]);
            assert(ids + more =~= third + crate::ingest::map::joined_map(
                network_interfaces@.take(i + 1),
                eni_vpc(),
            ));
            ids = ids + more;
        }
        i = i + 1;
    }
    assert(network_interfaces@.take(i as int) =~= network_interfaces@);
    let ghost fourth = ids;
    i = 0;
    assert(peerings@.take(0) =~= Seq::empty());
    assert(fourth + Seq::<Seq<char>>::empty() =~= fourth);
    while i < peerings.len()
        invariant
            0 <= i <= peerings@.len(),
            ids == fourth + crate::ingest::map::joined_map(
                peerings@.take(i as int),
                peering_vpcs(account_id@),
            ),
            crate::graph::groups::is_grouping(groups.deep_view(), unit_pairs(ids)),
        decreases peerings@.len() - i,
    {
        let ghost requester = side_vpc(peerings@[i as int].requester_vpc_info, account_id@);
        let ghost accepter = side_vpc(peerings@[i as int].accepter_vpc_info, account_id@);
        sight_side(&mut groups, &peerings[i].requester_vpc_info, account_id, Ghost(ids));
        sight_side(
            &mut groups,
            &peerings[i].accepter_vpc_info,
            account_id,
            Ghost(ids + requester),
        );
        proof {
            crate::ingest::map::lemma_joined_map_step(
                peerings@,
                peering_vpcs(account_id@),
                i as int,
            );
            assert(ids + requester + accepter =~= fourth + crate::ingest::map::joined_map(
                peerings@.take(i + 1),
                peering_vpcs(account_id@),
            ));
            ids = ids + requester + accepter;
        }
        i = i + 1;
    }
    assert(peerings@.take(i as int) =~= peerings@);
    proof {
        crate::graph::groups::lemma_grouped(groups.deep_view(), unit_pairs(ids));
    }
    vpc_records(account_id, groups)
}

/// One `VPC` node per group.
fn vpc_records(account_id: &str, groups: Vec<(String, Vec<()>)>) -> (records: Vec<VpcRecord>)
    ensures
        records.deep_view() == groups.deep_view().map_values(
            |group: (Seq<char>, Seq<()>)|
                crate::ports::VpcRecordView {
                    id: group.0,
                    account_id: account_id@,
                    cidr_block: Seq::empty(),
                },
        ),
{
    let mut records: Vec<VpcRecord> = Vec::new();
    let mut i: usize = 0;
    while i < groups.len()
        invariant
            0 <= i <= groups@.len(),
            records@.len() == i,
            forall|j: int|
                0 <= j < i ==> (#[trigger] records@[j]).deep_view()
                    == (crate::ports::VpcRecordView {
                    id: groups@[j].0@,
                    account_id: account_id@,
                    cidr_block: Seq::empty(),
                }),
        decreases groups@.len() - i,
    {
        records.push(
            VpcRecord {
                id: groups[i].0.clone(),
                account_id: account_id.to_owned(),
                cidr_block: String::new(),
            },
        );
        i = i + 1;
    }
    assert(records.deep_view() =~= groups.deep_view().map_values(
        |group: (Seq<char>, Seq<()>)|
            crate::ports::VpcRecordView {
                id: group.0,
                account_id: account_id@,
                cidr_block: Seq::empty(),
            },
    ));
    records
}

/// The subnet that a network interface is in, with the VPC it is in.
pub open spec fn eni_subnet() -> spec_fn(NetworkInterface) -> Seq<(Seq<char>, Seq<char>)> {
    |eni: NetworkInterface|
        match (eni.subnet_id, eni.vpc_id) {
            (Some(subnet_id), Some(vpc_id)) => seq![(subnet_id@, vpc_id@)],
            _ => Seq::empty(),
        }
}

/// The subnet of a network ACL's association, with the ACL's VPC.
pub open spec fn acl_association_subnet(vpc_id: Seq<char>) -> spec_fn(
    NetworkAclAssociation,
) -> Seq<(Seq<char>, Seq<char>)> {
    |association: NetworkAclAssociation|
        match association.subnet_id {
            Some(subnet_id) => seq![(subnet_id@, vpc_id)],
            None => Seq::empty(),
        }
}

/// The subnets that a network ACL protects, each with the ACL's VPC.
pub open spec fn acl_subnets() -> spec_fn(NetworkAcl) -> Seq<(Seq<char>, Seq<char>)> {
    |acl: NetworkAcl|
        match acl.vpc_id {
            Some(vpc_id) => crate::ingest::map::joined_map(
                acl.associations@,
                acl_association_subnet(vpc_id@),
            ),
            None => Seq::empty(),
        }
}

/// The subnet of a route table's association, with the table's VPC.
pub open spec fn table_association_subnet(vpc_id: Seq<char>) -> spec_fn(
    RouteTableAssociation,
) -> Seq<(Seq<char>, Seq<char>)> {
    |association: RouteTableAssociation|
        match association.subnet_id {
            Some(subnet_id) => seq![(subnet_id@, vpc_id)],
            None => Seq::empty(),
        }
}

/// The subnets that use a route table, each with the table's VPC.
pub open spec fn table_subnets() -> spec_fn(RouteTable) -> Seq<(Seq<char>, Seq<char>)> {
    |route_table: RouteTable|
        match route_table.vpc_id {
            Some(vpc_id) => crate::ingest::map::joined_map(
                route_table.associations@,
                table_association_subnet(vpc_id@),
            ),
            None => Seq::empty(),
        }
}

/// Every mention of a subnet, with the VPC of the resource that mentions it.
pub open spec fn subnet_sightings(
    network_interfaces: Seq<NetworkInterface>,
    network_acls: Seq<NetworkAcl>,
    route_tables: Seq<RouteTable>,
) -> Seq<(Seq<char>, Seq<char>)> {
    crate::ingest::map::joined_map(network_interfaces, eni_subnet())
        + crate::ingest::map::joined_map(network_acls, acl_subnets())
        + crate::ingest::map::joined_map(route_tables, table_subnets())
}

/// One `Subnet` node per subnet that is mentioned, in the order of their ids,
/// in the VPC of its first mention.
pub open spec fn subnet_stubs(
    account_id: Seq<char>,
    sightings: Seq<(Seq<char>, Seq<char>)>,
) -> Seq<crate::ports::SubnetRecordView> {
    crate::graph::groups::grouped(sightings).map_values(
        |group: (Seq<char>, Seq<Seq<char>>)|
            crate::ports::SubnetRecordView {
                id: group.0,
                account_id,
                vpc_id: group.1[0],
                cidr_block: Seq::empty(),
                availability_zone: Seq::empty(),
            },
    )
}

fn sight_acl_subnets(
    groups: &mut Vec<(String, Vec<String>)>,
    acl: &NetworkAcl,
    Ghost(pairs): Ghost<Seq<(Seq<char>, Seq<char>)>>,
)
    requires
        crate::graph::groups::is_grouping(old(groups).deep_view(), pairs),
    ensures
        crate::graph::groups::is_grouping(final(groups).deep_view(), pairs + acl_subnets()(*acl)),
{
    match &acl.vpc_id {
        Some(vpc_id) => {
            let ghost f = acl_association_subnet(vpc_id@);
            let ghost associations = acl.associations@;
            let mut i: usize = 0;
            assert(associations.take(0) =~= Seq::empty());
            assert(pairs + Seq::<(Seq<char>, Seq<char>)>::empty() =~= pairs);
            while i < acl.associations.len()
                invariant
                    0 <= i <= associations.len(),
                    associations == acl.associations@,
                    f == acl_association_subnet(vpc_id@),
                    crate::graph::groups::is_grouping(
                        groups.deep_view(),
                        pairs + crate::ingest::map::joined_map(associations.take(i as int), f),
                    ),
                decreases associations.len() - i,
            {
                let ghost before = pairs + crate::ingest::map::joined_map(
                    associations.take(i as int),
                    f,
                );
                proof {
                    crate::ingest::map::lemma_joined_map_step(associations, f, i as int);
                    assert(pairs + crate::ingest::map::joined_map(associations.take(i + 1), f)
                        =~= before + f(associations[i as int]));
                }
                match &acl.associations[i].subnet_id {
                    Some(subnet_id) => {
                        assert(before + seq![(subnet_id@, vpc_id@)] =~= before.push(
                            (subnet_id@, vpc_id@),
                        ));
                        add_item(groups, subnet_id, vpc_id.clone(), Ghost(before));
                    },
                    None => {
                        assert(before + Seq::<(Seq<char>, Seq<char>)>::empty() =~= before);
                    },
                }
                i = i + 1;
            }
            assert(associations.take(i as int) =~= associations);
        },
        None => {
            assert(pairs + Seq::<(Seq<char>, Seq<char>)>::empty() =~= pairs);
        },
    }
}

fn sight_table_subnets(
    groups: &mut Vec<(String, Vec<String>)>,
    route_table: &RouteTable,
    Ghost(pairs): Ghost<Seq<(Seq<char>, Seq<char>)>>,
)
    requires
        crate::graph::groups::is_grouping(old(groups).deep_view(), pairs),
    ensures
        crate::graph::groups::is_grouping(
            final(groups).deep_view(),
            pairs + table_subnets()(*route_table),
        ),
{
    match &route_table.vpc_id {
        Some(vpc_id) => {
            let ghost f = table_association_subnet(vpc_id@);
            let ghost associations = route_table.associations@;
            let mut i: usize = 0;
            assert(associations.take(0) =~= Seq::empty());
            assert(pairs + Seq::<(Seq<char>, Seq<char>)>::empty() =~= pairs);
            while i < route_table.associations.len()
                invariant
                    0 <= i <= associations.len(),
                    associations == route_table.associations@,
                    f == table_association_subnet(vpc_id@),
                    crate::graph::groups::is_grouping(
                        groups.deep_view(),
                        pairs + crate::ingest::map::joined_map(associations.take(i as int), f),
                    ),
                decreases associations.len() - i,
            {
                let ghost before = pairs + crate::ingest::map::joined_map(
                    associations.take(i as int),
                    f,
                );
                proof {
                    crate::ingest::map::lemma_joined_map_step(associations, f, i as int);
                    assert(pairs + crate::ingest::map::joined_map(associations.take(i + 1), f)
                        =~= before + f(associations[i as int]));
                }
                match &route_table.associations[i].subnet_id {
                    Some(subnet_id) => {
                        assert(before + seq![(subnet_id@, vpc_id@)] =~= before.push(
                            (subnet_id@, vpc_id@),
                        ));
                        add_item(groups, subnet_id, vpc_id.clone(), Ghost(before));
                    },
                    None => {
                        assert(before + Seq::<(Seq<char>, Seq<char>)>::empty() =~= before);
                    },
                }
                i = i + 1;
            }
            assert(associations.take(i as int) =~= associations);
        },
        None => {
            assert(pairs + Seq::<(Seq<char>, Seq<char>)>::empty() =~= pairs);
        },
    }
}

/// Derives one `Subnet` node per subnet that any resource mentions.
pub fn collect_subnet_stubs(
    account_id: &str,
    network_interfaces: &[NetworkInterface],
    network_acls: &[NetworkAcl],
    route_tables: &[RouteTable],
) -> (stubs: Vec<SubnetRecord>)
    ensures
        stubs.deep_view() == subnet_stubs(
            account_id@,
            subnet_sightings(network_interfaces@, network_acls@, route_tables@),
        ),
{
    let mut groups: Vec<(String, Vec<String>)> = Vec::new();
    let ghost mut pairs: Seq<(Seq<char>, Seq<char>)> = Seq::empty();
    let mut i: usize = 0;
    assert(network_interfaces@.take(0) =~= Seq::empty());
    while i < network_interfaces.len()
        invariant
            0 <= i <= network_interfaces@.len(),
            pairs == crate::ingest::map::joined_map(
                network_interfaces@.take(i as int),
                eni_subnet(),
            ),
            crate::graph::groups::is_grouping(groups.deep_view(), pairs),
        decreases network_interfaces@.len() - i,
    {
        let ghost more = eni_subnet()(network_interfaces@[i as int]);
        match (&network_interfaces[i].subnet_id, &network_interfaces[i].vpc_id) {
            (Some(subnet_id), Some(vpc_id)) => {
                assert(pairs + more =~= pairs.push((subnet_id@, vpc_id@)));
                add_item(&mut groups, subnet_id, vpc_id.clone(), Ghost(pairs));
            },
            _ => {
                assert(pairs + more =~= pairs);
            },
        }
        proof {
            crate::ingest::map::lemma_joined_map_step(network_interfaces@, eni_subnet(), i as int);
            pairs = pairs + more;
        }
        i = i + 1;
    }
    assert(network_interfaces@.take(i as int) =~= network_interfaces@);
    let ghost first = pairs;
    i = 0;
    assert(network_acls@.take(0) =~= Seq::empty());
    assert(first + Seq::<(Seq<char>, Seq<char>)>::empty() =~= first);
    while i < network_acls.len()
        invariant
            0 <= i <= network_acls@.len(),
            pairs == first + crate::ingest::map::joined_map(
                network_acls@.take(i as int),
                acl_subnets(),
            ),
            crate::graph::groups::is_grouping(groups.deep_view(), pairs),
        decreases network_acls@.len() - i,
    {
        sight_acl_subnets(&mut groups, &network_acls[i], Ghost(pairs));
        proof {
            crate::ingest::map::lemma_joined_map_step(network_acls@, acl_subnets(), i as int);
            let more = acl_subnets()(network_acls@[i as int]);
            assert(pairs + more =~= first + crate::ingest::map::joined_map(
                network_acls@.take(i + 1),
                acl_subnets(),
            ));
            pairs = pairs + more;
        }
        i = i + 1;
    }
    assert(network_acls@.take(i as int) =~= network_acls@);
    let ghost second = pairs;
    i = 0;
    assert(route_tables@.take(0) =~= Seq::empty());
    assert(second + Seq::<(Seq<char>, Seq<char>)>::empty() =~= second);
    while i < route_tables.len()
        invariant
            0 <= i <= route_tables@.len(),
            pairs == second + crate::ingest::map::joined_map(
                route_tables@.take(i as int),
                table_subnets(),
            ),
            crate::graph::groups::is_grouping(groups.deep_view(), pairs),
        decreases route_tables@.len() - i,
    {
        sight_table_subnets(&mut groups, &route_tables[i], Ghost(pairs));
        proof {
            crate::ingest::map::lemma_joined_map_step(route_tables@, table_subnets(), i as int);
            let more = table_subnets()(route_tables@[i as int]);
            assert(pairs + more =~= second + crate::ingest::map::joined_map(
                route_tables@.take(i + 1),
                table_subnets(),
            ));
            pairs = pairs + more;
        }
        i = i + 1;
    }
    assert(route_tables@.take(i as int) =~= route_tables@);
    proof {
        crate::graph::groups::lemma_grouped(groups.deep_view(), pairs);
    }
    subnet_records(account_id, groups, Ghost(pairs))
}

/// One `Subnet` node per group, in the VPC of its first mention.
fn subnet_records(
    account_id: &str,
    groups: Vec<(String, Vec<String>)>,
    Ghost(pairs): Ghost<Seq<(Seq<char>, Seq<char>)>>,
) -> (records: Vec<SubnetRecord>)
    requires
        crate::graph::groups::is_grouping(groups.deep_view(), pairs),
        crate::graph::groups::grouped(pairs) == groups.deep_view(),
    ensures
        records.deep_view() == subnet_stubs(account_id@, pairs),
{
    let ghost model = groups.deep_view();
    let mut records: Vec<SubnetRecord> = Vec::new();
    let mut i: usize = 0;
    while i < groups.len()
        invariant
            0 <= i <= groups@.len(),
            model == groups.deep_view(),
            crate::graph::groups::is_grouping(model, pairs),
            records@.len() == i,
            forall|j: int|
                0 <= j < i ==> (#[trigger] records@[j]).deep_view()
                    == (crate::ports::SubnetRecordView {
                    id: model[j].0,
                    account_id: account_id@,
                    vpc_id: model[j].1[0],
                    cidr_block: Seq::empty(),
                    availability_zone: Seq::empty(),
                }),
        decreases groups@.len() - i,
    {
        assert(model[i as int].1.len() > 0);
        assert(model[i as int].0 == groups@[i as int].0@);
        assert(model[i as int].1[0] == groups@[i as int].1@[0]@);
        records.push(
            SubnetRecord {
                id: groups[i].0.clone(),
                account_id: account_id.to_owned(),
                vpc_id: groups[i].1[0].clone(),
                cidr_block: String::new(),
                availability_zone: String::new(),
            },
        );
        i = i + 1;
    }
    assert(records.deep_view() =~= subnet_stubs(account_id@, pairs));
    records
}

/// Each VPC that is mentioned gets exactly one node, and no other does; the
/// nodes stand in the order of their ids.
pub proof fn law_one_vpc_node_per_vpc(
    account_id: Seq<char>,
    sightings: Seq<Seq<char>>,
    vpc_id: Seq<char>,
)
    ensures
        forall|i: int, j: int|
            0 <= i < j < vpc_stubs(account_id, sightings).len() ==> crate::text::text_less(
                (#[trigger] vpc_stubs(account_id, sightings)[i]).id,
                (#[trigger] vpc_stubs(account_id, sightings)[j]).id,
            ),
        sightings.contains(vpc_id) <==> exists|i: int|
            0 <= i < vpc_stubs(account_id, sightings).len() && (#[trigger] vpc_stubs(
                account_id,
                sightings,
            )[i]).id == vpc_id,
{
    let pairs = unit_pairs(sightings);
    let groups = crate::graph::groups::grouped(pairs);
    let stubs = vpc_stubs(account_id, sightings);
    crate::graph::groups::law_grouped_is_a_grouping(pairs);
    crate::graph::groups::law_owner_has_group_iff_it_has_items(pairs, vpc_id);
    assert forall|i: int| 0 <= i < stubs.len() implies (#[trigger] stubs[i]).id == groups[i].0 by {}
    assert forall|i: int, j: int| 0 <= i < j < stubs.len() implies crate::text::text_less(
        (#[trigger] stubs[i]).id,
        (#[trigger] stubs[j]).id,
    ) by {
        assert(crate::text::text_less(groups[i].0, groups[j].0));
    }
    if sightings.contains(vpc_id) {
        let p = choose|p: int| 0 <= p < sightings.len() && sightings[p] == vpc_id;
        assert(pairs[p].0 == vpc_id);
        let i = choose|i: int| 0 <= i < groups.len() && (#[trigger] groups[i]).0 == vpc_id;
        assert(stubs[i].id == vpc_id);
    }
    if exists|i: int| 0 <= i < stubs.len() && (#[trigger] stubs[i]).id == vpc_id {
        let i = choose|i: int| 0 <= i < stubs.len() && (#[trigger] stubs[i]).id == vpc_id;
        assert(groups[i].0 == vpc_id);
        let p = choose|p: int| 0 <= p < pairs.len() && (#[trigger] pairs[p]).0 == vpc_id;
        assert(sightings[p] == vpc_id);
    }
}

/// Each subnet that is mentioned gets exactly one node, and no other does; the
/// nodes stand in the order of their ids.
pub proof fn law_one_subnet_node_per_subnet(
    account_id: Seq<char>,
    sightings: Seq<(Seq<char>, Seq<char>)>,
    subnet_id: Seq<char>,
)
    ensures
        forall|i: int, j: int|
            0 <= i < j < subnet_stubs(account_id, sightings).len() ==> crate::text::text_less(
                (#[trigger] subnet_stubs(account_id, sightings)[i]).id,
                (#[trigger] subnet_stubs(account_id, sightings)[j]).id,
            ),
        (exists|p: int| 0 <= p < sightings.len() && (#[trigger] sightings[p]).0 == subnet_id)
            <==> exists|i: int|
            0 <= i < subnet_stubs(account_id, sightings).len() && (#[trigger] subnet_stubs(
                account_id,
                sightings,
            )[i]).id == subnet_id,
{
    let groups = crate::graph::groups::grouped(sightings);
    let stubs = subnet_stubs(account_id, sightings);
    crate::graph::groups::law_grouped_is_a_grouping(sightings);
    crate::graph::groups::law_owner_has_group_iff_it_has_items(sightings, subnet_id);
    assert forall|i: int| 0 <= i < stubs.len() implies (#[trigger] stubs[i]).id == groups[i].0 by {}
    assert forall|i: int, j: int| 0 <= i < j < stubs.len() implies crate::text::text_less(
        (#[trigger] stubs[i]).id,
        (#[trigger] stubs[j]).id,
    ) by {
        assert(crate::text::text_less(groups[i].0, groups[j].0));
    }
    if exists|i: int| 0 <= i < groups.len() && (#[trigger] groups[i]).0 == subnet_id {
        let i = choose|i: int| 0 <= i < groups.len() && (#[trigger] groups[i]).0 == subnet_id;
        assert(stubs[i].id == subnet_id);
    }
    if exists|i: int| 0 <= i < stubs.len() && (#[trigger] stubs[i]).id == subnet_id {
        let i = choose|i: int| 0 <= i < stubs.len() && (#[trigger] stubs[i]).id == subnet_id;
        assert(groups[i].0 == subnet_id);
    }
}

/// A side of a peering connection that another account owns is no mention of
/// a VPC: it gets no node.
pub proof fn law_foreign_vpc_is_not_sighted(info: PeeringVpcInfo, account_id: Seq<char>)
    requires
        !owned_by(info, account_id),
    ensures
        side_vpc(Some(info), account_id).len() == 0,
{
}

} // verus!
