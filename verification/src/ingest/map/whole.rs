//! Whether a resource can be mapped as a whole: its node, and every edge that
//! is derived from what it holds.
use vstd::prelude::*;

use crate::error::MappingError;
use crate::ingest::aws::{NetworkAcl, NetworkInterface, SecurityGroup};
use crate::ingest::map::topology::{
    acl_has_rule_edges, eni_has_sg_edges, group_allows_edges, map_eni_node, map_network_acl_node,
    map_security_group_node,
};
use crate::ports::{EniRecord, NetworkAclRecord, SecurityGroupRecord};

verus! {

/// The node of a resource, where its node and its edges can both be mapped.
/// An error of the node comes before one of the edges.
pub open spec fn with_edges<N, E>(
    node: Result<N, crate::error::MappingErrorView>,
    edges: Result<E, crate::error::MappingErrorView>,
) -> Result<N, crate::error::MappingErrorView> {
    match (node, edges) {
        (Err(error), _) => Err(error),
        (Ok(_), Err(error)) => Err(error),
        (Ok(node), Ok(_)) => Ok(node),
    }
}

/// The node of a network interface, where all its memberships can be mapped
/// too, or its first error.
pub open spec fn whole_eni(account_id: Seq<char>) -> spec_fn(NetworkInterface) -> Result<
    crate::ports::EniRecordView,
    crate::error::MappingErrorView,
> {
    |eni: NetworkInterface|
        with_edges(
            crate::ingest::map::topology::eni_node(account_id)(eni),
            crate::ingest::map::topology::eni_has_sg()(eni),
        )
}

/// The node of a security group, where all its rules can be mapped too, or its
/// first error.
pub open spec fn whole_group(account_id: Seq<char>) -> spec_fn(SecurityGroup) -> Result<
    crate::ports::SecurityGroupRecordView,
    crate::error::MappingErrorView,
> {
    |sg: SecurityGroup|
        with_edges(
            crate::ingest::map::topology::security_group_node(account_id)(sg),
            crate::ingest::map::topology::group_allows(account_id)(sg),
        )
}

/// The node of a network ACL, where all its entries can be mapped too, or its
/// first error.
pub open spec fn whole_acl(account_id: Seq<char>) -> spec_fn(NetworkAcl) -> Result<
    crate::ports::NetworkAclRecordView,
    crate::error::MappingErrorView,
> {
    |acl: NetworkAcl|
        with_edges(
            crate::ingest::map::topology::network_acl_node(account_id)(acl),
            crate::ingest::map::topology::acl_has_rules()(acl),
        )
}

/// Maps a network interface and tries its memberships.
pub(crate) fn map_whole_eni(eni: &NetworkInterface, account_id: &str) -> (record: Result<
    EniRecord,
    MappingError,
>)
    ensures
        crate::ingest::map::agrees(record, whole_eni(account_id@)(*eni)),
{
    let record = match map_eni_node(eni, account_id) {
        Ok(record) => record,
        Err(error) => return Err(error),
    };
    match eni_has_sg_edges(eni, &record.id) {
        Ok(_) => Ok(record),
        Err(error) => Err(error),
    }
}

/// Maps a security group and tries its rules.
pub(crate) fn map_whole_group(sg: &SecurityGroup, account_id: &str) -> (record: Result<
    SecurityGroupRecord,
    MappingError,
>)
    ensures
        crate::ingest::map::agrees(record, whole_group(account_id@)(*sg)),
{
    let record = match map_security_group_node(sg, account_id) {
        Ok(record) => record,
        Err(error) => return Err(error),
    };
    match group_allows_edges(sg, &record.id, account_id) {
        Ok(_) => Ok(record),
        Err(error) => Err(error),
    }
}

/// Maps a network ACL and tries its entries.
pub(crate) fn map_whole_acl(acl: &NetworkAcl, account_id: &str) -> (record: Result<
    NetworkAclRecord,
    MappingError,
>)
    ensures
        crate::ingest::map::agrees(record, whole_acl(account_id@)(*acl)),
{
    let record = match map_network_acl_node(acl, account_id) {
        Ok(record) => record,
        Err(error) => return Err(error),
    };
    match acl_has_rule_edges(acl, &record.id) {
        Ok(_) => Ok(record),
        Err(error) => Err(error),
    }
}

/// Where every item can be mapped as a whole, every node and every item's
/// edges can be mapped.
pub proof fn lemma_whole_maps_both<T, N, E>(
    items: Seq<T>,
    whole: spec_fn(T) -> Result<N, crate::error::MappingErrorView>,
    node: spec_fn(T) -> Result<N, crate::error::MappingErrorView>,
    edges: spec_fn(T) -> Result<E, crate::error::MappingErrorView>,
)
    requires
        crate::ingest::map::map_all(items, whole) is Ok,
        forall|item: T| #[trigger] whole(item) == with_edges(node(item), edges(item)),
    ensures
        crate::ingest::map::map_all(items, node) is Ok,
        crate::ingest::map::map_all(items, edges) is Ok,
{
    crate::ingest::map::lemma_map_all_ok(items, whole);
    crate::ingest::map::lemma_map_all_ok(items, node);
    crate::ingest::map::lemma_map_all_ok(items, edges);
    assert forall|i: int| 0 <= i < items.len() implies node(#[trigger] items[i]) is Ok by {
        assert(whole(items[i]) is Ok);
    }
    assert forall|i: int| 0 <= i < items.len() implies edges(#[trigger] items[i]) is Ok by {
        assert(whole(items[i]) is Ok);
    }
}

/// A graph can be built of resources that can all be mapped as a whole.
pub proof fn law_whole_resources_build(
    account_id: Seq<char>,
    security_groups: Seq<SecurityGroup>,
    network_acls: Seq<NetworkAcl>,
    route_tables: Seq<crate::ingest::aws::RouteTable>,
    network_interfaces: Seq<NetworkInterface>,
    peerings: Seq<crate::ingest::aws::VpcPeeringConnection>,
)
    requires
        crate::ingest::map::map_all(security_groups, whole_group(account_id)) is Ok,
        crate::ingest::map::map_all(network_acls, whole_acl(account_id)) is Ok,
        crate::ingest::map::map_all(
            route_tables,
            crate::ingest::map::topology::route_table_node(account_id),
        ) is Ok,
        crate::ingest::map::map_all(network_interfaces, whole_eni(account_id)) is Ok,
    ensures
        crate::ingest::map::topology::graph_batch(
            account_id,
            security_groups,
            network_acls,
            route_tables,
            network_interfaces,
            peerings,
        ) is Ok,
{
    lemma_whole_maps_both(
        security_groups,
        whole_group(account_id),
        crate::ingest::map::topology::security_group_node(account_id),
        crate::ingest::map::topology::group_allows(account_id),
    );
    lemma_whole_maps_both(
        network_acls,
        whole_acl(account_id),
        crate::ingest::map::topology::network_acl_node(account_id),
        crate::ingest::map::topology::acl_has_rules(),
    );
    lemma_whole_maps_both(
        network_interfaces,
        whole_eni(account_id),
        crate::ingest::map::topology::eni_node(account_id),
        crate::ingest::map::topology::eni_has_sg(),
    );
}

} // verus!
