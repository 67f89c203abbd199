//! The graph of an account: which nodes and edges its resources give.
use vstd::prelude::*;

use crate::domain::rule::Direction;
use crate::ingest::aws::{
    NetworkAcl, NetworkInterface, PeeringVpcInfo, Route, RouteTable, SecurityGroup,
    VpcPeeringConnection,
};

verus! {

/// A route through the local gateway leads to the route table's own VPC.
pub proof fn law_local_route_leads_home(
    account_id: Seq<char>,
    vpc_id: Seq<char>,
    route: Route,
    peerings: Seq<VpcPeeringConnection>,
)
    requires
        route.gateway_id.deep_view() == Some("local"@),
    ensures
        crate::ingest::map::topology::route_target(account_id, vpc_id, route, peerings) == Some(
            vpc_id,
        ),
{
}

/// A route that is neither local nor through a peering connection, or is
/// through one that is not listed, leads nowhere known.
pub proof fn law_other_routes_lead_nowhere_known(
    account_id: Seq<char>,
    vpc_id: Seq<char>,
    route: Route,
    peerings: Seq<VpcPeeringConnection>,
)
    requires
        route.gateway_id.deep_view() != Some("local"@),
        route.vpc_peering_connection_id is None || forall|k: int|
            0 <= k < peerings.len() ==> (
            #[trigger] peerings[k]).vpc_peering_connection_id.deep_view()
                != route.vpc_peering_connection_id.deep_view(),
    ensures
        crate::ingest::map::topology::route_target(account_id, vpc_id, route, peerings) is None,
{
    if route.vpc_peering_connection_id is Some {
        lemma_unlisted_peering(peerings, route.vpc_peering_connection_id->0@);
    }
}

proof fn lemma_unlisted_peering(peerings: Seq<VpcPeeringConnection>, id: Seq<char>)
    requires
        forall|k: int|
            0 <= k < peerings.len() ==> (
            #[trigger] peerings[k]).vpc_peering_connection_id.deep_view() != Some(id),
    ensures
        crate::ingest::map::topology::find_peering(peerings, id) is None,
    decreases peerings.len(),
{
    if peerings.len() > 0 {
        let front = peerings.drop_last();
        assert forall|k: int| 0 <= k < front.len() implies (
        #[trigger] front[k]).vpc_peering_connection_id.deep_view() != Some(id) by {
            assert(front[k] == peerings[k]);
        }
        lemma_unlisted_peering(front, id);
        assert(peerings[peerings.len() - 1] == peerings.last());
    }
}

proof fn lemma_listed_peering(peerings: Seq<VpcPeeringConnection>, id: Seq<char>, k: int)
    requires
        0 <= k < peerings.len(),
        peerings[k].vpc_peering_connection_id.deep_view() == Some(id),
        forall|j: int|
            0 <= j < k ==> (#[trigger] peerings[j]).vpc_peering_connection_id.deep_view() != Some(
                id,
            ),
    ensures
        crate::ingest::map::topology::find_peering(peerings, id) == Some(peerings[k]),
    decreases peerings.len(),
{
    let front = peerings.drop_last();
    if k < front.len() {
        assert(front[k] == peerings[k]);
        assert forall|j: int| 0 <= j < k implies (
        #[trigger] front[j]).vpc_peering_connection_id.deep_view() != Some(id) by {
            assert(front[j] == peerings[j]);
        }
        lemma_listed_peering(front, id, k);
    } else {
        assert forall|j: int| 0 <= j < front.len() implies (
        #[trigger] front[j]).vpc_peering_connection_id.deep_view() != Some(id) by {
            assert(front[j] == peerings[j]);
        }
        lemma_unlisted_peering(front, id);
    }
}

/// A route through a listed peering connection, of which the route table's VPC
/// is one side, leads to the other side where the account owns that side, and
/// nowhere known where it does not.
pub proof fn law_peering_route_leads_to_the_other_side(
    account_id: Seq<char>,
    vpc_id: Seq<char>,
    route: Route,
    peerings: Seq<VpcPeeringConnection>,
    k: int,
    near: Option<PeeringVpcInfo>,
    far: PeeringVpcInfo,
)
    requires
        route.gateway_id.deep_view() != Some("local"@),
        route.vpc_peering_connection_id is Some,
        0 <= k < peerings.len(),
        peerings[k].vpc_peering_connection_id.deep_view()
            == route.vpc_peering_connection_id.deep_view(),
        forall|j: int|
            0 <= j < k ==> (#[trigger] peerings[j]).vpc_peering_connection_id.deep_view()
                != route.vpc_peering_connection_id.deep_view(),
        ({
            ||| peerings[k].requester_vpc_info == near && peerings[k].accepter_vpc_info == Some(far)
            ||| peerings[k].requester_vpc_info == Some(far) && peerings[k].accepter_vpc_info == near
        }),
        near matches Some(info) ==> info.vpc_id.deep_view() == Some(vpc_id),
        far.vpc_id.deep_view() != Some(vpc_id),
    ensures
        far.owner_id.deep_view() == Some(account_id)
            ==> crate::ingest::map::topology::route_target(account_id, vpc_id, route, peerings)
            == far.vpc_id.deep_view(),
        far.owner_id.deep_view() != Some(account_id)
            ==> crate::ingest::map::topology::route_target(
            account_id,
            vpc_id,
            route,
            peerings,
        ) is None,
{
    lemma_listed_peering(peerings, route.vpc_peering_connection_id->0@, k);
}

/// Of a listed peering connection whose requester is not the route table's VPC,
/// the requester is the other side, whatever the accepter is. Where neither
/// side is another VPC, the route leads nowhere known.
pub proof fn law_requester_comes_first(
    account_id: Seq<char>,
    vpc_id: Seq<char>,
    route: Route,
    peerings: Seq<VpcPeeringConnection>,
    k: int,
)
    requires
        route.gateway_id.deep_view() != Some("local"@),
        route.vpc_peering_connection_id is Some,
        0 <= k < peerings.len(),
        peerings[k].vpc_peering_connection_id.deep_view()
            == route.vpc_peering_connection_id.deep_view(),
        forall|j: int|
            0 <= j < k ==> (#[trigger] peerings[j]).vpc_peering_connection_id.deep_view()
                != route.vpc_peering_connection_id.deep_view(),
    ensures
        ({
            let target = crate::ingest::map::topology::route_target(
                account_id,
                vpc_id,
                route,
                peerings,
            );
            let requester = peerings[k].requester_vpc_info;
            let accepter = peerings[k].accepter_vpc_info;
            let away = |side: Option<PeeringVpcInfo>|
                side is Some && side->0.vpc_id.deep_view() != Some(vpc_id);
            &&& away(requester) && requester->0.owner_id.deep_view() == Some(account_id) ==> target
                == requester->0.vpc_id.deep_view()
            &&& away(requester) && requester->0.owner_id.deep_view() != Some(account_id)
                ==> target is None
            &&& !away(requester) && !away(accepter) ==> target is None
        }),
{
    lemma_listed_peering(peerings, route.vpc_peering_connection_id->0@, k);
}

/// A route is for its IPv4 block, and only without one for its IPv6 block.
pub proof fn law_route_destination(route: Route)
    ensures
        route.destination_cidr_block is Some ==> crate::ingest::map::topology::route_destination(
            route,
        ) == route.destination_cidr_block.deep_view(),
        route.destination_cidr_block is None ==> crate::ingest::map::topology::route_destination(
            route,
        ) == route.destination_ipv6_cidr_block.deep_view(),
{
}

/// An element stands in the whole exactly where some part holds it.
proof fn lemma_joined_holds<A>(parts: Seq<Seq<A>>, element: A)
    ensures
        crate::ingest::map::joined(parts).contains(element) <==> exists|k: int|
            0 <= k < parts.len() && (#[trigger] parts[k]).contains(element),
    decreases parts.len(),
{
    if crate::ingest::map::joined(parts).contains(element) {
        crate::ingest::map::lemma_joined_contains(parts, element);
    }
    if exists|k: int| 0 <= k < parts.len() && (#[trigger] parts[k]).contains(element) {
        let k = choose|k: int| 0 <= k < parts.len() && (#[trigger] parts[k]).contains(element);
        let front = parts.drop_last();
        let before = crate::ingest::map::joined(front);
        if k < front.len() {
            assert(front[k].contains(element));
            lemma_joined_holds(front, element);
            let i = choose|i: int| 0 <= i < before.len() && before[i] == element;
            assert(crate::ingest::map::joined(parts)[i] == element);
        } else {
            let i = choose|i: int| 0 <= i < parts[k].len() && parts[k][i] == element;
            assert(crate::ingest::map::joined(parts)[before.len() + i] == element);
        }
    }
}

/// Whether `edge` is one that the resources give. Each kind of edge has its own
/// source: memberships and subnets of interfaces, associations of network ACLs
/// and of route tables, routes, permissions of security groups, and entries of
/// network ACLs.
pub open spec fn is_given(
    account_id: Seq<char>,
    security_groups: Seq<SecurityGroup>,
    network_acls: Seq<NetworkAcl>,
    route_tables: Seq<RouteTable>,
    network_interfaces: Seq<NetworkInterface>,
    peerings: Seq<VpcPeeringConnection>,
    edge: crate::graph::model::EdgeView,
) -> bool {
    match edge {
        crate::graph::model::EdgeView::HasSg(edge) => exists|i: int, j: int|
            0 <= i < network_interfaces.len() && 0 <= j < network_interfaces[i].groups@.len()
                && network_interfaces[i].network_interface_id.deep_view() == Some(edge.eni_id) && (
            #[trigger] network_interfaces[i].groups@[j]).group_id.deep_view() == Some(
                edge.security_group_id,
            ),
        crate::graph::model::EdgeView::InSubnet(edge) => exists|i: int|
            0 <= i < network_interfaces.len() && (
            #[trigger] network_interfaces[i]).network_interface_id.deep_view() == Some(edge.eni_id)
                && network_interfaces[i].subnet_id.deep_view() == Some(edge.subnet_id),
        crate::graph::model::EdgeView::ProtectedBy(edge) => exists|i: int, j: int|
            0 <= i < network_acls.len() && 0 <= j < network_acls[i].associations@.len()
                && network_acls[i].network_acl_id.deep_view() == Some(edge.network_acl_id) && (
            #[trigger] network_acls[i].associations@[j]).subnet_id.deep_view() == Some(
                edge.subnet_id,
            ),
        crate::graph::model::EdgeView::UsesRouteTable(edge) => exists|i: int, j: int|
            0 <= i < route_tables.len() && 0 <= j < route_tables[i].associations@.len()
                && route_tables[i].route_table_id.deep_view() == Some(edge.route_table_id) && (
            #[trigger] route_tables[i].associations@[j]).subnet_id.deep_view() == Some(
                edge.subnet_id,
            ),
        crate::graph::model::EdgeView::RoutesTo(edge) => exists|i: int, j: int|
            0 <= i < route_tables.len() && 0 <= j < route_tables[i].routes@.len()
                && route_tables[i].route_table_id.deep_view() == Some(edge.route_table_id) && Some(
                edge.destination_cidr,
            ) == crate::ingest::map::topology::route_destination(
                #[trigger] route_tables[i].routes@[j],
            ) && edge.target_vpc_id == crate::ingest::map::topology::route_target(
                account_id,
                route_tables[i].vpc_id.deep_view()->0,
                route_tables[i].routes@[j],
                peerings,
            ) && edge.resolved == (edge.target_vpc_id is Some),
        crate::graph::model::EdgeView::AllowsIngress { security_group_id, rule } => exists|i: int|
            0 <= i < security_groups.len() && (
            #[trigger] security_groups[i]).group_id.deep_view() == Some(security_group_id)
                && rule.direction == Direction::Ingress
                && crate::ingest::map::sg::security_group_rules(
                security_groups[i],
                account_id,
            )->Ok_0.contains(rule),
        crate::graph::model::EdgeView::AllowsEgress { security_group_id, rule } => exists|i: int|
            0 <= i < security_groups.len() && (
            #[trigger] security_groups[i]).group_id.deep_view() == Some(security_group_id)
                && rule.direction == Direction::Egress
                && crate::ingest::map::sg::security_group_rules(
                security_groups[i],
                account_id,
            )->Ok_0.contains(rule),
        crate::graph::model::EdgeView::HasRule { network_acl_id, rule } => exists|i: int|
            0 <= i < network_acls.len() && (
            #[trigger] network_acls[i]).network_acl_id.deep_view() == Some(network_acl_id)
                && crate::ingest::map::nacl::network_acl_rules(network_acls[i])->Ok_0.contains(
                rule,
            ),
    }
}

proof fn lemma_has_sg_edges(
    account_id: Seq<char>,
    network_interfaces: Seq<NetworkInterface>,
    edge: crate::graph::model::EdgeView,
)
    requires
        crate::ingest::map::map_all(
            network_interfaces,
            crate::ingest::map::topology::eni_node(account_id),
        ) is Ok,
        crate::ingest::map::map_all(
            network_interfaces,
            crate::ingest::map::topology::eni_has_sg(),
        ) is Ok,
    ensures
        crate::ingest::map::joined(
            crate::ingest::map::map_all(
                network_interfaces,
                crate::ingest::map::topology::eni_has_sg(),
            )->Ok_0,
        ).contains(edge) <==> (edge matches crate::graph::model::EdgeView::HasSg(e) && exists|
            i: int,
            j: int,
        |
            0 <= i < network_interfaces.len() && 0 <= j < network_interfaces[i].groups@.len()
                && network_interfaces[i].network_interface_id.deep_view() == Some(e.eni_id) && (
            #[trigger] network_interfaces[i].groups@[j]).group_id.deep_view() == Some(
                e.security_group_id,
            )),
{
    let f = crate::ingest::map::topology::eni_has_sg();
    let node = crate::ingest::map::topology::eni_node(account_id);
    let parts = crate::ingest::map::map_all(network_interfaces, f)->Ok_0;
    crate::ingest::map::lemma_map_all_ok(network_interfaces, f);
    crate::ingest::map::lemma_map_all_ok(network_interfaces, node);
    lemma_joined_holds(parts, edge);
    assert forall|i: int| 0 <= i < network_interfaces.len() implies {
        let eni = #[trigger] network_interfaces[i];
        &&& eni.network_interface_id is Some
        &&& parts[i].len() == eni.groups@.len()
        &&& forall|j: int|
            0 <= j < eni.groups@.len() ==> (#[trigger] eni.groups@[j]).group_id is Some
                && parts[i][j] == crate::graph::model::EdgeView::HasSg(
                crate::ports::HasSgEdgeView {
                    eni_id: eni.network_interface_id.deep_view()->0,
                    security_group_id: eni.groups@[j].group_id.deep_view()->0,
                },
            )
    } by {
        let eni = network_interfaces[i];
        assert(node(eni) is Ok);
        let g = crate::ingest::map::topology::has_sg_edge(
            crate::ingest::map::topology::given(eni.network_interface_id),
        );
        assert(f(eni) == Ok::<
            Seq<crate::graph::model::EdgeView>,
            crate::error::MappingErrorView,
        >(parts[i]));
        crate::ingest::map::lemma_map_all_ok(eni.groups@, g);
        assert forall|j: int| 0 <= j < eni.groups@.len() implies (
        #[trigger] eni.groups@[j]).group_id is Some && parts[i][j]
            == crate::graph::model::EdgeView::HasSg(
            crate::ports::HasSgEdgeView {
                eni_id: eni.network_interface_id.deep_view()->0,
                security_group_id: eni.groups@[j].group_id.deep_view()->0,
            },
        ) by {
            assert(g(eni.groups@[j]) == Ok::<
                crate::graph::model::EdgeView,
                crate::error::MappingErrorView,
            >(parts[i][j]));
        }
    }
    if crate::ingest::map::joined(parts).contains(edge) {
        let k = choose|k: int| 0 <= k < parts.len() && (#[trigger] parts[k]).contains(edge);
        let j = choose|j: int| 0 <= j < parts[k].len() && parts[k][j] == edge;
        let group = network_interfaces[k].groups@[j];
        assert(edge is HasSg);
    }
    if edge is HasSg {
        let e = edge->HasSg_0;
        if exists|i: int, j: int|
            0 <= i < network_interfaces.len() && 0 <= j < network_interfaces[i].groups@.len()
                && network_interfaces[i].network_interface_id.deep_view() == Some(e.eni_id) && (
            #[trigger] network_interfaces[i].groups@[j]).group_id.deep_view() == Some(
                e.security_group_id,
            ) {
            let (i, j) = choose|i: int, j: int|
                0 <= i < network_interfaces.len() && 0 <= j < network_interfaces[i].groups@.len()
                    && network_interfaces[i].network_interface_id.deep_view() == Some(e.eni_id) && (
                #[trigger] network_interfaces[i].groups@[j]).group_id.deep_view() == Some(
                    e.security_group_id,
                );
            assert(parts[i][j] == edge);
            assert(parts[i].contains(edge));
        }
    }
}

proof fn lemma_in_subnet_edges(
    account_id: Seq<char>,
    network_interfaces: Seq<NetworkInterface>,
    edge: crate::graph::model::EdgeView,
)
    requires
        crate::ingest::map::map_all(
            network_interfaces,
            crate::ingest::map::topology::eni_node(account_id),
        ) is Ok,
    ensures
        crate::ingest::map::joined_map(
            crate::ingest::map::map_all(
                network_interfaces,
                crate::ingest::map::topology::eni_node(account_id),
            )->Ok_0,
            crate::ingest::map::topology::eni_in_subnet(),
        ).contains(edge) <==> (edge matches crate::graph::model::EdgeView::InSubnet(e) && exists|
            i: int,
        |
            0 <= i < network_interfaces.len() && (
            #[trigger] network_interfaces[i]).network_interface_id.deep_view() == Some(e.eni_id)
                && network_interfaces[i].subnet_id.deep_view() == Some(e.subnet_id)),
{
    let node = crate::ingest::map::topology::eni_node(account_id);
    let f = crate::ingest::map::topology::eni_in_subnet();
    let enis = crate::ingest::map::map_all(network_interfaces, node)->Ok_0;
    crate::ingest::map::lemma_map_all_ok(network_interfaces, node);
    crate::ingest::map::lemma_joined_map_contains(enis, f, edge);
    assert forall|i: int| 0 <= i < network_interfaces.len() implies {
        let eni = #[trigger] network_interfaces[i];
        &&& eni.network_interface_id.deep_view() == Some(enis[i].id)
        &&& eni.subnet_id.deep_view() == Some(enis[i].subnet_id)
    } by {
        assert(node(network_interfaces[i]) == Ok::<
            crate::ports::EniRecordView,
            crate::error::MappingErrorView,
        >(enis[i]));
    }
    if crate::ingest::map::joined_map(enis, f).contains(edge) {
        let i = choose|i: int| 0 <= i < enis.len() && f(#[trigger] enis[i]).contains(edge);
        let eni = network_interfaces[i];
        assert(edge is InSubnet);
    }
    if edge is InSubnet {
        let e = edge->InSubnet_0;
        if exists|i: int|
            0 <= i < network_interfaces.len() && (
            #[trigger] network_interfaces[i]).network_interface_id.deep_view() == Some(e.eni_id)
                && network_interfaces[i].subnet_id.deep_view() == Some(e.subnet_id) {
            let i = choose|i: int|
                0 <= i < network_interfaces.len() && (
                #[trigger] network_interfaces[i]).network_interface_id.deep_view() == Some(
                    e.eni_id,
                ) && network_interfaces[i].subnet_id.deep_view() == Some(e.subnet_id);
            assert(f(enis[i])[0] == edge);
            assert(f(enis[i]).contains(edge));
        }
    }
}

proof fn lemma_protected_by_edges(
    account_id: Seq<char>,
    network_acls: Seq<NetworkAcl>,
    edge: crate::graph::model::EdgeView,
)
    requires
        crate::ingest::map::map_all(
            network_acls,
            crate::ingest::map::topology::network_acl_node(account_id),
        ) is Ok,
    ensures
        crate::ingest::map::joined_map(
            network_acls,
            crate::ingest::map::topology::acl_protected_by(),
        ).contains(edge) <==> (edge matches crate::graph::model::EdgeView::ProtectedBy(e) && exists|
            i: int,
            j: int,
        |
            0 <= i < network_acls.len() && 0 <= j < network_acls[i].associations@.len()
                && network_acls[i].network_acl_id.deep_view() == Some(e.network_acl_id) && (
            #[trigger] network_acls[i].associations@[j]).subnet_id.deep_view() == Some(
                e.subnet_id,
            )),
{
    let node = crate::ingest::map::topology::network_acl_node(account_id);
    let f = crate::ingest::map::topology::acl_protected_by();
    crate::ingest::map::lemma_map_all_ok(network_acls, node);
    crate::ingest::map::lemma_joined_map_contains(network_acls, f, edge);
    if crate::ingest::map::joined_map(network_acls, f).contains(edge) {
        let i = choose|i: int|
            0 <= i < network_acls.len() && f(#[trigger] network_acls[i]).contains(edge);
        assert(node(network_acls[i]) is Ok);
        let g = crate::ingest::map::topology::protected_by_edge(
            crate::ingest::map::topology::given(network_acls[i].network_acl_id),
        );
        let associations = network_acls[i].associations@;
        crate::ingest::map::lemma_joined_map_contains(associations, g, edge);
        let j = choose|j: int|
            0 <= j < associations.len() && g(#[trigger] associations[j]).contains(edge);
        assert(edge is ProtectedBy);
        assert(network_acls[i].associations@[j].subnet_id is Some);
    }
    if edge is ProtectedBy {
        let e = edge->ProtectedBy_0;
        if exists|i: int, j: int|
            0 <= i < network_acls.len() && 0 <= j < network_acls[i].associations@.len()
                && network_acls[i].network_acl_id.deep_view() == Some(e.network_acl_id) && (
            #[trigger] network_acls[i].associations@[j]).subnet_id.deep_view() == Some(
                e.subnet_id,
            ) {
            let (i, j) = choose|i: int, j: int|
                0 <= i < network_acls.len() && 0 <= j < network_acls[i].associations@.len()
                    && network_acls[i].network_acl_id.deep_view() == Some(e.network_acl_id) && (
                #[trigger] network_acls[i].associations@[j]).subnet_id.deep_view() == Some(
                    e.subnet_id,
                );
            let g = crate::ingest::map::topology::protected_by_edge(
                crate::ingest::map::topology::given(network_acls[i].network_acl_id),
            );
            let associations = network_acls[i].associations@;
            assert(g(associations[j])[0] == edge);
            assert(g(associations[j]).contains(edge));
            crate::ingest::map::lemma_joined_map_contains(associations, g, edge);
            assert(f(network_acls[i]).contains(edge));
        }
    }
}

proof fn lemma_uses_edges(
    account_id: Seq<char>,
    route_tables: Seq<RouteTable>,
    edge: crate::graph::model::EdgeView,
)
    requires
        crate::ingest::map::map_all(
            route_tables,
            crate::ingest::map::topology::route_table_node(account_id),
        ) is Ok,
    ensures
        crate::ingest::map::joined_map(
            route_tables,
            crate::ingest::map::topology::table_uses(),
        ).contains(edge) <==> (edge matches crate::graph::model::EdgeView::UsesRouteTable(e)
            && exists|i: int, j: int|
            0 <= i < route_tables.len() && 0 <= j < route_tables[i].associations@.len()
                && route_tables[i].route_table_id.deep_view() == Some(e.route_table_id) && (
            #[trigger] route_tables[i].associations@[j]).subnet_id.deep_view() == Some(
                e.subnet_id,
            )),
{
    let node = crate::ingest::map::topology::route_table_node(account_id);
    let f = crate::ingest::map::topology::table_uses();
    crate::ingest::map::lemma_map_all_ok(route_tables, node);
    crate::ingest::map::lemma_joined_map_contains(route_tables, f, edge);
    if crate::ingest::map::joined_map(route_tables, f).contains(edge) {
        let i = choose|i: int|
            0 <= i < route_tables.len() && f(#[trigger] route_tables[i]).contains(edge);
        assert(node(route_tables[i]) is Ok);
        let g = crate::ingest::map::topology::uses_route_table_edge(
            crate::ingest::map::topology::given(route_tables[i].route_table_id),
        );
        let associations = route_tables[i].associations@;
        crate::ingest::map::lemma_joined_map_contains(associations, g, edge);
        let j = choose|j: int|
            0 <= j < associations.len() && g(#[trigger] associations[j]).contains(edge);
        assert(edge is UsesRouteTable);
        assert(route_tables[i].associations@[j].subnet_id is Some);
    }
    if edge is UsesRouteTable {
        let e = edge->UsesRouteTable_0;
        if exists|i: int, j: int|
            0 <= i < route_tables.len() && 0 <= j < route_tables[i].associations@.len()
                && route_tables[i].route_table_id.deep_view() == Some(e.route_table_id) && (
            #[trigger] route_tables[i].associations@[j]).subnet_id.deep_view() == Some(
                e.subnet_id,
            ) {
            let (i, j) = choose|i: int, j: int|
                0 <= i < route_tables.len() && 0 <= j < route_tables[i].associations@.len()
                    && route_tables[i].route_table_id.deep_view() == Some(e.route_table_id) && (
                #[trigger] route_tables[i].associations@[j]).subnet_id.deep_view() == Some(
                    e.subnet_id,
                );
            let g = crate::ingest::map::topology::uses_route_table_edge(
                crate::ingest::map::topology::given(route_tables[i].route_table_id),
            );
            let associations = route_tables[i].associations@;
            assert(g(associations[j])[0] == edge);
            assert(g(associations[j]).contains(edge));
            crate::ingest::map::lemma_joined_map_contains(associations, g, edge);
            assert(f(route_tables[i]).contains(edge));
        }
    }
}

proof fn lemma_route_edges(
    account_id: Seq<char>,
    route_tables: Seq<RouteTable>,
    peerings: Seq<VpcPeeringConnection>,
    edge: crate::graph::model::EdgeView,
)
    requires
        crate::ingest::map::map_all(
            route_tables,
            crate::ingest::map::topology::route_table_node(account_id),
        ) is Ok,
    ensures
        crate::ingest::map::joined_map(
            route_tables,
            crate::ingest::map::topology::table_routes(account_id, peerings),
        ).contains(edge) <==> (edge matches crate::graph::model::EdgeView::RoutesTo(e) && exists|
            i: int,
            j: int,
        |
            0 <= i < route_tables.len() && 0 <= j < route_tables[i].routes@.len()
                && route_tables[i].route_table_id.deep_view() == Some(e.route_table_id) && Some(
                e.destination_cidr,
            ) == crate::ingest::map::topology::route_destination(
                #[trigger] route_tables[i].routes@[j],
            ) && e.target_vpc_id == crate::ingest::map::topology::route_target(
                account_id,
                route_tables[i].vpc_id.deep_view()->0,
                route_tables[i].routes@[j],
                peerings,
            ) && e.resolved == (e.target_vpc_id is Some)),
{
    let node = crate::ingest::map::topology::route_table_node(account_id);
    let f = crate::ingest::map::topology::table_routes(account_id, peerings);
    crate::ingest::map::lemma_map_all_ok(route_tables, node);
    crate::ingest::map::lemma_joined_map_contains(route_tables, f, edge);
    assert forall|i: int| 0 <= i < route_tables.len() implies (
    #[trigger] route_tables[i]).route_table_id is Some && route_tables[i].vpc_id is Some by {
        assert(node(route_tables[i]) is Ok);
    }
    if crate::ingest::map::joined_map(route_tables, f).contains(edge) {
        let i = choose|i: int|
            0 <= i < route_tables.len() && f(#[trigger] route_tables[i]).contains(edge);
        let g = crate::ingest::map::topology::routes_to_edge(
            account_id,
            crate::ingest::map::topology::given(route_tables[i].route_table_id),
            crate::ingest::map::topology::given(route_tables[i].vpc_id),
            peerings,
        );
        let routes = route_tables[i].routes@;
        crate::ingest::map::lemma_joined_map_contains(routes, g, edge);
        let j = choose|j: int| 0 <= j < routes.len() && g(#[trigger] routes[j]).contains(edge);
        assert(edge is RoutesTo);
        assert(crate::ingest::map::topology::route_destination(
            route_tables[i].routes@[j],
        ) is Some);
    }
    if edge is RoutesTo {
        let e = edge->RoutesTo_0;
        if exists|i: int, j: int|
            0 <= i < route_tables.len() && 0 <= j < route_tables[i].routes@.len()
                && route_tables[i].route_table_id.deep_view() == Some(e.route_table_id) && Some(
                e.destination_cidr,
            ) == crate::ingest::map::topology::route_destination(
                #[trigger] route_tables[i].routes@[j],
            ) && e.target_vpc_id == crate::ingest::map::topology::route_target(
                account_id,
                route_tables[i].vpc_id.deep_view()->0,
                route_tables[i].routes@[j],
                peerings,
            ) && e.resolved == (e.target_vpc_id is Some) {
            let (i, j) = choose|i: int, j: int|
                0 <= i < route_tables.len() && 0 <= j < route_tables[i].routes@.len()
                    && route_tables[i].route_table_id.deep_view() == Some(e.route_table_id) && Some(
                    e.destination_cidr,
                ) == crate::ingest::map::topology::route_destination(
                    #[trigger] route_tables[i].routes@[j],
                ) && e.target_vpc_id == crate::ingest::map::topology::route_target(
                    account_id,
                    route_tables[i].vpc_id.deep_view()->0,
                    route_tables[i].routes@[j],
                    peerings,
                ) && e.resolved == (e.target_vpc_id is Some);
            let g = crate::ingest::map::topology::routes_to_edge(
                account_id,
                crate::ingest::map::topology::given(route_tables[i].route_table_id),
                crate::ingest::map::topology::given(route_tables[i].vpc_id),
                peerings,
            );
            let routes = route_tables[i].routes@;
            assert(g(routes[j])[0] == edge);
            assert(g(routes[j]).contains(edge));
            crate::ingest::map::lemma_joined_map_contains(routes, g, edge);
            assert(f(route_tables[i]).contains(edge));
        }
    }
}

proof fn lemma_allows_edges(
    account_id: Seq<char>,
    security_groups: Seq<SecurityGroup>,
    edge: crate::graph::model::EdgeView,
)
    requires
        crate::ingest::map::map_all(
            security_groups,
            crate::ingest::map::topology::security_group_node(account_id),
        ) is Ok,
        crate::ingest::map::map_all(
            security_groups,
            crate::ingest::map::topology::group_allows(account_id),
        ) is Ok,
    ensures
        crate::ingest::map::joined(
            crate::ingest::map::map_all(
                security_groups,
                crate::ingest::map::topology::group_allows(account_id),
            )->Ok_0,
        ).contains(edge) <==> match edge {
            crate::graph::model::EdgeView::AllowsIngress { security_group_id, rule } => exists|
                i: int,
            |
                0 <= i < security_groups.len() && (
                #[trigger] security_groups[i]).group_id.deep_view() == Some(security_group_id)
                    && rule.direction == Direction::Ingress
                    && crate::ingest::map::sg::security_group_rules(
                    security_groups[i],
                    account_id,
                )->Ok_0.contains(rule),
            crate::graph::model::EdgeView::AllowsEgress { security_group_id, rule } => exists|
                i: int,
            |
                0 <= i < security_groups.len() && (
                #[trigger] security_groups[i]).group_id.deep_view() == Some(security_group_id)
                    && rule.direction == Direction::Egress
                    && crate::ingest::map::sg::security_group_rules(
                    security_groups[i],
                    account_id,
                )->Ok_0.contains(rule),
            _ => false,
        },
{
    let node = crate::ingest::map::topology::security_group_node(account_id);
    let f = crate::ingest::map::topology::group_allows(account_id);
    let parts = crate::ingest::map::map_all(security_groups, f)->Ok_0;
    crate::ingest::map::lemma_map_all_ok(security_groups, node);
    crate::ingest::map::lemma_map_all_ok(security_groups, f);
    lemma_joined_holds(parts, edge);
    assert forall|i: int| 0 <= i < security_groups.len() implies {
        let rules = crate::ingest::map::sg::security_group_rules(
            #[trigger] security_groups[i],
            account_id,
        )->Ok_0;
        &&& security_groups[i].group_id is Some
        &&& parts[i].len() == rules.len()
        &&& forall|k: int|
            0 <= k < rules.len() ==> #[trigger] parts[i][k]
                == crate::ingest::map::topology::allows_edge(
                security_groups[i].group_id.deep_view()->0,
                rules[k],
            )
    } by {
        assert(node(security_groups[i]) is Ok);
        assert(f(security_groups[i]) == Ok::<
            Seq<crate::graph::model::EdgeView>,
            crate::error::MappingErrorView,
        >(parts[i]));
    }
    if crate::ingest::map::joined(parts).contains(edge) {
        let i = choose|i: int| 0 <= i < parts.len() && (#[trigger] parts[i]).contains(edge);
        let k = choose|k: int| 0 <= k < parts[i].len() && parts[i][k] == edge;
        let group = security_groups[i];
        let rules = crate::ingest::map::sg::security_group_rules(group, account_id)->Ok_0;
        assert(edge == crate::ingest::map::topology::allows_edge(
            group.group_id.deep_view()->0,
            rules[k],
        ));
        assert(rules.contains(rules[k]));
    }
    assert forall|i: int, rule: crate::domain::rule::SgRuleView|
        0 <= i < security_groups.len() && #[trigger] crate::ingest::map::sg::security_group_rules(
            security_groups[i],
            account_id,
        )->Ok_0.contains(rule) && crate::ingest::map::topology::allows_edge(
            security_groups[i].group_id.deep_view()->0,
            rule,
        ) == edge implies crate::ingest::map::joined(parts).contains(edge) by {
        let rules = crate::ingest::map::sg::security_group_rules(
            security_groups[i],
            account_id,
        )->Ok_0;
        let k = choose|k: int| 0 <= k < rules.len() && rules[k] == rule;
        assert(parts[i][k] == edge);
        assert(parts[i].contains(edge));
    }
}

proof fn lemma_has_rule_edges(
    account_id: Seq<char>,
    network_acls: Seq<NetworkAcl>,
    edge: crate::graph::model::EdgeView,
)
    requires
        crate::ingest::map::map_all(
            network_acls,
            crate::ingest::map::topology::network_acl_node(account_id),
        ) is Ok,
        crate::ingest::map::map_all(
            network_acls,
            crate::ingest::map::topology::acl_has_rules(),
        ) is Ok,
    ensures
        crate::ingest::map::joined(
            crate::ingest::map::map_all(
                network_acls,
                crate::ingest::map::topology::acl_has_rules(),
            )->Ok_0,
        ).contains(edge) <==> (edge matches crate::graph::model::EdgeView::HasRule {
            network_acl_id,
            rule,
        } && exists|i: int|
            0 <= i < network_acls.len() && (
            #[trigger] network_acls[i]).network_acl_id.deep_view() == Some(network_acl_id)
                && crate::ingest::map::nacl::network_acl_rules(network_acls[i])->Ok_0.contains(
                rule,
            )),
{
    let node = crate::ingest::map::topology::network_acl_node(account_id);
    let f = crate::ingest::map::topology::acl_has_rules();
    let parts = crate::ingest::map::map_all(network_acls, f)->Ok_0;
    crate::ingest::map::lemma_map_all_ok(network_acls, node);
    crate::ingest::map::lemma_map_all_ok(network_acls, f);
    lemma_joined_holds(parts, edge);
    assert forall|i: int| 0 <= i < network_acls.len() implies {
        let rules = crate::ingest::map::nacl::network_acl_rules(#[trigger] network_acls[i])->Ok_0;
        &&& network_acls[i].network_acl_id is Some
        &&& parts[i].len() == rules.len()
        &&& forall|k: int|
            0 <= k < rules.len() ==> #[trigger] parts[i][k]
                == (crate::graph::model::EdgeView::HasRule {
                network_acl_id: network_acls[i].network_acl_id.deep_view()->0,
                rule: rules[k],
            })
    } by {
        assert(node(network_acls[i]) is Ok);
        assert(f(network_acls[i]) == Ok::<
            Seq<crate::graph::model::EdgeView>,
            crate::error::MappingErrorView,
        >(parts[i]));
    }
    if crate::ingest::map::joined(parts).contains(edge) {
        let i = choose|i: int| 0 <= i < parts.len() && (#[trigger] parts[i]).contains(edge);
        let k = choose|k: int| 0 <= k < parts[i].len() && parts[i][k] == edge;
        let acl = network_acls[i];
        let rules = crate::ingest::map::nacl::network_acl_rules(acl)->Ok_0;
        assert(edge is HasRule);
        assert(rules.contains(rules[k]));
    }
    if edge is HasRule {
        let id = edge->HasRule_network_acl_id;
        let rule = edge->HasRule_rule;
        if exists|i: int|
            0 <= i < network_acls.len() && (
            #[trigger] network_acls[i]).network_acl_id.deep_view() == Some(id)
                && crate::ingest::map::nacl::network_acl_rules(network_acls[i])->Ok_0.contains(
                rule,
            ) {
            let i = choose|i: int|
                0 <= i < network_acls.len() && (
                #[trigger] network_acls[i]).network_acl_id.deep_view() == Some(id)
                    && crate::ingest::map::nacl::network_acl_rules(network_acls[i])->Ok_0.contains(
                    rule,
                );
            let rules = crate::ingest::map::nacl::network_acl_rules(network_acls[i])->Ok_0;
            let k = choose|k: int| 0 <= k < rules.len() && rules[k] == rule;
            assert(parts[i][k] == edge);
            assert(parts[i].contains(edge));
        }
    }
}

proof fn lemma_sum_contains<A>(a: Seq<A>, b: Seq<A>, x: A)
    ensures
        (a + b).contains(x) <==> a.contains(x) || b.contains(x),
{
    if a.contains(x) {
        let i = choose|i: int| 0 <= i < a.len() && a[i] == x;
        assert((a + b)[i] == x);
    }
    if b.contains(x) {
        let i = choose|i: int| 0 <= i < b.len() && b[i] == x;
        assert((a + b)[a.len() + i] == x);
    }
}

/// The edges of an account's graph are exactly those that its resources give.
pub proof fn law_edges_are_what_the_resources_give(
    account_id: Seq<char>,
    security_groups: Seq<SecurityGroup>,
    network_acls: Seq<NetworkAcl>,
    route_tables: Seq<RouteTable>,
    network_interfaces: Seq<NetworkInterface>,
    peerings: Seq<VpcPeeringConnection>,
    edge: crate::graph::model::EdgeView,
)
    requires
        crate::ingest::map::topology::graph_batch(
            account_id,
            security_groups,
            network_acls,
            route_tables,
            network_interfaces,
            peerings,
        ) is Ok,
    ensures
        crate::ingest::map::topology::graph_batch(
            account_id,
            security_groups,
            network_acls,
            route_tables,
            network_interfaces,
            peerings,
        )->Ok_0.edges.contains(edge) <==> is_given(
            account_id,
            security_groups,
            network_acls,
            route_tables,
            network_interfaces,
            peerings,
            edge,
        ),
{
    let batch = crate::ingest::map::topology::graph_batch(
        account_id,
        security_groups,
        network_acls,
        route_tables,
        network_interfaces,
        peerings,
    )->Ok_0;
    let p1 = crate::ingest::map::joined(
        crate::ingest::map::map_all(
            network_interfaces,
            crate::ingest::map::topology::eni_has_sg(),
        )->Ok_0,
    );
    let p2 = crate::ingest::map::joined_map(
        batch.enis,
        crate::ingest::map::topology::eni_in_subnet(),
    );
    let p3 = crate::ingest::map::joined_map(
        network_acls,
        crate::ingest::map::topology::acl_protected_by(),
    );
    let p4 = crate::ingest::map::joined_map(
        route_tables,
        crate::ingest::map::topology::table_uses(),
    );
    let p5 = crate::ingest::map::joined_map(
        route_tables,
        crate::ingest::map::topology::table_routes(account_id, peerings),
    );
    let p6 = crate::ingest::map::joined(
        crate::ingest::map::map_all(
            security_groups,
            crate::ingest::map::topology::group_allows(account_id),
        )->Ok_0,
    );
    let p7 = crate::ingest::map::joined(
        crate::ingest::map::map_all(
            network_acls,
            crate::ingest::map::topology::acl_has_rules(),
        )->Ok_0,
    );
    assert(batch.edges == p1 + p2 + p3 + p4 + p5 + p6 + p7);
    lemma_sum_contains(p1, p2, edge);
    lemma_sum_contains(p1 + p2, p3, edge);
    lemma_sum_contains(p1 + p2 + p3, p4, edge);
    lemma_sum_contains(p1 + p2 + p3 + p4, p5, edge);
    lemma_sum_contains(p1 + p2 + p3 + p4 + p5, p6, edge);
    lemma_sum_contains(p1 + p2 + p3 + p4 + p5 + p6, p7, edge);
    lemma_has_sg_edges(account_id, network_interfaces, edge);
    lemma_in_subnet_edges(account_id, network_interfaces, edge);
    lemma_protected_by_edges(account_id, network_acls, edge);
    lemma_uses_edges(account_id, route_tables, edge);
    lemma_route_edges(account_id, route_tables, peerings, edge);
    lemma_allows_edges(account_id, security_groups, edge);
    lemma_has_rule_edges(account_id, network_acls, edge);
}

/// A local route for a CIDR gives a resolved edge from its route table to the
/// table's own VPC.
pub proof fn law_local_route_gives_a_resolved_edge(
    account_id: Seq<char>,
    security_groups: Seq<SecurityGroup>,
    network_acls: Seq<NetworkAcl>,
    route_tables: Seq<RouteTable>,
    network_interfaces: Seq<NetworkInterface>,
    peerings: Seq<VpcPeeringConnection>,
    i: int,
    j: int,
)
    requires
        crate::ingest::map::topology::graph_batch(
            account_id,
            security_groups,
            network_acls,
            route_tables,
            network_interfaces,
            peerings,
        ) is Ok,
        0 <= i < route_tables.len(),
        0 <= j < route_tables[i].routes@.len(),
        route_tables[i].routes@[j].gateway_id.deep_view() == Some("local"@),
        route_tables[i].routes@[j].destination_cidr_block is Some,
    ensures
        crate::ingest::map::topology::graph_batch(
            account_id,
            security_groups,
            network_acls,
            route_tables,
            network_interfaces,
            peerings,
        )->Ok_0.edges.contains(
            crate::graph::model::EdgeView::RoutesTo(
                crate::ports::RoutesToEdgeView {
                    route_table_id: route_tables[i].route_table_id.deep_view()->0,
                    destination_cidr:
                        route_tables[i].routes@[j].destination_cidr_block.deep_view()->0,
                    target_vpc_id: route_tables[i].vpc_id.deep_view(),
                    resolved: true,
                },
            ),
        ),
{
    let route = route_tables[i].routes@[j];
    let edge = crate::graph::model::EdgeView::RoutesTo(
        crate::ports::RoutesToEdgeView {
            route_table_id: route_tables[i].route_table_id.deep_view()->0,
            destination_cidr: route.destination_cidr_block.deep_view()->0,
            target_vpc_id: route_tables[i].vpc_id.deep_view(),
            resolved: true,
        },
    );
    let node = crate::ingest::map::topology::route_table_node(account_id);
    crate::ingest::map::lemma_map_all_ok(route_tables, node);
    assert(node(route_tables[i]) is Ok);
    law_local_route_leads_home(
        account_id,
        route_tables[i].vpc_id.deep_view()->0,
        route,
        peerings,
    );
    law_route_destination(route);
    law_edges_are_what_the_resources_give(
        account_id,
        security_groups,
        network_acls,
        route_tables,
        network_interfaces,
        peerings,
        edge,
    );
    assert(crate::ingest::map::topology::route_destination(
        route_tables[i].routes@[j],
    ) is Some);
}

/// Whether some resource names the VPC `vpc_id`: as its own, or as a side of a
/// peering connection that the account owns.
pub open spec fn names_vpc(
    account_id: Seq<char>,
    security_groups: Seq<SecurityGroup>,
    network_acls: Seq<NetworkAcl>,
    route_tables: Seq<RouteTable>,
    network_interfaces: Seq<NetworkInterface>,
    peerings: Seq<VpcPeeringConnection>,
    vpc_id: Seq<char>,
) -> bool {
    ||| exists|i: int|
        0 <= i < security_groups.len() && (#[trigger] security_groups[i]).vpc_id.deep_view()
            == Some(vpc_id)
    ||| exists|i: int|
        0 <= i < network_acls.len() && (#[trigger] network_acls[i]).vpc_id.deep_view() == Some(
            vpc_id,
        )
    ||| exists|i: int|
        0 <= i < route_tables.len() && (#[trigger] route_tables[i]).vpc_id.deep_view() == Some(
            vpc_id,
        )
    ||| exists|i: int|
        0 <= i < network_interfaces.len() && (
        #[trigger] network_interfaces[i]).vpc_id.deep_view() == Some(vpc_id)
    ||| exists|i: int|
        0 <= i < peerings.len() && {
            ||| is_own_side((#[trigger] peerings[i]).requester_vpc_info, account_id, vpc_id)
            ||| is_own_side(peerings[i].accepter_vpc_info, account_id, vpc_id)
        }
}

/// Whether a side of a peering connection is the VPC `vpc_id` of the account.
pub open spec fn is_own_side(
    side: Option<PeeringVpcInfo>,
    account_id: Seq<char>,
    vpc_id: Seq<char>,
) -> bool {
    &&& side is Some
    &&& side->0.vpc_id.deep_view() == Some(vpc_id)
    &&& side->0.owner_id.deep_view() == Some(account_id)
}

proof fn lemma_present_holds(value: Option<String>, text: Seq<char>)
    ensures
        crate::ingest::map::present(value).contains(text) <==> value.deep_view() == Some(text),
{
    if value is Some {
        assert(crate::ingest::map::present(value)[0] == value->0@);
    }
}

proof fn lemma_vpc_sightings(
    account_id: Seq<char>,
    security_groups: Seq<SecurityGroup>,
    network_acls: Seq<NetworkAcl>,
    route_tables: Seq<RouteTable>,
    network_interfaces: Seq<NetworkInterface>,
    peerings: Seq<VpcPeeringConnection>,
    vpc_id: Seq<char>,
)
    ensures
        crate::ingest::map::stubs::vpc_sightings(
            account_id,
            security_groups,
            network_acls,
            route_tables,
            network_interfaces,
            peerings,
        ).contains(vpc_id) <==> names_vpc(
            account_id,
            security_groups,
            network_acls,
            route_tables,
            network_interfaces,
            peerings,
            vpc_id,
        ),
{
    let f1 = crate::ingest::map::stubs::sg_vpc();
    let f2 = crate::ingest::map::stubs::acl_vpc();
    let f3 = crate::ingest::map::stubs::route_table_vpc();
    let f4 = crate::ingest::map::stubs::eni_vpc();
    let f5 = crate::ingest::map::stubs::peering_vpcs(account_id);
    let p1 = crate::ingest::map::joined_map(security_groups, f1);
    let p2 = crate::ingest::map::joined_map(network_acls, f2);
    let p3 = crate::ingest::map::joined_map(route_tables, f3);
    let p4 = crate::ingest::map::joined_map(network_interfaces, f4);
    let p5 = crate::ingest::map::joined_map(peerings, f5);
    crate::ingest::map::lemma_joined_map_contains(security_groups, f1, vpc_id);
    crate::ingest::map::lemma_joined_map_contains(network_acls, f2, vpc_id);
    crate::ingest::map::lemma_joined_map_contains(route_tables, f3, vpc_id);
    crate::ingest::map::lemma_joined_map_contains(network_interfaces, f4, vpc_id);
    crate::ingest::map::lemma_joined_map_contains(peerings, f5, vpc_id);
    lemma_sum_contains(p1, p2, vpc_id);
    lemma_sum_contains(p1 + p2, p3, vpc_id);
    lemma_sum_contains(p1 + p2 + p3, p4, vpc_id);
    lemma_sum_contains(p1 + p2 + p3 + p4, p5, vpc_id);
    assert forall|i: int| 0 <= i < security_groups.len() implies f1(
        #[trigger] security_groups[i],
    ).contains(vpc_id) == (security_groups[i].vpc_id.deep_view() == Some(vpc_id)) by {
        lemma_present_holds(security_groups[i].vpc_id, vpc_id);
    }
    assert forall|i: int| 0 <= i < network_acls.len() implies f2(
        #[trigger] network_acls[i],
    ).contains(vpc_id) == (network_acls[i].vpc_id.deep_view() == Some(vpc_id)) by {
        lemma_present_holds(network_acls[i].vpc_id, vpc_id);
    }
    assert forall|i: int| 0 <= i < route_tables.len() implies f3(
        #[trigger] route_tables[i],
    ).contains(vpc_id) == (route_tables[i].vpc_id.deep_view() == Some(vpc_id)) by {
        lemma_present_holds(route_tables[i].vpc_id, vpc_id);
    }
    assert forall|i: int| 0 <= i < network_interfaces.len() implies f4(
        #[trigger] network_interfaces[i],
    ).contains(vpc_id) == (network_interfaces[i].vpc_id.deep_view() == Some(vpc_id)) by {
        lemma_present_holds(network_interfaces[i].vpc_id, vpc_id);
    }
    assert forall|i: int| 0 <= i < peerings.len() implies f5(#[trigger] peerings[i]).contains(
        vpc_id,
    ) == (is_own_side(peerings[i].requester_vpc_info, account_id, vpc_id) || is_own_side(
        peerings[i].accepter_vpc_info,
        account_id,
        vpc_id,
    )) by {
        let requester = peerings[i].requester_vpc_info;
        let accepter = peerings[i].accepter_vpc_info;
        lemma_sum_contains(
            crate::ingest::map::stubs::side_vpc(requester, account_id),
            crate::ingest::map::stubs::side_vpc(accepter, account_id),
            vpc_id,
        );
        if requester is Some {
            lemma_present_holds(requester->0.vpc_id, vpc_id);
        }
        if accepter is Some {
            lemma_present_holds(accepter->0.vpc_id, vpc_id);
        }
    }
}

/// There is one VPC node for each VPC that some resource names, and no other,
/// in the order of their ids. Each belongs to the account, and nothing is known
/// of its block.
pub proof fn law_vpc_nodes(
    account_id: Seq<char>,
    security_groups: Seq<SecurityGroup>,
    network_acls: Seq<NetworkAcl>,
    route_tables: Seq<RouteTable>,
    network_interfaces: Seq<NetworkInterface>,
    peerings: Seq<VpcPeeringConnection>,
    vpc_id: Seq<char>,
)
    requires
        crate::ingest::map::topology::graph_batch(
            account_id,
            security_groups,
            network_acls,
            route_tables,
            network_interfaces,
            peerings,
        ) is Ok,
    ensures
        ({
            let vpcs = crate::ingest::map::topology::graph_batch(
                account_id,
                security_groups,
                network_acls,
                route_tables,
                network_interfaces,
                peerings,
            )->Ok_0.vpcs;
            &&& forall|i: int|
                0 <= i < vpcs.len() ==> (#[trigger] vpcs[i]).account_id == account_id
                    && vpcs[i].cidr_block.len() == 0
            &&& forall|i: int, j: int|
                0 <= i < j < vpcs.len() ==> crate::text::text_less(
                    (#[trigger] vpcs[i]).id,
                    (#[trigger] vpcs[j]).id,
                )
            &&& (exists|i: int| 0 <= i < vpcs.len() && (#[trigger] vpcs[i]).id == vpc_id)
                <==> names_vpc(
                account_id,
                security_groups,
                network_acls,
                route_tables,
                network_interfaces,
                peerings,
                vpc_id,
            )
        }),
{
    let sightings = crate::ingest::map::stubs::vpc_sightings(
        account_id,
        security_groups,
        network_acls,
        route_tables,
        network_interfaces,
        peerings,
    );
    crate::ingest::map::stubs::law_one_vpc_node_per_vpc(account_id, sightings, vpc_id);
    let vpcs = crate::ingest::map::stubs::vpc_stubs(account_id, sightings);
    assert forall|i: int, j: int| 0 <= i < j < vpcs.len() implies crate::text::text_less(
        (#[trigger] vpcs[i]).id,
        (#[trigger] vpcs[j]).id,
    ) by {}
    assert forall|i: int| 0 <= i < vpcs.len() implies (#[trigger] vpcs[i]).account_id == account_id
        && vpcs[i].cidr_block.len() == 0 by {}
    assert(sightings.contains(vpc_id) <==> exists|i: int|
        0 <= i < vpcs.len() && (#[trigger] vpcs[i]).id == vpc_id);
    lemma_vpc_sightings(
        account_id,
        security_groups,
        network_acls,
        route_tables,
        network_interfaces,
        peerings,
        vpc_id,
    );
}

/// Whether some resource places the subnet `subnet_id` in the VPC `vpc_id`: an
/// interface that is in both, or a network ACL or a route table of that VPC
/// with an association to that subnet.
pub open spec fn places_subnet(
    network_interfaces: Seq<NetworkInterface>,
    network_acls: Seq<NetworkAcl>,
    route_tables: Seq<RouteTable>,
    subnet_id: Seq<char>,
    vpc_id: Seq<char>,
) -> bool {
    ||| exists|i: int|
        0 <= i < network_interfaces.len() && (
        #[trigger] network_interfaces[i]).subnet_id.deep_view() == Some(subnet_id)
            && network_interfaces[i].vpc_id.deep_view() == Some(vpc_id)
    ||| exists|i: int, j: int|
        0 <= i < network_acls.len() && 0 <= j < network_acls[i].associations@.len()
            && network_acls[i].vpc_id.deep_view() == Some(vpc_id) && (
        #[trigger] network_acls[i].associations@[j]).subnet_id.deep_view() == Some(subnet_id)
    ||| exists|i: int, j: int|
        0 <= i < route_tables.len() && 0 <= j < route_tables[i].associations@.len()
            && route_tables[i].vpc_id.deep_view() == Some(vpc_id) && (
        #[trigger] route_tables[i].associations@[j]).subnet_id.deep_view() == Some(subnet_id)
}

proof fn lemma_acl_places(
    network_acls: Seq<NetworkAcl>,
    subnet_id: Seq<char>,
    vpc_id: Seq<char>,
)
    ensures
        crate::ingest::map::joined_map(
            network_acls,
            crate::ingest::map::stubs::acl_subnets(),
        ).contains((subnet_id, vpc_id)) <==> exists|i: int, j: int|
            0 <= i < network_acls.len() && 0 <= j < network_acls[i].associations@.len()
                && network_acls[i].vpc_id.deep_view() == Some(vpc_id) && (
            #[trigger] network_acls[i].associations@[j]).subnet_id.deep_view() == Some(subnet_id),
{
    let pair = (subnet_id, vpc_id);
    let f = crate::ingest::map::stubs::acl_subnets();
    crate::ingest::map::lemma_joined_map_contains(network_acls, f, pair);
    assert forall|i: int| 0 <= i < network_acls.len() implies f(
        #[trigger] network_acls[i],
    ).contains(pair) == (network_acls[i].vpc_id.deep_view() == Some(vpc_id) && exists|j: int|
        0 <= j < network_acls[i].associations@.len() && (
        #[trigger] network_acls[i].associations@[j]).subnet_id.deep_view() == Some(
            subnet_id,
        )) by {
        if network_acls[i].vpc_id is Some {
            let g = crate::ingest::map::stubs::acl_association_subnet(network_acls[i].vpc_id->0@);
            let associations = network_acls[i].associations@;
            crate::ingest::map::lemma_joined_map_contains(associations, g, pair);
            assert forall|j: int| 0 <= j < associations.len() implies g(
                #[trigger] associations[j],
            ).contains(pair) == (associations[j].subnet_id.deep_view() == Some(subnet_id)
                && network_acls[i].vpc_id.deep_view() == Some(vpc_id)) by {
                if associations[j].subnet_id is Some {
                    assert(g(associations[j])[0] == (
                        associations[j].subnet_id->0@,
                        network_acls[i].vpc_id->0@,
                    ));
                }
            }
        }
    }
}

proof fn lemma_table_places(
    route_tables: Seq<RouteTable>,
    subnet_id: Seq<char>,
    vpc_id: Seq<char>,
)
    ensures
        crate::ingest::map::joined_map(
            route_tables,
            crate::ingest::map::stubs::table_subnets(),
        ).contains((subnet_id, vpc_id)) <==> exists|i: int, j: int|
            0 <= i < route_tables.len() && 0 <= j < route_tables[i].associations@.len()
                && route_tables[i].vpc_id.deep_view() == Some(vpc_id) && (
            #[trigger] route_tables[i].associations@[j]).subnet_id.deep_view() == Some(subnet_id),
{
    let pair = (subnet_id, vpc_id);
    let f = crate::ingest::map::stubs::table_subnets();
    crate::ingest::map::lemma_joined_map_contains(route_tables, f, pair);
    assert forall|i: int| 0 <= i < route_tables.len() implies f(
        #[trigger] route_tables[i],
    ).contains(pair) == (route_tables[i].vpc_id.deep_view() == Some(vpc_id) && exists|j: int|
        0 <= j < route_tables[i].associations@.len() && (
        #[trigger] route_tables[i].associations@[j]).subnet_id.deep_view() == Some(
            subnet_id,
        )) by {
        if route_tables[i].vpc_id is Some {
            let g = crate::ingest::map::stubs::table_association_subnet(
                route_tables[i].vpc_id->0@,
            );
            let associations = route_tables[i].associations@;
            crate::ingest::map::lemma_joined_map_contains(associations, g, pair);
            assert forall|j: int| 0 <= j < associations.len() implies g(
                #[trigger] associations[j],
            ).contains(pair) == (associations[j].subnet_id.deep_view() == Some(subnet_id)
                && route_tables[i].vpc_id.deep_view() == Some(vpc_id)) by {
                if associations[j].subnet_id is Some {
                    assert(g(associations[j])[0] == (
                        associations[j].subnet_id->0@,
                        route_tables[i].vpc_id->0@,
                    ));
                }
            }
        }
    }
}

proof fn lemma_subnet_sightings(
    network_interfaces: Seq<NetworkInterface>,
    network_acls: Seq<NetworkAcl>,
    route_tables: Seq<RouteTable>,
    subnet_id: Seq<char>,
    vpc_id: Seq<char>,
)
    ensures
        crate::ingest::map::stubs::subnet_sightings(
            network_interfaces,
            network_acls,
            route_tables,
        ).contains((subnet_id, vpc_id)) <==> places_subnet(
            network_interfaces,
            network_acls,
            route_tables,
            subnet_id,
            vpc_id,
        ),
{
    let pair = (subnet_id, vpc_id);
    let f = crate::ingest::map::stubs::eni_subnet();
    let p1 = crate::ingest::map::joined_map(network_interfaces, f);
    let p2 = crate::ingest::map::joined_map(
        network_acls,
        crate::ingest::map::stubs::acl_subnets(),
    );
    let p3 = crate::ingest::map::joined_map(
        route_tables,
        crate::ingest::map::stubs::table_subnets(),
    );
    lemma_sum_contains(p1, p2, pair);
    lemma_sum_contains(p1 + p2, p3, pair);
    lemma_acl_places(network_acls, subnet_id, vpc_id);
    lemma_table_places(route_tables, subnet_id, vpc_id);
    crate::ingest::map::lemma_joined_map_contains(network_interfaces, f, pair);
    assert forall|i: int| 0 <= i < network_interfaces.len() implies f(
        #[trigger] network_interfaces[i],
    ).contains(pair) == (network_interfaces[i].subnet_id.deep_view() == Some(subnet_id)
        && network_interfaces[i].vpc_id.deep_view() == Some(vpc_id)) by {
        let eni = network_interfaces[i];
        if eni.subnet_id is Some && eni.vpc_id is Some {
            assert(f(eni)[0] == (eni.subnet_id->0@, eni.vpc_id->0@));
        }
    }
}

/// There is one subnet node for each subnet that some resource places in a VPC,
/// and no other, in the order of their ids. Each belongs to the account and
/// lies in a VPC that some resource places it in; nothing is known of its block
/// and its zone.
pub proof fn law_subnet_nodes(
    account_id: Seq<char>,
    security_groups: Seq<SecurityGroup>,
    network_acls: Seq<NetworkAcl>,
    route_tables: Seq<RouteTable>,
    network_interfaces: Seq<NetworkInterface>,
    peerings: Seq<VpcPeeringConnection>,
    subnet_id: Seq<char>,
    vpc_id: Seq<char>,
)
    requires
        crate::ingest::map::topology::graph_batch(
            account_id,
            security_groups,
            network_acls,
            route_tables,
            network_interfaces,
            peerings,
        ) is Ok,
    ensures
        ({
            let subnets = crate::ingest::map::topology::graph_batch(
                account_id,
                security_groups,
                network_acls,
                route_tables,
                network_interfaces,
                peerings,
            )->Ok_0.subnets;
            &&& forall|i: int|
                #![trigger subnets[i]]
                0 <= i < subnets.len() ==> subnets[i].account_id == account_id
                    && subnets[i].cidr_block.len() == 0 && subnets[i].availability_zone.len() == 0
                    && places_subnet(
                    network_interfaces,
                    network_acls,
                    route_tables,
                    subnets[i].id,
                    subnets[i].vpc_id,
                )
            &&& forall|i: int, j: int|
                0 <= i < j < subnets.len() ==> crate::text::text_less(
                    (#[trigger] subnets[i]).id,
                    (#[trigger] subnets[j]).id,
                )
            &&& places_subnet(network_interfaces, network_acls, route_tables, subnet_id, vpc_id)
                ==> exists|i: int| 0 <= i < subnets.len() && (#[trigger] subnets[i]).id == subnet_id
        }),
{
    let sightings = crate::ingest::map::stubs::subnet_sightings(
        network_interfaces,
        network_acls,
        route_tables,
    );
    let groups = crate::graph::groups::grouped(sightings);
    let subnets = crate::ingest::map::stubs::subnet_stubs(account_id, sightings);
    crate::ingest::map::stubs::law_one_subnet_node_per_subnet(account_id, sightings, subnet_id);
    lemma_subnet_sightings(
        network_interfaces,
        network_acls,
        route_tables,
        subnet_id,
        vpc_id,
    );
    if places_subnet(network_interfaces, network_acls, route_tables, subnet_id, vpc_id) {
        let p = choose|p: int|
            0 <= p < sightings.len() && sightings[p] == (subnet_id, vpc_id);
        assert(sightings[p].0 == subnet_id);
    }
    assert forall|i: int, j: int| 0 <= i < j < subnets.len() implies crate::text::text_less(
        (#[trigger] subnets[i]).id,
        (#[trigger] subnets[j]).id,
    ) by {}
    assert forall|i: int| 0 <= i < subnets.len() implies (#[trigger] subnets[i]).account_id
        == account_id && subnets[i].cidr_block.len() == 0 && subnets[i].availability_zone.len()
        == 0 by {}
    assert((exists|p: int| 0 <= p < sightings.len() && (#[trigger] sightings[p]).0 == subnet_id)
        <==> exists|i: int| 0 <= i < subnets.len() && (#[trigger] subnets[i]).id == subnet_id);
    crate::graph::groups::law_grouped_is_a_grouping(sightings);
    assert forall|i: int| #![trigger subnets[i]] 0 <= i < subnets.len() implies places_subnet(
        network_interfaces,
        network_acls,
        route_tables,
        subnets[i].id,
        subnets[i].vpc_id,
    ) by {
        assert(subnets[i].id == groups[i].0);
        assert(subnets[i].vpc_id == groups[i].1[0]);
        crate::laws::writing::lemma_item_has_its_pair(sightings, groups[i].0, 0);
        lemma_subnet_sightings(
            network_interfaces,
            network_acls,
            route_tables,
            subnets[i].id,
            subnets[i].vpc_id,
        );
    }
}

proof fn lemma_items_of_sum<R>(
    a: Seq<(Seq<char>, R)>,
    b: Seq<(Seq<char>, R)>,
    owner: Seq<char>,
)
    ensures
        crate::graph::groups::items_of(a + b, owner) == crate::graph::groups::items_of(a, owner)
            + crate::graph::groups::items_of(b, owner),
    decreases b.len(),
{
    if b.len() == 0 {
        assert(a + b =~= a);
        assert(crate::graph::groups::items_of(b, owner) =~= Seq::empty());
    } else {
        lemma_items_of_sum(a, b.drop_last(), owner);
        assert((a + b).drop_last() =~= a + b.drop_last());
        assert((a + b).last() == b.last());
    }
    assert(crate::graph::groups::items_of(a + b, owner) =~= crate::graph::groups::items_of(a, owner)
        + crate::graph::groups::items_of(b, owner));
}

proof fn lemma_first_placing_interface(
    network_interfaces: Seq<NetworkInterface>,
    subnet_id: Seq<char>,
    vpc_id: Seq<char>,
    k: int,
    n: int,
)
    requires
        0 <= k < network_interfaces.len(),
        0 <= n <= network_interfaces.len(),
        network_interfaces[k].subnet_id.deep_view() == Some(subnet_id),
        network_interfaces[k].vpc_id.deep_view() == Some(vpc_id),
        forall|j: int|
            0 <= j < k ==> (#[trigger] network_interfaces[j]).subnet_id.deep_view() != Some(
                subnet_id,
            ),
    ensures
        ({
            let items = crate::graph::groups::items_of(
                crate::ingest::map::joined_map(
                    network_interfaces.take(n),
                    crate::ingest::map::stubs::eni_subnet(),
                ),
                subnet_id,
            );
            if n <= k {
                items.len() == 0
            } else {
                items.len() > 0 && items[0] == vpc_id
            }
        }),
    decreases n,
{
    let f = crate::ingest::map::stubs::eni_subnet();
    if n > 0 {
        lemma_first_placing_interface(network_interfaces, subnet_id, vpc_id, k, n - 1);
        crate::ingest::map::lemma_joined_map_step(network_interfaces, f, n - 1);
        let before = crate::ingest::map::joined_map(network_interfaces.take(n - 1), f);
        let added = f(network_interfaces[n - 1]);
        lemma_items_of_sum(before, added, subnet_id);
        reveal_with_fuel(crate::graph::groups::items_of, 3);
        if added.len() > 0 {
            assert(added.drop_last() =~= Seq::empty());
        }
    }
}

/// A subnet that an interface is in lies in the VPC of the first such
/// interface, whatever network ACLs and route tables say of it.
pub proof fn law_interfaces_place_subnets_first(
    account_id: Seq<char>,
    network_acls: Seq<NetworkAcl>,
    route_tables: Seq<RouteTable>,
    network_interfaces: Seq<NetworkInterface>,
    k: int,
    i: int,
)
    requires
        0 <= k < network_interfaces.len(),
        network_interfaces[k].subnet_id is Some,
        network_interfaces[k].vpc_id is Some,
        forall|j: int|
            0 <= j < k ==> (#[trigger] network_interfaces[j]).subnet_id.deep_view()
                != network_interfaces[k].subnet_id.deep_view(),
        ({
            let subnets = crate::ingest::map::stubs::subnet_stubs(
                account_id,
                crate::ingest::map::stubs::subnet_sightings(
                    network_interfaces,
                    network_acls,
                    route_tables,
                ),
            );
            0 <= i < subnets.len() && Some(subnets[i].id)
                == network_interfaces[k].subnet_id.deep_view()
        }),
    ensures
        Some(
            crate::ingest::map::stubs::subnet_stubs(
                account_id,
                crate::ingest::map::stubs::subnet_sightings(
                    network_interfaces,
                    network_acls,
                    route_tables,
                ),
            )[i].vpc_id,
        ) == network_interfaces[k].vpc_id.deep_view(),
{
    let subnet_id = network_interfaces[k].subnet_id->0@;
    let vpc_id = network_interfaces[k].vpc_id->0@;
    let sightings = crate::ingest::map::stubs::subnet_sightings(
        network_interfaces,
        network_acls,
        route_tables,
    );
    let n = network_interfaces.len() as int;
    let p1 = crate::ingest::map::joined_map(
        network_interfaces,
        crate::ingest::map::stubs::eni_subnet(),
    );
    let p2 = crate::ingest::map::joined_map(
        network_acls,
        crate::ingest::map::stubs::acl_subnets(),
    );
    let p3 = crate::ingest::map::joined_map(
        route_tables,
        crate::ingest::map::stubs::table_subnets(),
    );
    lemma_first_placing_interface(network_interfaces, subnet_id, vpc_id, k, n);
    assert(network_interfaces.take(n) =~= network_interfaces);
    lemma_items_of_sum(p1, p2, subnet_id);
    lemma_items_of_sum(p1 + p2, p3, subnet_id);
    crate::graph::groups::law_grouped_is_a_grouping(sightings);
    let groups = crate::graph::groups::grouped(sightings);
    assert(groups[i].1 == crate::graph::groups::items_of(sightings, groups[i].0));
}

/// Each network interface, security group, network ACL and route table becomes
/// one node, in its place, with the ids and names that AWS gives it.
pub proof fn law_nodes_are_what_the_resources_say(
    account_id: Seq<char>,
    security_groups: Seq<SecurityGroup>,
    network_acls: Seq<NetworkAcl>,
    route_tables: Seq<RouteTable>,
    network_interfaces: Seq<NetworkInterface>,
    peerings: Seq<VpcPeeringConnection>,
)
    requires
        crate::ingest::map::topology::graph_batch(
            account_id,
            security_groups,
            network_acls,
            route_tables,
            network_interfaces,
            peerings,
        ) is Ok,
    ensures
        ({
            let batch = crate::ingest::map::topology::graph_batch(
                account_id,
                security_groups,
                network_acls,
                route_tables,
                network_interfaces,
                peerings,
            )->Ok_0;
            &&& batch.enis.len() == network_interfaces.len()
            &&& forall|i: int|
                #![trigger batch.enis[i]]
                0 <= i < batch.enis.len() ==> {
                    let eni = network_interfaces[i];
                    &&& eni.network_interface_id.deep_view() == Some(batch.enis[i].id)
                    &&& eni.vpc_id.deep_view() == Some(batch.enis[i].vpc_id)
                    &&& eni.subnet_id.deep_view() == Some(batch.enis[i].subnet_id)
                    &&& eni.private_ip_address.deep_view() == Some(batch.enis[i].private_ip)
                    &&& eni.description.deep_view() == batch.enis[i].description
                    &&& batch.enis[i].account_id == account_id
                }
            &&& batch.security_groups.len() == security_groups.len()
            &&& forall|i: int|
                #![trigger batch.security_groups[i]]
                0 <= i < batch.security_groups.len() ==> {
                    let sg = security_groups[i];
                    &&& sg.group_id.deep_view() == Some(batch.security_groups[i].id)
                    &&& sg.vpc_id.deep_view() == Some(batch.security_groups[i].vpc_id)
                    &&& sg.group_name.deep_view() == Some(batch.security_groups[i].name)
                    &&& sg.description.deep_view() == batch.security_groups[i].description
                    &&& batch.security_groups[i].account_id == account_id
                }
            &&& batch.network_acls.len() == network_acls.len()
            &&& forall|i: int|
                #![trigger batch.network_acls[i]]
                0 <= i < batch.network_acls.len() ==> {
                    let acl = network_acls[i];
                    &&& acl.network_acl_id.deep_view() == Some(batch.network_acls[i].id)
                    &&& acl.vpc_id.deep_view() == Some(batch.network_acls[i].vpc_id)
                    &&& acl.is_default == Some(batch.network_acls[i].is_default)
                    &&& batch.network_acls[i].account_id == account_id
                }
            &&& batch.route_tables.len() == route_tables.len()
            &&& forall|i: int|
                #![trigger batch.route_tables[i]]
                0 <= i < batch.route_tables.len() ==> {
                    let table = route_tables[i];
                    &&& table.route_table_id.deep_view() == Some(batch.route_tables[i].id)
                    &&& table.vpc_id.deep_view() == Some(batch.route_tables[i].vpc_id)
                    &&& batch.route_tables[i].account_id == account_id
                    &&& batch.route_tables[i].is_main <==> exists|j: int|
                        0 <= j < table.associations@.len() && (
                        #[trigger] table.associations@[j]).main == Some(true)
                }
        }),
{
    let enis = crate::ingest::map::topology::eni_node(account_id);
    let groups = crate::ingest::map::topology::security_group_node(account_id);
    let acls = crate::ingest::map::topology::network_acl_node(account_id);
    let tables = crate::ingest::map::topology::route_table_node(account_id);
    crate::ingest::map::lemma_map_all_ok(network_interfaces, enis);
    crate::ingest::map::lemma_map_all_ok(security_groups, groups);
    crate::ingest::map::lemma_map_all_ok(network_acls, acls);
    crate::ingest::map::lemma_map_all_ok(route_tables, tables);
}

} // verus!
