//! Ingesting an account: which resources are kept, what is said of the others,
//! and what is counted.
use vstd::prelude::*;

use crate::ingest::aws::{NetworkAcl, NetworkInterface, RouteTable, SecurityGroup};
use crate::ingest::pipeline::{CollectedResources, ResourceKind};

verus! {

/// The resources that are kept are those that can be mapped, in their order, and
/// each of the others has a warning of its own, in their order too, which names
/// its kind and what is wrong with which field.
pub proof fn law_kept_or_warned<T, V>(
    items: Seq<T>,
    f: spec_fn(T) -> Result<V, crate::error::MappingErrorView>,
    kind: ResourceKind,
)
    ensures
        crate::ingest::pipeline::mappable(items, f) == items.filter(|item: T| f(item) is Ok),
        crate::ingest::pipeline::mapping_warnings(items, f, kind) == items.filter(
            |item: T| f(item) is Err,
        ).map_values(
            |item: T|
                crate::ingest::pipeline::IngestWarningView {
                    resource_id: f(item)->Err_0->resource_id,
                    resource_kind: kind,
                    field: f(item)->Err_0->field,
                    reason: f(item)->Err_0->reason,
                },
        ),
    decreases items.len(),
{
    reveal(Seq::filter);
    let good = |item: T| f(item) is Ok;
    let bad = |item: T| f(item) is Err;
    let warn = |item: T|
        crate::ingest::pipeline::IngestWarningView {
            resource_id: f(item)->Err_0->resource_id,
            resource_kind: kind,
            field: f(item)->Err_0->field,
            reason: f(item)->Err_0->reason,
        };
    if items.len() > 0 {
        law_kept_or_warned(items.drop_last(), f, kind);
    }
    assert(crate::ingest::pipeline::mappable(items, f) =~= items.filter(good));
    assert(crate::ingest::pipeline::mapping_warnings(items, f, kind) =~= items.filter(
        bad,
    ).map_values(warn));
}

/// A security group can be kept exactly where it has an id, a VPC and a name,
/// and its rules can be read.
pub proof fn law_which_groups_are_kept(account_id: Seq<char>, sg: SecurityGroup)
    ensures
        crate::ingest::map::whole::whole_group(account_id)(sg) is Ok <==> sg.group_id is Some
            && sg.vpc_id is Some && sg.group_name is Some
            && crate::ingest::map::sg::security_group_rules(sg, account_id) is Ok,
{
}

/// A network ACL can be kept exactly where it has an id and a VPC, says whether
/// it is a default, and its entries can be read.
pub proof fn law_which_acls_are_kept(account_id: Seq<char>, acl: NetworkAcl)
    ensures
        crate::ingest::map::whole::whole_acl(account_id)(acl) is Ok <==> acl.network_acl_id is Some
            && acl.vpc_id is Some && acl.is_default is Some
            && crate::ingest::map::nacl::network_acl_rules(acl) is Ok,
{
}

/// A route table can be kept exactly where it has an id and a VPC.
pub proof fn law_which_tables_are_kept(account_id: Seq<char>, table: RouteTable)
    ensures
        crate::ingest::map::topology::route_table_node(account_id)(table) is Ok
            <==> table.route_table_id is Some && table.vpc_id is Some,
{
}

/// A network interface can be kept exactly where it has an id, a VPC, a subnet
/// and an address, all its groups have ids, and none of them is gone.
pub proof fn law_which_interfaces_are_kept(
    account_id: Seq<char>,
    gone: spec_fn(Seq<char>) -> bool,
    eni: NetworkInterface,
)
    ensures
        crate::ingest::settle::settled_eni(account_id, gone)(eni) is Ok <==> {
            &&& eni.network_interface_id is Some
            &&& eni.vpc_id is Some
            &&& eni.subnet_id is Some
            &&& eni.private_ip_address is Some
            &&& forall|i: int|
                0 <= i < eni.groups@.len() ==> (#[trigger] eni.groups@[i]).group_id is Some && !gone(
                    eni.groups@[i].group_id->0@,
                )
        },
{
    let id = crate::ingest::map::topology::given(eni.network_interface_id);
    let edge = crate::ingest::map::topology::has_sg_edge(id);
    let member = crate::ingest::settle::membership(id, gone);
    crate::ingest::map::lemma_map_all_ok(eni.groups@, edge);
    crate::ingest::map::lemma_map_all_ok(eni.groups@, member);
    assert forall|i: int| 0 <= i < eni.groups@.len() implies (edge(#[trigger] eni.groups@[i]) is Ok
        && member(eni.groups@[i]) is Ok) == (eni.groups@[i].group_id is Some && !gone(
        eni.groups@[i].group_id->0@,
    )) by {}
    let whole = crate::ingest::settle::settled_eni(account_id, gone)(eni);
    if whole is Ok {
        assert forall|i: int| 0 <= i < eni.groups@.len() implies (
        #[trigger] eni.groups@[i]).group_id is Some && !gone(eni.groups@[i].group_id->0@) by {
            assert(edge(eni.groups@[i]) is Ok && member(eni.groups@[i]) is Ok);
        }
    }
    if forall|i: int|
        0 <= i < eni.groups@.len() ==> (#[trigger] eni.groups@[i]).group_id is Some && !gone(
            eni.groups@[i].group_id->0@,
        ) {
        assert forall|i: int| 0 <= i < eni.groups@.len() implies edge(
            #[trigger] eni.groups@[i],
        ) is Ok by {
            assert(eni.groups@[i].group_id is Some);
        }
        assert forall|i: int| 0 <= i < eni.groups@.len() implies member(
            #[trigger] eni.groups@[i],
        ) is Ok by {
            assert(eni.groups@[i].group_id is Some && !gone(eni.groups@[i].group_id->0@));
        }
    }
}

/// A group is gone exactly where one with its id was collected and none with
/// its id is kept.
pub proof fn law_which_groups_are_gone(
    account_id: Seq<char>,
    resources: CollectedResources,
    id: Seq<char>,
)
    ensures
        crate::ingest::pipeline::missing_groups(account_id, resources)(id) <==> {
            &&& exists|i: int|
                0 <= i < resources.security_groups@.len() && (
                #[trigger] resources.security_groups@[i]).group_id.deep_view() == Some(id)
            &&& forall|i: int|
                0 <= i < resources.security_groups@.len() && (
                #[trigger] resources.security_groups@[i]).group_id.deep_view() == Some(id)
                    ==> crate::ingest::map::whole::whole_group(account_id)(
                    resources.security_groups@[i],
                ) is Err
        },
{
    let all = resources.security_groups@;
    let f = crate::ingest::map::whole::whole_group(account_id);
    let kept = crate::ingest::pipeline::mappable(all, f);
    lemma_kept_holds(all, f);
    if crate::ingest::settle::named(all, id) {
        let i = choose|i: int|
            0 <= i < all.len() && ((#[trigger] all[i]).group_id matches Some(group_id) && group_id@
                == id);
        assert(all[i].group_id.deep_view() == Some(id));
    }
    if exists|i: int| 0 <= i < all.len() && (#[trigger] all[i]).group_id.deep_view() == Some(id) {
        let i = choose|i: int|
            0 <= i < all.len() && (#[trigger] all[i]).group_id.deep_view() == Some(id);
        assert(all[i].group_id matches Some(group_id) && group_id@ == id);
    }
    if crate::ingest::settle::named(kept, id) {
        let k = choose|k: int|
            0 <= k < kept.len() && ((#[trigger] kept[k]).group_id matches Some(group_id)
                && group_id@ == id);
        assert(kept.contains(kept[k]));
        let i = choose|i: int| 0 <= i < all.len() && all[i] == kept[k];
        assert(all[i].group_id.deep_view() == Some(id));
        assert(f(all[i]) is Ok);
    } else {
        assert forall|i: int|
            0 <= i < all.len() && (#[trigger] all[i]).group_id.deep_view() == Some(
                id,
            ) implies f(all[i]) is Err by {
            if f(all[i]) is Ok {
                assert(kept.contains(all[i]));
                let k = choose|k: int| 0 <= k < kept.len() && kept[k] == all[i];
                assert(kept[k].group_id matches Some(group_id) && group_id@ == id);
            }
        }
    }
}

proof fn lemma_kept_holds<T, V>(
    items: Seq<T>,
    f: spec_fn(T) -> Result<V, crate::error::MappingErrorView>,
)
    ensures
        forall|item: T| #[trigger]
            crate::ingest::pipeline::mappable(items, f).contains(item) <==> items.contains(item)
                && f(item) is Ok,
    decreases items.len(),
{
    let kept = crate::ingest::pipeline::mappable(items, f);
    if items.len() > 0 {
        let front = items.drop_last();
        let before = crate::ingest::pipeline::mappable(front, f);
        lemma_kept_holds(front, f);
        assert forall|item: T| #[trigger] kept.contains(item) == (items.contains(item) && f(
            item,
        ) is Ok) by {
            if kept.contains(item) {
                let k = choose|k: int| 0 <= k < kept.len() && kept[k] == item;
                if k < before.len() {
                    assert(before[k] == item);
                    assert(before.contains(item));
                    let i = choose|i: int| 0 <= i < front.len() && front[i] == item;
                    assert(items[i] == item);
                } else {
                    assert(items[items.len() - 1] == item);
                }
            }
            if items.contains(item) && f(item) is Ok {
                let i = choose|i: int| 0 <= i < items.len() && items[i] == item;
                if i < front.len() {
                    assert(front[i] == item);
                    assert(before.contains(item));
                    let k = choose|k: int| 0 <= k < before.len() && before[k] == item;
                    assert(kept[k] == item);
                } else {
                    assert(kept[before.len() as int] == item);
                }
            }
        }
    }
}

/// What settling does to an edge: a rule that refers to a group that is gone
/// becomes unresolved. Nothing else changes.
pub proof fn law_settled_edges(
    account_id: Seq<char>,
    resources: CollectedResources,
    k: int,
)
    requires
        0 <= k < crate::ingest::pipeline::planned_batch(account_id, resources).edges.len(),
    ensures
        ({
            let built = crate::ingest::pipeline::batch_of_mappable(account_id, resources)->Ok_0;
            let planned = crate::ingest::pipeline::planned_batch(account_id, resources);
            let gone = crate::ingest::pipeline::missing_groups(account_id, resources);
            let changes = |rule: crate::domain::rule::SgRuleView|
                rule.target matches crate::domain::rule::RuleTargetView::SecurityGroupRef {
                    security_group_id,
                } && gone(security_group_id);
            &&& planned.edges.len() == built.edges.len()
            &&& match (built.edges[k], planned.edges[k]) {
                (
                    crate::graph::model::EdgeView::AllowsIngress { security_group_id: a, rule: old },
                    crate::graph::model::EdgeView::AllowsIngress { security_group_id: b, rule: new },
                ) => a == b && is_settled(old, new, changes(old)),
                (
                    crate::graph::model::EdgeView::AllowsEgress { security_group_id: a, rule: old },
                    crate::graph::model::EdgeView::AllowsEgress { security_group_id: b, rule: new },
                ) => a == b && is_settled(old, new, changes(old)),
                (old, new) => old == new && !(old is AllowsIngress) && !(old is AllowsEgress),
            }
        }),
{
}

/// Whether `new` is `old`, made unresolved where it `changes`.
pub open spec fn is_settled(
    old_rule: crate::domain::rule::SgRuleView,
    new_rule: crate::domain::rule::SgRuleView,
    changes: bool,
) -> bool {
    &&& new_rule.direction == old_rule.direction
    &&& new_rule.protocol == old_rule.protocol
    &&& new_rule.port_range == old_rule.port_range
    &&& new_rule.target == old_rule.target
    &&& new_rule.resolved == (old_rule.resolved && !changes)
}

/// The nodes that are planned are those that were built, one per kept resource,
/// and the report counts them, with every peering connection that was collected.
pub proof fn law_report_counts(account_id: Seq<char>, resources: CollectedResources)
    ensures
        ({
            let planned = crate::ingest::pipeline::planned_batch(account_id, resources);
            let counts = crate::ingest::pipeline::resource_counts(
                planned,
                resources.vpc_peering_connections@.len(),
            );
            &&& counts.len() == 5
            &&& counts[0] == (
                ResourceKind::Eni,
                crate::ingest::pipeline::kept_interfaces(account_id, resources).len(),
            )
            &&& counts[1] == (
                ResourceKind::SecurityGroup,
                crate::ingest::pipeline::kept_groups(account_id, resources).len(),
            )
            &&& counts[2] == (
                ResourceKind::NetworkAcl,
                resources.network_acls@.filter(
                    |acl: NetworkAcl| crate::ingest::map::whole::whole_acl(account_id)(acl) is Ok,
                ).len(),
            )
            &&& counts[3] == (
                ResourceKind::RouteTable,
                resources.route_tables@.filter(
                    |table: RouteTable|
                        crate::ingest::map::topology::route_table_node(account_id)(table) is Ok,
                ).len(),
            )
            &&& counts[4] == (
                ResourceKind::VpcPeeringConnection,
                resources.vpc_peering_connections@.len(),
            )
        }),
{
    crate::ingest::pipeline::law_no_resource_fails_the_run(account_id, resources);
    law_kept_or_warned(
        resources.network_acls@,
        crate::ingest::map::whole::whole_acl(account_id),
        ResourceKind::NetworkAcl,
    );
    law_kept_or_warned(
        resources.route_tables@,
        crate::ingest::map::topology::route_table_node(account_id),
        ResourceKind::RouteTable,
    );
    crate::laws::topology::law_nodes_are_what_the_resources_say(
        account_id,
        crate::ingest::pipeline::kept_groups(account_id, resources),
        crate::ingest::pipeline::mappable(
            resources.network_acls@,
            crate::ingest::map::whole::whole_acl(account_id),
        ),
        crate::ingest::pipeline::mappable(
            resources.route_tables@,
            crate::ingest::map::topology::route_table_node(account_id),
        ),
        crate::ingest::pipeline::kept_interfaces(account_id, resources),
        resources.vpc_peering_connections@,
    );
}

/// An unresolved reference is a rule or a route that is not resolved, and each
/// is counted once.
pub proof fn law_unresolved_references(edges: Seq<crate::graph::model::EdgeView>)
    ensures
        crate::ingest::pipeline::unresolved_count(edges) == edges.filter(
            |edge: crate::graph::model::EdgeView|
                match edge {
                    crate::graph::model::EdgeView::RoutesTo(route) => !route.resolved,
                    crate::graph::model::EdgeView::AllowsIngress { rule, .. } => !rule.resolved,
                    crate::graph::model::EdgeView::AllowsEgress { rule, .. } => !rule.resolved,
                    crate::graph::model::EdgeView::HasSg(_) => false,
                    crate::graph::model::EdgeView::InSubnet(_) => false,
                    crate::graph::model::EdgeView::ProtectedBy(_) => false,
                    crate::graph::model::EdgeView::UsesRouteTable(_) => false,
                    crate::graph::model::EdgeView::HasRule { .. } => false,
                },
        ).len(),
    decreases edges.len(),
{
    reveal(Seq::filter);
    if edges.len() > 0 {
        law_unresolved_references(edges.drop_last());
    }
}

/// Warnings come for interfaces first, then for security groups, network ACLs
/// and route tables, and there are as many as resources that are not kept.
pub proof fn law_warnings_by_kind(account_id: Seq<char>, resources: CollectedResources, k: int)
    requires
        0 <= k < crate::ingest::pipeline::all_warnings(account_id, resources).len(),
    ensures
        ({
            let warnings = crate::ingest::pipeline::all_warnings(account_id, resources);
            let interfaces = resources.network_interfaces@.len()
                - crate::ingest::pipeline::kept_interfaces(account_id, resources).len();
            let groups = interfaces + resources.security_groups@.len()
                - crate::ingest::pipeline::kept_groups(account_id, resources).len();
            let acls = groups + resources.network_acls@.filter(
                |acl: NetworkAcl| crate::ingest::map::whole::whole_acl(account_id)(acl) is Err,
            ).len();
            &&& k < interfaces <==> warnings[k].resource_kind == ResourceKind::Eni
            &&& interfaces <= k < groups <==> warnings[k].resource_kind
                == ResourceKind::SecurityGroup
            &&& groups <= k < acls <==> warnings[k].resource_kind == ResourceKind::NetworkAcl
            &&& acls <= k <==> warnings[k].resource_kind == ResourceKind::RouteTable
        }),
{
    let f1 = crate::ingest::settle::settled_eni(
        account_id,
        crate::ingest::pipeline::missing_groups(account_id, resources),
    );
    let f2 = crate::ingest::map::whole::whole_group(account_id);
    let f3 = crate::ingest::map::whole::whole_acl(account_id);
    let f4 = crate::ingest::map::topology::route_table_node(account_id);
    crate::ingest::pipeline::law_no_resource_vanishes(
        resources.network_interfaces@,
        f1,
        ResourceKind::Eni,
    );
    crate::ingest::pipeline::law_no_resource_vanishes(
        resources.security_groups@,
        f2,
        ResourceKind::SecurityGroup,
    );
    law_kept_or_warned(resources.network_interfaces@, f1, ResourceKind::Eni);
    law_kept_or_warned(resources.security_groups@, f2, ResourceKind::SecurityGroup);
    law_kept_or_warned(resources.network_acls@, f3, ResourceKind::NetworkAcl);
    law_kept_or_warned(resources.route_tables@, f4, ResourceKind::RouteTable);
    let w1 = crate::ingest::pipeline::mapping_warnings(
        resources.network_interfaces@,
        f1,
        ResourceKind::Eni,
    );
    let w2 = crate::ingest::pipeline::mapping_warnings(
        resources.security_groups@,
        f2,
        ResourceKind::SecurityGroup,
    );
    let w3 = crate::ingest::pipeline::mapping_warnings(
        resources.network_acls@,
        f3,
        ResourceKind::NetworkAcl,
    );
    let w4 = crate::ingest::pipeline::mapping_warnings(
        resources.route_tables@,
        f4,
        ResourceKind::RouteTable,
    );
    let all = crate::ingest::pipeline::all_warnings(account_id, resources);
    assert(all == w1 + w2 + w3 + w4);
    if k < w1.len() {
        assert(all[k] == w1[k]);
    } else if k < w1.len() + w2.len() {
        assert(all[k] == w2[k - w1.len()]);
    } else if k < w1.len() + w2.len() + w3.len() {
        assert(all[k] == w3[k - w1.len() - w2.len()]);
    } else {
        assert(all[k] == w4[k - w1.len() - w2.len() - w3.len()]);
    }
}

/// The items of all pages are those of the earlier ones and then those of the
/// last one.
pub proof fn law_pages_are_put_together<T>(
    pages: Seq<Result<Vec<T>, anyhow::Error>>,
    n: int,
    page: int,
    i: int,
)
    requires
        0 <= page < n <= pages.len(),
        forall|k: int| 0 <= k < n ==> (#[trigger] pages[k]) is Ok,
        0 <= i < pages[page]->Ok_0@.len(),
    ensures
        ({
            let items = crate::ingest::collect::all_items(pages, n);
            let before = crate::ingest::collect::all_items(pages, page).len() as int;
            &&& before + i < items.len()
            &&& items[before + i] == pages[page]->Ok_0@[i]
        }),
        crate::ingest::collect::all_items(pages, n).len() == crate::ingest::collect::all_items(
            pages,
            n - 1,
        ).len() + pages[n - 1]->Ok_0@.len(),
        crate::ingest::collect::all_items(pages, 0).len() == 0,
    decreases n,
{
    if page < n - 1 {
        law_pages_are_put_together(pages, n - 1, page, i);
    }
}

} // verus!
