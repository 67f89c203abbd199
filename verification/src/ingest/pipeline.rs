//! The ingestion pipeline between collecting and writing: which resources are
//! mapped, what is written, and what is reported.
//!
//! A single resource that cannot be mapped is left out with a warning and the
//! run goes on, whether the fault is in the resource itself, in one of its
//! rules or in one of its memberships. A failure to collect or to write fails
//! the run: a partial graph would look like that of a clean, smaller account.
use vstd::prelude::*;

use crate::error::{GraphWriteError, IngestError, MappingError};
use crate::graph::model::{Edge, GraphBatch};
use crate::graph::plan::{plan_writes, GraphWrite};
use crate::ingest::aws::{
    NetworkAcl, NetworkInterface, RouteTable, SecurityGroup, VpcPeeringConnection,
};
use crate::ingest::map::append_items;
use crate::ingest::map::topology::{build_graph_batch, map_route_table_node};
use crate::ingest::map::whole::{map_whole_acl, map_whole_group};
use crate::ingest::settle::{group_ids, map_settled_eni, settle_edges};
use crate::ports::EniRecord;

verus! {

/// The kind of AWS resource that a warning or a count refers to.
#[derive(Debug, Clone, Copy, PartialEq, Eq, PartialOrd, Ord)]
pub enum ResourceKind {
    Eni,
    SecurityGroup,
    NetworkAcl,
    RouteTable,
    VpcPeeringConnection,
}

impl DeepView for ResourceKind {
    type V = ResourceKind;

    open spec fn deep_view(&self) -> ResourceKind {
        *self
    }
}

/// Why a resource could not be mapped and was left out of the graph.
#[derive(Debug, Clone, PartialEq, Eq)]
#[non_exhaustive]
pub enum IngestWarningReason {
    /// A required field of the resource was missing or malformed.
    InvalidField { field: &'static str, reason: String },
}

/// A resource that could not be mapped and was left out of the graph.
#[derive(Debug, Clone, PartialEq, Eq)]
pub struct IngestWarning {
    pub resource_id: String,
    pub resource_kind: ResourceKind,
    pub reason: IngestWarningReason,
}

/// What an `IngestWarning` holds.
pub ghost struct IngestWarningView {
    pub resource_id: Seq<char>,
    pub resource_kind: ResourceKind,
    pub field: Seq<char>,
    pub reason: Seq<char>,
}

impl DeepView for IngestWarning {
    type V = IngestWarningView;

    open spec fn deep_view(&self) -> IngestWarningView {
        match self.reason {
            IngestWarningReason::InvalidField { field, reason } => IngestWarningView {
                resource_id: self.resource_id@,
                resource_kind: self.resource_kind,
                field: field@,
                reason: reason@,
            },
        }
    }
}

/// The outcome of one ingestion run. Counts and unresolved references tell a
/// clean, empty account apart from a partially failed ingestion.
#[derive(Debug, PartialEq, Eq)]
pub struct IngestReport {
    /// Number of each resource kind written to the graph, each kind once and
    /// in ascending order.
    pub counts: Vec<(ResourceKind, usize)>,
    /// Number of rule and route edges that are not resolved.
    pub unresolved_references: usize,
    /// Wall-clock time the run took.
    pub duration: std::time::Duration,
    /// Resources that were left out.
    pub non_fatal: Vec<IngestWarning>,
}

/// The warning for an error of mapping a resource of `kind`.
pub open spec fn warning_for(
    kind: ResourceKind,
    error: crate::error::MappingErrorView,
) -> IngestWarningView {
    match error {
        crate::error::MappingErrorView::InvalidField { resource_id, field, reason } => {
            IngestWarningView { resource_id, resource_kind: kind, field, reason }
        },
    }
}

/// Those of `items` that can be mapped, in order.
pub open spec fn mappable<T, V>(
    items: Seq<T>,
    f: spec_fn(T) -> Result<V, crate::error::MappingErrorView>,
) -> Seq<T>
    decreases items.len(),
{
    if items.len() == 0 {
        Seq::empty()
    } else if f(items.last()) is Ok {
        mappable(items.drop_last(), f).push(items.last())
    } else {
        mappable(items.drop_last(), f)
    }
}

/// One warning for each of `items` that cannot be mapped, in order.
pub open spec fn mapping_warnings<T, V>(
    items: Seq<T>,
    f: spec_fn(T) -> Result<V, crate::error::MappingErrorView>,
    kind: ResourceKind,
) -> Seq<IngestWarningView>
    decreases items.len(),
{
    if items.len() == 0 {
        Seq::empty()
    } else {
        match f(items.last()) {
            Ok(_) => mapping_warnings(items.drop_last(), f, kind),
            Err(error) => mapping_warnings(items.drop_last(), f, kind).push(
                warning_for(kind, error),
            ),
        }
    }
}

/// Every resource is either kept or warned of.
pub proof fn law_no_resource_vanishes<T, V>(
    items: Seq<T>,
    f: spec_fn(T) -> Result<V, crate::error::MappingErrorView>,
    kind: ResourceKind,
)
    ensures
        mappable(items, f).len() + mapping_warnings(items, f, kind).len() == items.len(),
    decreases items.len(),
{
    if items.len() > 0 {
        law_no_resource_vanishes(items.drop_last(), f, kind);
    }
}

/// What is kept can be mapped.
pub proof fn law_kept_resources_map<T, V>(
    items: Seq<T>,
    f: spec_fn(T) -> Result<V, crate::error::MappingErrorView>,
)
    ensures
        crate::ingest::map::map_all(mappable(items, f), f) is Ok,
    decreases items.len(),
{
    if items.len() > 0 {
        law_kept_resources_map(items.drop_last(), f);
        if f(items.last()) is Ok {
            let kept = mappable(items.drop_last(), f);
            assert(kept.push(items.last()).drop_last() =~= kept);
        }
    }
}

/// Keeps the items that `try_map_one` maps, and adds a warning for each other.
fn filter_mappable<T, R: DeepView, F: Fn(&T, &str) -> Result<R, MappingError>>(
    account_id: &str,
    items: Vec<T>,
    try_map_one: F,
    resource_kind: ResourceKind,
    warnings: &mut Vec<IngestWarning>,
    Ghost(f): Ghost<spec_fn(T) -> Result<R::V, crate::error::MappingErrorView>>,
) -> (kept: Vec<T>)
    requires
        forall|item: T| call_requires(try_map_one, (&item, account_id)),
        forall|item: T, result: Result<R, MappingError>|
            call_ensures(try_map_one, (&item, account_id), result) ==> crate::ingest::map::agrees(
                result,
                f(item),
            ),
    ensures
        kept@ == mappable(items@, f),
        final(warnings).deep_view() == old(warnings).deep_view() + mapping_warnings(
            items@,
            f,
            resource_kind,
        ),
{
    let ghost all = items@;
    let ghost before = warnings.deep_view();
    let mut kept: Vec<T> = Vec::new();
    let ghost mut n: int = 0;
    assert(all.take(0) =~= Seq::empty());
    assert(before + Seq::<IngestWarningView>::empty() =~= before);
    for item in it: items
        invariant
            it.seq() == all,
            n == it.index(),
            0 <= n <= all.len(),
            kept@ == mappable(all.take(n), f),
            warnings.deep_view() == before + mapping_warnings(all.take(n), f, resource_kind),
            forall|item: T| call_requires(try_map_one, (&item, account_id)),
            forall|item: T, result: Result<R, MappingError>|
                call_ensures(try_map_one, (&item, account_id), result)
                    ==> crate::ingest::map::agrees(result, f(item)),
    {
        assert(all.take(n + 1).drop_last() =~= all.take(n));
        assert(all.take(n + 1).last() == item);
        match try_map_one(&item, account_id) {
            Ok(_) => {
                kept.push(item);
            },
            Err(MappingError::InvalidField { resource_id, field, reason }) => {
                let ghost old_warnings = warnings.deep_view();
                warnings.push(
                    IngestWarning {
                        resource_id,
                        resource_kind,
                        reason: IngestWarningReason::InvalidField { field, reason },
                    },
                );
                assert(warnings.deep_view() =~= old_warnings.push(
                    warnings@.last().deep_view(),
                ));
                assert(warnings.deep_view() =~= before + mapping_warnings(
                    all.take(n + 1),
                    f,
                    resource_kind,
                ));
            },
        }
        proof {
            n = n + 1;
        }
    }
    assert(all.take(n) =~= all);
    kept
}

/// Whether an edge is a rule or route that is not resolved.
pub open spec fn is_unresolved(edge: crate::graph::model::EdgeView) -> bool {
    match edge {
        crate::graph::model::EdgeView::RoutesTo(edge) => !edge.resolved,
        crate::graph::model::EdgeView::AllowsIngress { rule, .. } => !rule.resolved,
        crate::graph::model::EdgeView::AllowsEgress { rule, .. } => !rule.resolved,
        _ => false,
    }
}

/// How many of `edges` are not resolved.
pub open spec fn unresolved_count(edges: Seq<crate::graph::model::EdgeView>) -> nat
    decreases edges.len(),
{
    if edges.len() == 0 {
        0
    } else if is_unresolved(edges.last()) {
        unresolved_count(edges.drop_last()) + 1
    } else {
        unresolved_count(edges.drop_last())
    }
}

/// Counts the edges of `batch` that are not resolved.
pub fn count_unresolved(batch: &GraphBatch) -> (count: usize)
    ensures
        count == unresolved_count(batch.deep_view().edges),
{
    let ghost model = batch.deep_view().edges;
    let mut count: usize = 0;
    let mut i: usize = 0;
    assert(model.take(0) =~= Seq::empty());
    while i < batch.edges.len()
        invariant
            0 <= i <= batch.edges@.len(),
            model == batch.deep_view().edges,
            count <= i,
            count == unresolved_count(model.take(i as int)),
        decreases batch.edges@.len() - i,
    {
        assert(model.take(i + 1).drop_last() =~= model.take(i as int));
        assert(model.take(i + 1).last() == batch.edges@[i as int].deep_view());
        let unresolved = match &batch.edges[i] {
            Edge::RoutesTo(edge) => !edge.resolved,
            Edge::AllowsIngress { rule, .. } => !rule.resolved,
            Edge::AllowsEgress { rule, .. } => !rule.resolved,
            _ => false,
        };
        if unresolved {
            count = count + 1;
        }
        i = i + 1;
    }
    assert(model.take(i as int) =~= model);
    count
}

/// What the API told of an account's network.
#[derive(Debug, PartialEq, Eq)]
pub struct CollectedResources {
    pub security_groups: Vec<SecurityGroup>,
    pub network_acls: Vec<NetworkAcl>,
    pub route_tables: Vec<RouteTable>,
    pub network_interfaces: Vec<NetworkInterface>,
    pub vpc_peering_connections: Vec<VpcPeeringConnection>,
}

/// What is to be written for an account, and what will be reported once it has
/// been.
#[derive(Debug, PartialEq, Eq)]
pub struct IngestPlan {
    /// The writes, in the order in which they are made.
    pub writes: Vec<GraphWrite>,
    /// Number of each resource kind that is written, in ascending order of
    /// kinds.
    pub counts: Vec<(ResourceKind, usize)>,
    /// Number of rule and route edges that are not resolved.
    pub unresolved_references: usize,
    /// Resources that are left out.
    pub non_fatal: Vec<IngestWarning>,
}

/// The security groups that can be mapped.
pub open spec fn kept_groups(account_id: Seq<char>, resources: CollectedResources) -> Seq<
    SecurityGroup,
> {
    mappable(resources.security_groups@, crate::ingest::map::whole::whole_group(account_id))
}

/// The ids of the security groups that are left out.
pub open spec fn missing_groups(
    account_id: Seq<char>,
    resources: CollectedResources,
) -> spec_fn(Seq<char>) -> bool {
    crate::ingest::settle::left_out(
        resources.security_groups@,
        kept_groups(account_id, resources),
    )
}

/// The network interfaces that can be mapped and whose security groups can all
/// be mapped too, as far as they were collected.
pub open spec fn kept_interfaces(account_id: Seq<char>, resources: CollectedResources) -> Seq<
    NetworkInterface,
> {
    mappable(
        resources.network_interfaces@,
        crate::ingest::settle::settled_eni(account_id, missing_groups(account_id, resources)),
    )
}

/// The graph of those resources that can be mapped.
pub open spec fn batch_of_mappable(
    account_id: Seq<char>,
    resources: CollectedResources,
) -> Result<crate::graph::model::GraphBatchView, crate::error::MappingErrorView> {
    crate::ingest::map::topology::graph_batch(
        account_id,
        kept_groups(account_id, resources),
        mappable(resources.network_acls@, crate::ingest::map::whole::whole_acl(account_id)),
        mappable(
            resources.route_tables@,
            crate::ingest::map::topology::route_table_node(account_id),
        ),
        kept_interfaces(account_id, resources),
        resources.vpc_peering_connections@,
    )
}

/// The graph that is written: that of the resources that can be mapped, with
/// every rule unresolved that references a security group that is left out.
pub open spec fn planned_batch(
    account_id: Seq<char>,
    resources: CollectedResources,
) -> crate::graph::model::GraphBatchView {
    let batch = batch_of_mappable(account_id, resources)->Ok_0;
    crate::graph::model::GraphBatchView {
        edges: batch.edges.map_values(
            crate::ingest::settle::settled_edge(missing_groups(account_id, resources)),
        ),
        ..batch
    }
}

/// The warnings for the resources that cannot be mapped: network interfaces,
/// security groups, network ACLs, route tables.
pub open spec fn all_warnings(account_id: Seq<char>, resources: CollectedResources) -> Seq<
    IngestWarningView,
> {
    mapping_warnings(
        resources.network_interfaces@,
        crate::ingest::settle::settled_eni(account_id, missing_groups(account_id, resources)),
        ResourceKind::Eni,
    ) + mapping_warnings(
        resources.security_groups@,
        crate::ingest::map::whole::whole_group(account_id),
        ResourceKind::SecurityGroup,
    ) + mapping_warnings(
        resources.network_acls@,
        crate::ingest::map::whole::whole_acl(account_id),
        ResourceKind::NetworkAcl,
    ) + mapping_warnings(
        resources.route_tables@,
        crate::ingest::map::topology::route_table_node(account_id),
        ResourceKind::RouteTable,
    )
}

/// The counts of a report.
pub open spec fn resource_counts(
    batch: crate::graph::model::GraphBatchView,
    peerings: nat,
) -> Seq<(ResourceKind, nat)> {
    seq![
        (ResourceKind::Eni, batch.enis.len()),
        (ResourceKind::SecurityGroup, batch.security_groups.len()),
        (ResourceKind::NetworkAcl, batch.network_acls.len()),
        (ResourceKind::RouteTable, batch.route_tables.len()),
        (ResourceKind::VpcPeeringConnection, peerings),
    ]
}

/// The counts as numbers.
pub open spec fn count_numbers(counts: Seq<(ResourceKind, usize)>) -> Seq<(ResourceKind, nat)> {
    counts.map_values(|entry: (ResourceKind, usize)| (entry.0, entry.1 as nat))
}

/// Plans the ingestion of an account: leaves out the resources that cannot be
/// mapped, maps the others into a graph, and plans its writing. No resource
/// makes the planning fail.
pub fn plan_ingest(account_id: &str, resources: CollectedResources) -> (plan: Result<
    IngestPlan,
    IngestError,
>)
    ensures
        plan is Ok,
        plan matches Ok(planned) ==> ({
            let batch = planned_batch(account_id@, resources);
            &&& planned.writes.deep_view() == crate::graph::plan::write_plan(batch)
            &&& count_numbers(planned.counts@) == resource_counts(
                batch,
                resources.vpc_peering_connections@.len(),
            )
            &&& planned.unresolved_references == unresolved_count(batch.edges)
            &&& planned.non_fatal.deep_view() == all_warnings(account_id@, resources)
        }),
{
    let ghost given = resources;
    let mut group_warnings: Vec<IngestWarning> = Vec::new();
    assert(group_warnings.deep_view() =~= Seq::empty());
    let collected_groups = group_ids(&resources.security_groups);
    let security_groups = filter_mappable(
        account_id,
        resources.security_groups,
        map_whole_group,
        ResourceKind::SecurityGroup,
        &mut group_warnings,
        Ghost(crate::ingest::map::whole::whole_group(account_id@)),
    );
    let known_groups = group_ids(&security_groups);
    let ghost gone = missing_groups(account_id@, given);
    assert(crate::ingest::settle::without(
        collected_groups.deep_view(),
        known_groups.deep_view(),
    ) =~= gone);
    let mut warnings: Vec<IngestWarning> = Vec::new();
    assert(warnings.deep_view() =~= Seq::empty());
    let map_interface = |eni: &NetworkInterface, account_id: &str| -> (record: Result<
        EniRecord,
        MappingError,
    >)
        ensures
            crate::ingest::map::agrees(
                record,
                crate::ingest::settle::settled_eni(
                    account_id@,
                    crate::ingest::settle::without(
                        collected_groups.deep_view(),
                        known_groups.deep_view(),
                    ),
                )(*eni),
            ),
        { map_settled_eni(eni, account_id, &collected_groups, &known_groups) };
    let network_interfaces = filter_mappable(
        account_id,
        resources.network_interfaces,
        map_interface,
        ResourceKind::Eni,
        &mut warnings,
        Ghost(crate::ingest::settle::settled_eni(account_id@, gone)),
    );
    append_items(&mut warnings, group_warnings);
    let network_acls = filter_mappable(
        account_id,
        resources.network_acls,
        map_whole_acl,
        ResourceKind::NetworkAcl,
        &mut warnings,
        Ghost(crate::ingest::map::whole::whole_acl(account_id@)),
    );
    let route_tables = filter_mappable(
        account_id,
        resources.route_tables,
        map_route_table_node,
        ResourceKind::RouteTable,
        &mut warnings,
        Ghost(crate::ingest::map::topology::route_table_node(account_id@)),
    );
    assert(warnings.deep_view() =~= all_warnings(account_id@, given));
    let mapped = match build_graph_batch(
        account_id,
        security_groups.as_slice(),
        network_acls.as_slice(),
        route_tables.as_slice(),
        network_interfaces.as_slice(),
        resources.vpc_peering_connections.as_slice(),
    ) {
        Ok(mapped) => mapped,
        Err(source) => {
            proof {
                law_no_resource_fails_the_run(account_id@, given);
            }
            return Err(IngestError::Mapping { source });
        },
    };
    let edges = settle_edges(&collected_groups, &known_groups, mapped.edges);
    let batch = GraphBatch { edges, ..mapped };
    assert(batch.deep_view() == planned_batch(account_id@, given));
    let unresolved_references = count_unresolved(&batch);
    let counts: Vec<(ResourceKind, usize)> = vec![
        (ResourceKind::Eni, batch.enis.len()),
        (ResourceKind::SecurityGroup, batch.security_groups.len()),
        (ResourceKind::NetworkAcl, batch.network_acls.len()),
        (ResourceKind::RouteTable, batch.route_tables.len()),
        (ResourceKind::VpcPeeringConnection, resources.vpc_peering_connections.len()),
    ];
    assert(count_numbers(counts@) =~= resource_counts(
        batch.deep_view(),
        given.vpc_peering_connections@.len(),
    ));
    let writes = plan_writes(batch);
    Ok(IngestPlan { writes, counts, unresolved_references, non_fatal: warnings })
}

/// The outcome of a run whose plan has been written, or not: a failed write
/// fails the run, and nothing is reported of it.
pub fn finish_ingest(
    plan: IngestPlan,
    written: Result<(), GraphWriteError>,
    duration: std::time::Duration,
) -> (outcome: Result<IngestReport, IngestError>)
    ensures
        outcome is Ok <==> written is Ok,
        outcome matches Ok(report) ==> report.counts == plan.counts
            && report.unresolved_references == plan.unresolved_references && report.duration
            == duration && report.non_fatal == plan.non_fatal,
        outcome matches Err(error) ==> error == (IngestError::Write { source: written->Err_0 }),
{
    match written {
        Ok(()) => Ok(
            IngestReport {
                counts: plan.counts,
                unresolved_references: plan.unresolved_references,
                duration,
                non_fatal: plan.non_fatal,
            },
        ),
        Err(source) => Err(IngestError::Write { source }),
    }
}

/// Whatever was collected, the resources that can be mapped make a graph: no
/// malformed resource fails the run.
pub proof fn law_no_resource_fails_the_run(account_id: Seq<char>, resources: CollectedResources)
    ensures
        batch_of_mappable(account_id, resources) is Ok,
{
    law_kept_resources_map(
        resources.security_groups@,
        crate::ingest::map::whole::whole_group(account_id),
    );
    law_kept_resources_map(
        resources.network_acls@,
        crate::ingest::map::whole::whole_acl(account_id),
    );
    law_kept_resources_map(
        resources.route_tables@,
        crate::ingest::map::topology::route_table_node(account_id),
    );
    let gone = missing_groups(account_id, resources);
    law_kept_resources_map(
        resources.network_interfaces@,
        crate::ingest::settle::settled_eni(account_id, gone),
    );
    crate::ingest::map::whole::lemma_whole_maps_both(
        kept_interfaces(account_id, resources),
        crate::ingest::settle::settled_eni(account_id, gone),
        crate::ingest::map::whole::whole_eni(account_id),
        crate::ingest::settle::memberships(gone),
    );
    crate::ingest::map::whole::law_whole_resources_build(
        account_id,
        kept_groups(account_id, resources),
        mappable(resources.network_acls@, crate::ingest::map::whole::whole_acl(account_id)),
        mappable(
            resources.route_tables@,
            crate::ingest::map::topology::route_table_node(account_id),
        ),
        kept_interfaces(account_id, resources),
        resources.vpc_peering_connections@,
    );
}

/// A group that is kept has a node.
proof fn lemma_kept_group_has_node(
    account_id: Seq<char>,
    resources: CollectedResources,
    id: Seq<char>,
)
    requires
        crate::ingest::settle::named(kept_groups(account_id, resources), id),
    ensures
        crate::ingest::map::topology::has_group(planned_batch(account_id, resources), id),
{
    law_no_resource_fails_the_run(account_id, resources);
    let kept = kept_groups(account_id, resources);
    let f = crate::ingest::map::topology::security_group_node(account_id);
    let records = planned_batch(account_id, resources).security_groups;
    crate::ingest::map::lemma_map_all_ok(kept, f);
    let i = choose|i: int|
        0 <= i < kept.len() && ((#[trigger] kept[i]).group_id matches Some(group_id)
            && group_id@ == id);
    assert(f(kept[i]) == Ok::<
        crate::ports::SecurityGroupRecordView,
        crate::error::MappingErrorView,
    >(records[i]));
}

/// Whether an edge joins nodes of a graph depends on the graph's nodes alone.
proof fn lemma_edges_join_the_same_nodes(
    a: crate::graph::model::GraphBatchView,
    b: crate::graph::model::GraphBatchView,
    edge: crate::graph::model::EdgeView,
)
    requires
        b == (crate::graph::model::GraphBatchView { edges: b.edges, ..a }),
    ensures
        crate::ingest::map::topology::joins_known_nodes(edge, a)
            == crate::ingest::map::topology::joins_known_nodes(edge, b),
{
    assert forall|id: Seq<char>|
        crate::ingest::map::topology::has_eni(a, id) == crate::ingest::map::topology::has_eni(
            b,
            id,
        ) by {
        assert(a.enis == b.enis);
    }
    assert forall|id: Seq<char>|
        crate::ingest::map::topology::has_group(a, id) == crate::ingest::map::topology::has_group(
            b,
            id,
        ) by {
        assert(a.security_groups == b.security_groups);
    }
    assert forall|id: Seq<char>|
        crate::ingest::map::topology::has_acl(a, id) == crate::ingest::map::topology::has_acl(
            b,
            id,
        ) by {
        assert(a.network_acls == b.network_acls);
    }
    assert forall|id: Seq<char>|
        crate::ingest::map::topology::has_table(a, id) == crate::ingest::map::topology::has_table(
            b,
            id,
        ) by {
        assert(a.route_tables == b.route_tables);
    }
    assert forall|id: Seq<char>|
        crate::ingest::map::topology::has_subnet(a, id) == crate::ingest::map::topology::has_subnet(
            b,
            id,
        ) by {
        assert(a.subnets == b.subnets);
    }
    assert forall|id: Seq<char>|
        crate::ingest::map::topology::has_vpc(a, id) == crate::ingest::map::topology::has_vpc(
            b,
            id,
        ) by {
        assert(a.vpcs == b.vpcs);
    }
}

/// Every edge of the graph that is written joins nodes of that graph. Where it
/// needs the node of a security group that was collected, the graph has that
/// node too.
pub proof fn law_planned_edges_join_known_nodes(
    account_id: Seq<char>,
    resources: CollectedResources,
    k: int,
)
    requires
        0 <= k < planned_batch(account_id, resources).edges.len(),
    ensures
        crate::ingest::map::topology::joins_known_nodes(
            planned_batch(account_id, resources).edges[k],
            planned_batch(account_id, resources),
        ),
        forall|id: Seq<char>|
            crate::ingest::settle::named(resources.security_groups@, id)
                && #[trigger] crate::ingest::settle::needs_group(
                planned_batch(account_id, resources).edges[k],
                id,
            ) ==> crate::ingest::map::topology::has_group(planned_batch(account_id, resources), id),
{
    law_no_resource_fails_the_run(account_id, resources);
    let batch = batch_of_mappable(account_id, resources)->Ok_0;
    let planned = planned_batch(account_id, resources);
    let gone = missing_groups(account_id, resources);
    let interfaces = kept_interfaces(account_id, resources);
    let edge = batch.edges[k];
    crate::ingest::map::topology::law_edges_join_known_nodes(
        account_id,
        kept_groups(account_id, resources),
        mappable(resources.network_acls@, crate::ingest::map::whole::whole_acl(account_id)),
        mappable(
            resources.route_tables@,
            crate::ingest::map::topology::route_table_node(account_id),
        ),
        interfaces,
        resources.vpc_peering_connections@,
        k,
    );
    assert(planned.edges[k] == crate::ingest::settle::settled_edge(gone)(edge));
    lemma_edges_join_the_same_nodes(batch, planned, edge);
    assert forall|id: Seq<char>|
        crate::ingest::settle::named(resources.security_groups@, id)
            && #[trigger] crate::ingest::settle::needs_group(
            planned.edges[k],
            id,
        ) implies crate::ingest::map::topology::has_group(planned, id) by {
        if edge is HasSg {
            let i = choose|i: int|
                0 <= i < interfaces.len() && crate::ingest::map::topology::is_member(
                    #[trigger] interfaces[i],
                    id,
                );
            let f = crate::ingest::settle::settled_eni(account_id, gone);
            law_kept_resources_map(resources.network_interfaces@, f);
            crate::ingest::map::lemma_map_all_ok(interfaces, f);
            assert(f(interfaces[i]) is Ok);
            crate::ingest::settle::law_kept_interface_has_its_groups(
                account_id,
                gone,
                interfaces[i],
                id,
            );
        } else {
            crate::ingest::settle::law_no_rule_needs_a_missing_group(edge, gone, id);
        }
        assert(!gone(id));
        lemma_kept_group_has_node(account_id, resources, id);
    }
}

} // verus!
