//! What the views of values say: each field and each variant under its own
//! name.
use vstd::prelude::*;

use crate::domain::finding::{Reachability, ReachabilityFinding};
use crate::domain::rule::{NaclRule, SgRule};
use crate::evaluate::candidates::EniNode;
use crate::evaluate::path::{EndpointCandidate, PathCandidate};
use crate::evaluate::Verdict;
use crate::graph::model::Edge;
use crate::graph::neo4j::EdgeUpsert;
use crate::graph::plan::GraphWrite;
use crate::ports::RoutesToEdge;

verus! {

/// The view of an interface keeps its egress rules as egress rules, its ingress
/// rules as ingress rules, and every id where it belongs.
pub proof fn law_view_of_an_interface(eni: EniNode)
    ensures
        eni.deep_view().id == eni.id@,
        eni.deep_view().vpc_id == eni.vpc_id@,
        eni.deep_view().subnet_id == eni.subnet_id@,
        eni.deep_view().private_ip == eni.private_ip@,
        eni.deep_view().security_group_ids == eni.security_group_ids.deep_view(),
        eni.deep_view().egress_rules == eni.egress_rules.deep_view(),
        eni.deep_view().ingress_rules == eni.ingress_rules.deep_view(),
        eni.deep_view().nacl_rules == eni.nacl_rules.deep_view(),
        eni.deep_view().route_table_id == eni.route_table_id.deep_view(),
{
}

/// The view of a candidate keeps its source as the source and its destination
/// as the destination, and of each its rules, groups and ids.
pub proof fn law_view_of_a_candidate(candidate: PathCandidate, endpoint: EndpointCandidate)
    ensures
        candidate.deep_view().source == candidate.source.deep_view(),
        candidate.deep_view().destination == candidate.destination.deep_view(),
        candidate.deep_view().route_exists == candidate.route_exists,
        candidate.deep_view().traffic == candidate.traffic,
        candidate.deep_view().destination_boundary == candidate.destination_boundary@,
        endpoint.deep_view().eni_id == endpoint.eni_id@,
        endpoint.deep_view().subnet_id == endpoint.subnet_id@,
        endpoint.deep_view().peer_security_group_ids
            == endpoint.peer_security_group_ids.deep_view(),
        endpoint.deep_view().security_group_rules == endpoint.security_group_rules.deep_view(),
        endpoint.deep_view().nacl_rules == endpoint.nacl_rules.deep_view(),
{
}

/// The view of a rule keeps its direction, its protocol, its target or block,
/// and what it does.
pub proof fn law_view_of_a_rule(rule: SgRule, acl_rule: NaclRule)
    ensures
        rule.deep_view().direction == rule.direction,
        rule.deep_view().protocol == rule.protocol@,
        rule.deep_view().resolved == rule.resolved,
        rule.deep_view().port_range is Some <==> rule.port_range is Some,
        rule.target matches crate::domain::rule::RuleTarget::Cidr { cidr }
            ==> rule.deep_view().target == (crate::domain::rule::RuleTargetView::Cidr {
            cidr: cidr@,
        }),
        rule.target matches crate::domain::rule::RuleTarget::SecurityGroupRef { security_group_id }
            ==> rule.deep_view().target == (
        crate::domain::rule::RuleTargetView::SecurityGroupRef {
            security_group_id: security_group_id@,
        }),
        acl_rule.deep_view().rule_number == acl_rule.rule_number,
        acl_rule.deep_view().direction == acl_rule.direction,
        acl_rule.deep_view().protocol == acl_rule.protocol@,
        acl_rule.deep_view().cidr == acl_rule.cidr@,
        acl_rule.deep_view().action == acl_rule.action,
        acl_rule.deep_view().port_range is Some <==> acl_rule.port_range is Some,
{
}

/// The view of an edge is of the same kind: an ingress edge is viewed as an
/// ingress edge and an egress edge as an egress edge, with its owner and rule.
pub proof fn law_view_of_an_edge(edge: Edge, route: RoutesToEdge)
    ensures
        edge is HasSg <==> edge.deep_view() is HasSg,
        edge is InSubnet <==> edge.deep_view() is InSubnet,
        edge is ProtectedBy <==> edge.deep_view() is ProtectedBy,
        edge is UsesRouteTable <==> edge.deep_view() is UsesRouteTable,
        edge is RoutesTo <==> edge.deep_view() is RoutesTo,
        edge matches Edge::AllowsIngress { security_group_id, rule } ==> edge.deep_view()
            == (crate::graph::model::EdgeView::AllowsIngress {
            security_group_id: security_group_id@,
            rule: rule.deep_view(),
        }),
        edge matches Edge::AllowsEgress { security_group_id, rule } ==> edge.deep_view()
            == (crate::graph::model::EdgeView::AllowsEgress {
            security_group_id: security_group_id@,
            rule: rule.deep_view(),
        }),
        edge matches Edge::HasRule { network_acl_id, rule } ==> edge.deep_view()
            == (crate::graph::model::EdgeView::HasRule {
            network_acl_id: network_acl_id@,
            rule: rule.deep_view(),
        }),
        route.deep_view().route_table_id == route.route_table_id@,
        route.deep_view().destination_cidr == route.destination_cidr@,
        route.deep_view().target_vpc_id == route.target_vpc_id.deep_view(),
        route.deep_view().resolved == route.resolved,
{
}

/// The view of a write is of the same kind, and that of a statement keeps its
/// edge type, its text and its rows.
pub proof fn law_view_of_a_write(write: GraphWrite, upsert: EdgeUpsert)
    ensures
        write is AllowsIngress <==> write.deep_view() is AllowsIngress,
        write is AllowsEgress <==> write.deep_view() is AllowsEgress,
        write is HasRules <==> write.deep_view() is HasRules,
        write is RoutesTo <==> write.deep_view() is RoutesTo,
        write is HasSg <==> write.deep_view() is HasSg,
        write is InSubnet <==> write.deep_view() is InSubnet,
        write is ProtectedBy <==> write.deep_view() is ProtectedBy,
        write is UsesRouteTable <==> write.deep_view() is UsesRouteTable,
        upsert.deep_view().edge_type == upsert.edge_type@,
        upsert.deep_view().statement == upsert.statement@,
        upsert.deep_view().rows == upsert.rows.deep_view(),
{
}

/// The view of a finding keeps its outcome and its severity, and that of a
/// verdict says the same.
pub proof fn law_view_of_a_finding(finding: ReachabilityFinding, verdict: Verdict)
    ensures
        finding.deep_view().source == finding.source@,
        finding.deep_view().destination_boundary == finding.destination_boundary@,
        finding.deep_view().computed_at == finding.computed_at@,
        finding.deep_view().severity == finding.severity,
        finding.reachability is Reachable <==> finding.deep_view().reachability is Reachable,
        finding.reachability is NotReachable <==> finding.deep_view().reachability is NotReachable,
        finding.reachability matches Reachability::Indeterminate { layers }
            ==> finding.deep_view().reachability
            == (crate::domain::finding::ReachabilityView::Indeterminate { layers: layers@ }),
        verdict is Allowed <==> verdict.deep_view() is Allowed,
        verdict is Denied <==> verdict.deep_view() is Denied,
        verdict is Indeterminate <==> verdict.deep_view() is Indeterminate,
{
}

} // verus!
