//! Path candidates out of what the graph holds.
//!
//! A destination is any ENI in one of the boundary's VPCs; a source is every
//! other ENI. One candidate is made per pair. Of the boundary's selectors only
//! `vpc_ids` select anything: the graph holds no CIDR blocks of subnets and no
//! tags.
use vstd::prelude::*;

use crate::domain::rule::{NaclRule, SgRule};
use crate::evaluate::path::{EndpointCandidate, PathCandidate};
use crate::evaluate::{Protocol, Traffic};
use crate::net::parse_address;
use crate::text::{holds_text, same_text};

verus! {

/// The lists that a boundary selects destinations by.
#[derive(Debug, Clone, Copy)]
pub struct BoundarySelectors<'a> {
    pub vpc_ids: &'a [String],
    pub cidrs: &'a [String],
    pub tags: &'a [String],
}

/// One ENI as the graph holds it, before it is paired into a candidate.
#[derive(Debug, PartialEq, Eq)]
pub struct EniNode {
    pub id: String,
    pub vpc_id: String,
    pub subnet_id: String,
    pub private_ip: String,
    pub security_group_ids: Vec<String>,
    pub egress_rules: Vec<SgRule>,
    pub ingress_rules: Vec<SgRule>,
    pub nacl_rules: Vec<NaclRule>,
    pub route_table_id: Option<String>,
}

/// What an `EniNode` holds.
pub ghost struct EniNodeView {
    pub id: Seq<char>,
    pub vpc_id: Seq<char>,
    pub subnet_id: Seq<char>,
    pub private_ip: Seq<char>,
    pub security_group_ids: Seq<Seq<char>>,
    pub egress_rules: Seq<crate::domain::rule::SgRuleView>,
    pub ingress_rules: Seq<crate::domain::rule::SgRuleView>,
    pub nacl_rules: Seq<crate::domain::rule::NaclRuleView>,
    pub route_table_id: Option<Seq<char>>,
}

impl DeepView for EniNode {
    type V = EniNodeView;

    open spec fn deep_view(&self) -> EniNodeView {
        EniNodeView {
            id: self.id@,
            vpc_id: self.vpc_id@,
            subnet_id: self.subnet_id@,
            private_ip: self.private_ip@,
            security_group_ids: self.security_group_ids.deep_view(),
            egress_rules: self.egress_rules.deep_view(),
            ingress_rules: self.ingress_rules.deep_view(),
            nacl_rules: self.nacl_rules.deep_view(),
            route_table_id: self.route_table_id.deep_view(),
        }
    }
}

impl EniNodeView {
    /// This ENI as the source of traffic.
    pub open spec fn as_source(self) -> crate::evaluate::path::EndpointCandidateView {
        crate::evaluate::path::EndpointCandidateView {
            eni_id: self.id,
            peer_security_group_ids: self.security_group_ids,
            security_group_rules: self.egress_rules,
            subnet_id: self.subnet_id,
            nacl_rules: self.nacl_rules,
        }
    }

    /// This ENI as the destination of traffic.
    pub open spec fn as_destination(self) -> crate::evaluate::path::EndpointCandidateView {
        crate::evaluate::path::EndpointCandidateView {
            eni_id: self.id,
            peer_security_group_ids: self.security_group_ids,
            security_group_rules: self.ingress_rules,
            subnet_id: self.subnet_id,
            nacl_rules: self.nacl_rules,
        }
    }
}

fn clone_texts(texts: &Vec<String>) -> (copy: Vec<String>)
    ensures
        copy@ == texts@,
{
    let copy = texts.clone();
    assert(copy@ =~= texts@);
    copy
}

fn clone_sg_rules(rules: &Vec<SgRule>) -> (copy: Vec<SgRule>)
    ensures
        copy@ == rules@,
{
    let copy = rules.clone();
    assert(copy@ =~= rules@);
    copy
}

fn clone_nacl_rules(rules: &Vec<NaclRule>) -> (copy: Vec<NaclRule>)
    ensures
        copy@ == rules@,
{
    let copy = rules.clone();
    assert(copy@ =~= rules@);
    copy
}

impl EniNode {
    /// This ENI as the source of traffic, with its egress rules.
    pub fn source_endpoint(&self) -> (endpoint: EndpointCandidate)
        ensures
            endpoint.deep_view() == self.deep_view().as_source(),
            endpoint.security_group_rules.deep_view() == self.egress_rules.deep_view(),
    {
        EndpointCandidate {
            eni_id: self.id.clone(),
            peer_security_group_ids: clone_texts(&self.security_group_ids),
            security_group_rules: clone_sg_rules(&self.egress_rules),
            subnet_id: self.subnet_id.clone(),
            nacl_rules: clone_nacl_rules(&self.nacl_rules),
        }
    }

    /// This ENI as the destination of traffic, with its ingress rules.
    pub fn destination_endpoint(&self) -> (endpoint: EndpointCandidate)
        ensures
            endpoint.deep_view() == self.deep_view().as_destination(),
            endpoint.security_group_rules.deep_view() == self.ingress_rules.deep_view(),
    {
        EndpointCandidate {
            eni_id: self.id.clone(),
            peer_security_group_ids: clone_texts(&self.security_group_ids),
            security_group_rules: clone_sg_rules(&self.ingress_rules),
            subnet_id: self.subnet_id.clone(),
            nacl_rules: clone_nacl_rules(&self.nacl_rules),
        }
    }
}

/// The VPCs that a route table routes to: what the last entry for it says.
pub open spec fn targets_of(
    route_targets: Seq<(Seq<char>, Seq<Seq<char>>)>,
    route_table_id: Seq<char>,
) -> Option<Seq<Seq<char>>>
    decreases route_targets.len(),
{
    if route_targets.len() == 0 {
        None
    } else if route_targets.last().0 == route_table_id {
        Some(route_targets.last().1)
    } else {
        targets_of(route_targets.drop_last(), route_table_id)
    }
}

/// Whether traffic can be routed from `source` to `destination`: within one
/// subnet always; else both must have a route table whose targets are known,
/// and the source's must reach a VPC that the destination's reaches too, or
/// the destination's own VPC.
pub open spec fn routed(
    source: EniNodeView,
    destination: EniNodeView,
    route_targets: Seq<(Seq<char>, Seq<Seq<char>>)>,
) -> bool {
    source.subnet_id == destination.subnet_id || match (
        source.route_table_id,
        destination.route_table_id,
    ) {
        (Some(source_table), Some(destination_table)) => match (
            targets_of(route_targets, source_table),
            targets_of(route_targets, destination_table),
        ) {
            (Some(source_targets), Some(destination_targets)) => exists|i: int|
                0 <= i < source_targets.len() && (destination_targets.contains(
                    #[trigger] source_targets[i],
                ) || source_targets[i] == destination.vpc_id),
            _ => false,
        },
        _ => false,
    }
}

fn find_targets<'a>(
    route_targets: &'a [(String, Vec<String>)],
    route_table_id: &str,
) -> (targets: Option<&'a Vec<String>>)
    ensures
        targets is Some == targets_of(route_targets.deep_view(), route_table_id@) is Some,
        targets matches Some(found) ==> found.deep_view() == targets_of(
            route_targets.deep_view(),
            route_table_id@,
        )->0,
{
    let ghost model = route_targets.deep_view();
    let mut i: usize = route_targets.len();
    assert(model.take(i as int) =~= model);
    while i > 0
        invariant
            0 <= i <= route_targets@.len(),
            model == route_targets.deep_view(),
            targets_of(model, route_table_id@) == targets_of(
                model.take(i as int),
                route_table_id@,
            ),
        decreases i,
    {
        let ghost part = model.take(i as int);
        assert(part.last() == route_targets@[i - 1].deep_view());
        assert(part.drop_last() =~= model.take(i - 1));
        if same_text(route_targets[i - 1].0.as_str(), route_table_id) {
            return Some(&route_targets[i - 1].1);
        }
        i = i - 1;
    }
    None
}

fn shares_target(source_targets: &Vec<String>, destination_targets: &Vec<String>, vpc_id: &String) -> (
    shares: bool)
    ensures
        shares <==> exists|i: int|
            0 <= i < source_targets.deep_view().len() && (destination_targets.deep_view().contains(
                #[trigger] source_targets.deep_view()[i],
            ) || source_targets.deep_view()[i] == vpc_id@),
{
    let ghost model = source_targets.deep_view();
    let mut i: usize = 0;
    while i < source_targets.len()
        invariant
            0 <= i <= source_targets@.len(),
            model == source_targets.deep_view(),
            forall|j: int|
                0 <= j < i ==> !(destination_targets.deep_view().contains(#[trigger] model[j])
                    || model[j] == vpc_id@),
        decreases source_targets@.len() - i,
    {
        assert(model[i as int] == source_targets@[i as int]@);
        if holds_text(destination_targets.as_slice(), &source_targets[i]) || source_targets[i]
            == *vpc_id {
            return true;
        }
        i = i + 1;
    }
    false
}

/// Whether traffic can be routed from `source` to `destination`, given which
/// VPCs each route table routes to.
pub fn route_exists(
    source: &EniNode,
    destination: &EniNode,
    route_targets: &[(String, Vec<String>)],
) -> (found: bool)
    ensures
        found == routed(
            source.deep_view(),
            destination.deep_view(),
            route_targets.deep_view(),
        ),
{
    if source.subnet_id == destination.subnet_id {
        return true;
    }
    match (&source.route_table_id, &destination.route_table_id) {
        (Some(source_table), Some(destination_table)) => {
            match (
                find_targets(route_targets, source_table.as_str()),
                find_targets(route_targets, destination_table.as_str()),
            ) {
                (Some(source_targets), Some(destination_targets)) => shares_target(
                    source_targets,
                    destination_targets,
                    &destination.vpc_id,
                ),
                _ => false,
            }
        },
        _ => false,
    }
}

/// The candidate for traffic from `source` to `destination`: traffic of every
/// protocol, the broadest possible check.
pub open spec fn candidate_for(
    source: EniNodeView,
    destination: EniNodeView,
    peer_address: crate::net::IpAddr,
    route_targets: Seq<(Seq<char>, Seq<Seq<char>>)>,
    boundary_id: Seq<char>,
) -> crate::evaluate::path::PathCandidateView {
    crate::evaluate::path::PathCandidateView {
        source: source.as_source(),
        destination: destination.as_destination(),
        route_exists: routed(source, destination, route_targets),
        traffic: Traffic { protocol: Protocol::All, port: None, peer_address },
        destination_boundary: boundary_id,
    }
}

/// The candidates towards `destination` from those of `enis` that lie outside
/// the boundary, in order. One whose private address is not an IP address is
/// left out.
pub open spec fn candidates_towards(
    destination: EniNodeView,
    enis: Seq<EniNodeView>,
    route_targets: Seq<(Seq<char>, Seq<Seq<char>>)>,
    boundary_id: Seq<char>,
    vpc_ids: Seq<Seq<char>>,
) -> Seq<crate::evaluate::path::PathCandidateView>
    decreases enis.len(),
{
    if enis.len() == 0 {
        Seq::empty()
    } else {
        let before = candidates_towards(
            destination,
            enis.drop_last(),
            route_targets,
            boundary_id,
            vpc_ids,
        );
        let source = enis.last();
        match crate::net::address(source.private_ip) {
            Some(peer_address) => if vpc_ids.contains(source.vpc_id) {
                before
            } else {
                before.push(
                    candidate_for(source, destination, peer_address, route_targets, boundary_id),
                )
            },
            None => before,
        }
    }
}

/// The candidates towards each of `destinations` that lies within the
/// boundary, in order.
pub open spec fn candidates_within(
    destinations: Seq<EniNodeView>,
    enis: Seq<EniNodeView>,
    route_targets: Seq<(Seq<char>, Seq<Seq<char>>)>,
    boundary_id: Seq<char>,
    vpc_ids: Seq<Seq<char>>,
) -> Seq<crate::evaluate::path::PathCandidateView>
    decreases destinations.len(),
{
    if destinations.len() == 0 {
        Seq::empty()
    } else {
        let before = candidates_within(
            destinations.drop_last(),
            enis,
            route_targets,
            boundary_id,
            vpc_ids,
        );
        let destination = destinations.last();
        if vpc_ids.contains(destination.vpc_id) {
            before + candidates_towards(destination, enis, route_targets, boundary_id, vpc_ids)
        } else {
            before
        }
    }
}

/// Assembles one candidate per pair of a source and a destination: for each
/// destination in order, each source in order.
pub fn assemble_candidates(
    enis: &[EniNode],
    route_targets: &[(String, Vec<String>)],
    boundary_id: &str,
    selectors: BoundarySelectors<'_>,
) -> (candidates: Vec<PathCandidate>)
    ensures
        candidates.deep_view() == candidates_within(
            enis.deep_view(),
            enis.deep_view(),
            route_targets.deep_view(),
            boundary_id@,
            selectors.vpc_ids.deep_view(),
        ),
{
    let ghost model = enis.deep_view();
    let ghost targets = route_targets.deep_view();
    let ghost vpc_ids = selectors.vpc_ids.deep_view();
    let mut candidates: Vec<PathCandidate> = Vec::new();
    let mut d: usize = 0;
    assert(candidates.deep_view() =~= Seq::empty());
    assert(model.take(0) =~= Seq::empty());
    while d < enis.len()
        invariant
            0 <= d <= enis@.len(),
            model == enis.deep_view(),
            targets == route_targets.deep_view(),
            vpc_ids == selectors.vpc_ids.deep_view(),
            candidates.deep_view() == candidates_within(
                model.take(d as int),
                model,
                targets,
                boundary_id@,
                vpc_ids,
            ),
        decreases enis@.len() - d,
    {
        let destination = &enis[d];
        assert(model.take(d + 1).drop_last() =~= model.take(d as int));
        assert(model.take(d + 1).last() == destination.deep_view());
        if holds_text(selectors.vpc_ids, &destination.vpc_id) {
            let ghost before = candidates.deep_view();
            let mut s: usize = 0;
            assert(candidates.deep_view() =~= before + candidates_towards(
                destination.deep_view(),
                model.take(0),
                targets,
                boundary_id@,
                vpc_ids,
            ));
            while s < enis.len()
                invariant
                    0 <= s <= enis@.len(),
                    model == enis.deep_view(),
                    targets == route_targets.deep_view(),
                    vpc_ids == selectors.vpc_ids.deep_view(),
                    candidates.deep_view() == before + candidates_towards(
                        destination.deep_view(),
                        model.take(s as int),
                        targets,
                        boundary_id@,
                        vpc_ids,
                    ),
                decreases enis@.len() - s,
            {
                let source = &enis[s];
                assert(model.take(s + 1).drop_last() =~= model.take(s as int));
                assert(model.take(s + 1).last() == source.deep_view());
                if !holds_text(selectors.vpc_ids, &source.vpc_id) {
                    match parse_address(source.private_ip.as_str()) {
                        Some(peer_address) => {
                            let ghost old_candidates = candidates.deep_view();
                            candidates.push(
                                PathCandidate {
                                    source: source.source_endpoint(),
                                    destination: destination.destination_endpoint(),
                                    route_exists: route_exists(source, destination, route_targets),
                                    traffic: Traffic {
                                        protocol: Protocol::All,
                                        port: None,
                                        peer_address,
                                    },
                                    destination_boundary: boundary_id.to_owned(),
                                },
                            );
                            assert(candidates.deep_view() =~= old_candidates.push(
                                candidate_for(
                                    source.deep_view(),
                                    destination.deep_view(),
                                    peer_address,
                                    targets,
                                    boundary_id@,
                                ),
                            ));
                            assert(candidates.deep_view() =~= before + candidates_towards(
                                destination.deep_view(),
                                model.take(s + 1),
                                targets,
                                boundary_id@,
                                vpc_ids,
                            ));
                        },
                        None => {},
                    }
                }
                s = s + 1;
            }
            assert(model.take(s as int) =~= model);
        }
        d = d + 1;
    }
    assert(model.take(d as int) =~= model);
    candidates
}

} // verus!
