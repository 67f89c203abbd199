//! Candidates: which pairs of interfaces are judged, in which order, and what
//! each candidate takes from its two interfaces.
use vstd::prelude::*;

use crate::evaluate::{Protocol, Traffic};

verus! {

/// Whether `vpcs` is what the last entry for `table` lists.
pub open spec fn last_entry_lists(
    route_targets: Seq<(Seq<char>, Seq<Seq<char>>)>,
    table: Seq<char>,
    vpcs: Seq<Seq<char>>,
) -> bool {
    exists|i: int|
        0 <= i < route_targets.len() && (#[trigger] route_targets[i]).0 == table
            && route_targets[i].1 == vpcs && forall|j: int|
            i < j < route_targets.len() ==> (#[trigger] route_targets[j]).0 != table
}

proof fn lemma_targets_of(
    route_targets: Seq<(Seq<char>, Seq<Seq<char>>)>,
    table: Seq<char>,
)
    ensures
        match crate::evaluate::candidates::targets_of(route_targets, table) {
            Some(vpcs) => last_entry_lists(route_targets, table, vpcs),
            None => forall|i: int|
                0 <= i < route_targets.len() ==> (#[trigger] route_targets[i]).0 != table,
        },
    decreases route_targets.len(),
{
    if route_targets.len() > 0 {
        let last = route_targets.len() - 1;
        assert(route_targets[last] == route_targets.last());
        if route_targets.last().0 != table {
            let front = route_targets.drop_last();
            lemma_targets_of(front, table);
            match crate::evaluate::candidates::targets_of(front, table) {
                Some(vpcs) => {
                    let i = choose|i: int|
                        0 <= i < front.len() && (#[trigger] front[i]).0 == table && front[i].1
                            == vpcs && forall|j: int|
                            i < j < front.len() ==> (#[trigger] front[j]).0 != table;
                    assert(route_targets[i] == front[i]);
                    assert forall|j: int| i < j < route_targets.len() implies (
                    #[trigger] route_targets[j]).0 != table by {
                        if j < last {
                            assert(route_targets[j] == front[j]);
                        }
                    }
                },
                None => {
                    assert forall|i: int| 0 <= i < route_targets.len() implies (
                    #[trigger] route_targets[i]).0 != table by {
                        if i < last {
                            assert(route_targets[i] == front[i]);
                        }
                    }
                },
            }
        }
    }
}

/// Traffic within one subnet is always routed.
pub proof fn law_one_subnet_is_routed(
    source: crate::evaluate::candidates::EniNodeView,
    destination: crate::evaluate::candidates::EniNodeView,
    route_targets: Seq<(Seq<char>, Seq<Seq<char>>)>,
)
    requires
        source.subnet_id == destination.subnet_id,
    ensures
        crate::evaluate::candidates::routed(source, destination, route_targets),
{
}

/// Between two subnets traffic is routed exactly where each side's route table
/// has a last entry, and the source's lists a VPC that is the destination's own
/// or that the destination's lists too.
pub proof fn law_routed_across_subnets(
    source: crate::evaluate::candidates::EniNodeView,
    destination: crate::evaluate::candidates::EniNodeView,
    route_targets: Seq<(Seq<char>, Seq<Seq<char>>)>,
)
    requires
        source.subnet_id != destination.subnet_id,
    ensures
        crate::evaluate::candidates::routed(source, destination, route_targets) <==> exists|
            from: Seq<Seq<char>>,
            to: Seq<Seq<char>>,
            vpc: Seq<char>,
        |
            {
                &&& source.route_table_id is Some
                &&& destination.route_table_id is Some
                &&& #[trigger] last_entry_lists(route_targets, source.route_table_id->0, from)
                &&& #[trigger] last_entry_lists(route_targets, destination.route_table_id->0, to)
                &&& #[trigger] from.contains(vpc)
                &&& (vpc == destination.vpc_id || to.contains(vpc))
            },
{
    if source.route_table_id is Some && destination.route_table_id is Some {
        let a = source.route_table_id->0;
        let b = destination.route_table_id->0;
        lemma_targets_of(route_targets, a);
        lemma_targets_of(route_targets, b);
        let known_a = crate::evaluate::candidates::targets_of(route_targets, a);
        let known_b = crate::evaluate::candidates::targets_of(route_targets, b);
        if crate::evaluate::candidates::routed(source, destination, route_targets) {
            let from = known_a->0;
            let to = known_b->0;
            let i = choose|i: int|
                0 <= i < from.len() && (to.contains(#[trigger] from[i]) || from[i]
                    == destination.vpc_id);
            assert(from.contains(from[i]));
            assert(last_entry_lists(route_targets, a, from));
            assert(last_entry_lists(route_targets, b, to));
        }
        assert forall|from: Seq<Seq<char>>, to: Seq<Seq<char>>, vpc: Seq<char>|
            {
                &&& #[trigger] last_entry_lists(route_targets, a, from)
                &&& #[trigger] last_entry_lists(route_targets, b, to)
                &&& #[trigger] from.contains(vpc)
                &&& (vpc == destination.vpc_id || to.contains(vpc))
            } implies crate::evaluate::candidates::routed(
            source,
            destination,
            route_targets,
        ) by {
            lemma_one_last_entry(route_targets, a, from, known_a);
            lemma_one_last_entry(route_targets, b, to, known_b);
            let i = choose|i: int| 0 <= i < from.len() && from[i] == vpc;
            assert(to.contains(from[i]) || from[i] == destination.vpc_id);
        }
    }
}

proof fn lemma_one_last_entry(
    route_targets: Seq<(Seq<char>, Seq<Seq<char>>)>,
    table: Seq<char>,
    vpcs: Seq<Seq<char>>,
    known: Option<Seq<Seq<char>>>,
)
    requires
        last_entry_lists(route_targets, table, vpcs),
        match known {
            Some(other) => last_entry_lists(route_targets, table, other),
            None => forall|i: int|
                0 <= i < route_targets.len() ==> (#[trigger] route_targets[i]).0 != table,
        },
    ensures
        known == Some(vpcs),
{
    let i = choose|i: int|
        0 <= i < route_targets.len() && (#[trigger] route_targets[i]).0 == table
            && route_targets[i].1 == vpcs && forall|j: int|
            i < j < route_targets.len() ==> (#[trigger] route_targets[j]).0 != table;
    if known is Some {
        let k = choose|k: int|
            0 <= k < route_targets.len() && (#[trigger] route_targets[k]).0 == table
                && route_targets[k].1 == known->0 && forall|j: int|
                k < j < route_targets.len() ==> (#[trigger] route_targets[j]).0 != table;
        assert(i == k);
    }
}

/// Whether traffic from `source` to `destination` is to be judged: the
/// destination lies in one of the VPCs, the source in none of them, and the
/// source has an address.
#[verifier::opaque]
pub open spec fn is_judged(
    source: crate::evaluate::candidates::EniNodeView,
    destination: crate::evaluate::candidates::EniNodeView,
    vpc_ids: Seq<Seq<char>>,
) -> bool {
    vpc_ids.contains(destination.vpc_id) && !vpc_ids.contains(source.vpc_id)
        && crate::net::address(source.private_ip) is Some
}

/// Whether `candidate` takes from its interfaces what it should: the egress
/// rules of the source, the ingress rules of the destination, the network ACL
/// rules, the groups and the ids of each, and the source's address. Its traffic
/// is of every protocol and of no port in particular.
#[verifier::opaque]
pub open spec fn is_of_pair(
    candidate: crate::evaluate::path::PathCandidateView,
    source: crate::evaluate::candidates::EniNodeView,
    destination: crate::evaluate::candidates::EniNodeView,
    route_targets: Seq<(Seq<char>, Seq<Seq<char>>)>,
    boundary_id: Seq<char>,
) -> bool {
    &&& candidate.source.security_group_rules == source.egress_rules
    &&& candidate.destination.security_group_rules == destination.ingress_rules
    &&& candidate.source.nacl_rules == source.nacl_rules
    &&& candidate.destination.nacl_rules == destination.nacl_rules
    &&& candidate.source.peer_security_group_ids == source.security_group_ids
    &&& candidate.destination.peer_security_group_ids == destination.security_group_ids
    &&& candidate.source.eni_id == source.id
    &&& candidate.destination.eni_id == destination.id
    &&& candidate.source.subnet_id == source.subnet_id
    &&& candidate.destination.subnet_id == destination.subnet_id
    &&& Some(candidate.traffic.peer_address) == crate::net::address(source.private_ip)
    &&& candidate.traffic.protocol == Protocol::All
    &&& candidate.traffic.port is None
    &&& candidate.destination_boundary == boundary_id
    &&& candidate.route_exists == crate::evaluate::candidates::routed(
        source,
        destination,
        route_targets,
    )
}

/// Whether the pair `a` (a destination, then a source) comes before `b`.
pub open spec fn pair_before(a: (int, int), b: (int, int)) -> bool {
    a.0 < b.0 || a.0 == b.0 && a.1 < b.1
}

/// Whether `pairs` are the pairs of a destination among the first `limit` and a
/// source that are to be judged, each once and in order, and `candidates` are
/// of those pairs.
pub open spec fn are_of_pairs(
    candidates: Seq<crate::evaluate::path::PathCandidateView>,
    pairs: Seq<(int, int)>,
    enis: Seq<crate::evaluate::candidates::EniNodeView>,
    limit: int,
    route_targets: Seq<(Seq<char>, Seq<Seq<char>>)>,
    boundary_id: Seq<char>,
    vpc_ids: Seq<Seq<char>>,
) -> bool {
    &&& pairs.len() == candidates.len()
    &&& forall|k: int|
        0 <= k < pairs.len() ==> 0 <= (#[trigger] pairs[k]).0 < limit && 0 <= pairs[k].1
            < enis.len() && is_judged(enis[pairs[k].1], enis[pairs[k].0], vpc_ids) && is_of_pair(
            candidates[k],
            enis[pairs[k].1],
            enis[pairs[k].0],
            route_targets,
            boundary_id,
        )
    &&& forall|k: int, l: int|
        0 <= k < l < pairs.len() ==> pair_before(#[trigger] pairs[k], #[trigger] pairs[l])
    &&& forall|d: int, s: int|
        0 <= d < limit && 0 <= s < enis.len() && is_judged(enis[s], enis[d], vpc_ids)
            ==> #[trigger] pairs.contains((d, s))
}

proof fn lemma_step_towards(
    enis: Seq<crate::evaluate::candidates::EniNodeView>,
    d: int,
    n: int,
    route_targets: Seq<(Seq<char>, Seq<Seq<char>>)>,
    boundary_id: Seq<char>,
    vpc_ids: Seq<Seq<char>>,
)
    requires
        0 <= d < enis.len(),
        0 < n <= enis.len(),
        vpc_ids.contains(enis[d].vpc_id),
    ensures
        ({
            let before = crate::evaluate::candidates::candidates_towards(
                enis[d],
                enis.take(n - 1),
                route_targets,
                boundary_id,
                vpc_ids,
            );
            let made = crate::evaluate::candidates::candidates_towards(
                enis[d],
                enis.take(n),
                route_targets,
                boundary_id,
                vpc_ids,
            );
            if is_judged(enis[n - 1], enis[d], vpc_ids) {
                &&& made.len() == before.len() + 1
                &&& made.drop_last() == before
                &&& is_of_pair(made.last(), enis[n - 1], enis[d], route_targets, boundary_id)
            } else {
                made == before
            }
        }),
{
    reveal(is_judged);
    reveal(is_of_pair);
    assert(enis.take(n).drop_last() =~= enis.take(n - 1));
    assert(enis.take(n).last() == enis[n - 1]);
    let before = crate::evaluate::candidates::candidates_towards(
        enis[d],
        enis.take(n - 1),
        route_targets,
        boundary_id,
        vpc_ids,
    );
    let made = crate::evaluate::candidates::candidates_towards(
        enis[d],
        enis.take(n),
        route_targets,
        boundary_id,
        vpc_ids,
    );
    if is_judged(enis[n - 1], enis[d], vpc_ids) {
        assert(made.drop_last() =~= before);
    }
}

/// Whether `sources` are the places below `n` of the sources that are to be
/// judged towards the interface at `d`, in order, and `made` are their
/// candidates.
spec fn are_sources(
    made: Seq<crate::evaluate::path::PathCandidateView>,
    sources: Seq<int>,
    enis: Seq<crate::evaluate::candidates::EniNodeView>,
    d: int,
    n: int,
    route_targets: Seq<(Seq<char>, Seq<Seq<char>>)>,
    boundary_id: Seq<char>,
    vpc_ids: Seq<Seq<char>>,
) -> bool {
    &&& made.len() == sources.len()
    &&& forall|k: int|
        0 <= k < sources.len() ==> 0 <= #[trigger] sources[k] < n && is_judged(
            enis[sources[k]],
            enis[d],
            vpc_ids,
        ) && is_of_pair(made[k], enis[sources[k]], enis[d], route_targets, boundary_id)
    &&& forall|k: int, l: int|
        0 <= k < l < sources.len() ==> #[trigger] sources[k] < #[trigger] sources[l]
    &&& forall|s: int|
        0 <= s < n && #[trigger] is_judged(enis[s], enis[d], vpc_ids) ==> sources.contains(s)
}

proof fn lemma_push_source(
    made: Seq<crate::evaluate::path::PathCandidateView>,
    candidate: crate::evaluate::path::PathCandidateView,
    before: Seq<int>,
    enis: Seq<crate::evaluate::candidates::EniNodeView>,
    d: int,
    n: int,
    route_targets: Seq<(Seq<char>, Seq<Seq<char>>)>,
    boundary_id: Seq<char>,
    vpc_ids: Seq<Seq<char>>,
)
    requires
        0 <= n < enis.len(),
        are_sources(made, before, enis, d, n, route_targets, boundary_id, vpc_ids),
        is_judged(enis[n], enis[d], vpc_ids),
        is_of_pair(candidate, enis[n], enis[d], route_targets, boundary_id),
    ensures
        are_sources(
            made.push(candidate),
            before.push(n),
            enis,
            d,
            n + 1,
            route_targets,
            boundary_id,
            vpc_ids,
        ),
{
    let sources = before.push(n);
    assert forall|s: int|
        0 <= s < n + 1 && #[trigger] is_judged(
            enis[s],
            enis[d],
            vpc_ids,
        ) implies sources.contains(s) by {
        if s < n {
            assert(before.contains(s));
            let k = choose|k: int| 0 <= k < before.len() && before[k] == s;
            assert(sources[k] == s);
        } else {
            assert(sources[before.len() as int] == s);
        }
    }
    assert forall|k: int, l: int| 0 <= k < l < sources.len() implies #[trigger] sources[k]
        < #[trigger] sources[l] by {
        assert(before[k] < n);
        if l < before.len() {
            assert(before[k] < before[l]);
        }
    }
}

proof fn lemma_towards(
    enis: Seq<crate::evaluate::candidates::EniNodeView>,
    d: int,
    n: int,
    route_targets: Seq<(Seq<char>, Seq<Seq<char>>)>,
    boundary_id: Seq<char>,
    vpc_ids: Seq<Seq<char>>,
) -> (sources: Seq<int>)
    requires
        0 <= d < enis.len(),
        0 <= n <= enis.len(),
        vpc_ids.contains(enis[d].vpc_id),
    ensures
        are_sources(
            crate::evaluate::candidates::candidates_towards(
                enis[d],
                enis.take(n),
                route_targets,
                boundary_id,
                vpc_ids,
            ),
            sources,
            enis,
            d,
            n,
            route_targets,
            boundary_id,
            vpc_ids,
        ),
    decreases n,
{
    if n == 0 {
        Seq::empty()
    } else {
        let before = lemma_towards(enis, d, n - 1, route_targets, boundary_id, vpc_ids);
        lemma_step_towards(enis, d, n, route_targets, boundary_id, vpc_ids);
        let made = crate::evaluate::candidates::candidates_towards(
            enis[d],
            enis.take(n),
            route_targets,
            boundary_id,
            vpc_ids,
        );
        if is_judged(enis[n - 1], enis[d], vpc_ids) {
            lemma_push_source(
                made.drop_last(),
                made.last(),
                before,
                enis,
                d,
                n - 1,
                route_targets,
                boundary_id,
                vpc_ids,
            );
            assert(made.drop_last().push(made.last()) =~= made);
            before.push(n - 1)
        } else {
            before
        }
    }
}

proof fn lemma_within(
    enis: Seq<crate::evaluate::candidates::EniNodeView>,
    n: int,
    route_targets: Seq<(Seq<char>, Seq<Seq<char>>)>,
    boundary_id: Seq<char>,
    vpc_ids: Seq<Seq<char>>,
) -> (pairs: Seq<(int, int)>)
    requires
        0 <= n <= enis.len(),
    ensures
        are_of_pairs(
            crate::evaluate::candidates::candidates_within(
                enis.take(n),
                enis,
                route_targets,
                boundary_id,
                vpc_ids,
            ),
            pairs,
            enis,
            n,
            route_targets,
            boundary_id,
            vpc_ids,
        ),
    decreases n,
{
    if n == 0 {
        Seq::empty()
    } else {
        let before = lemma_within(enis, n - 1, route_targets, boundary_id, vpc_ids);
        let d = n - 1;
        assert(enis.take(n).drop_last() =~= enis.take(d));
        assert(enis.take(n).last() == enis[d]);
        if vpc_ids.contains(enis[d].vpc_id) {
            let sources = lemma_towards(
                enis,
                d,
                enis.len() as int,
                route_targets,
                boundary_id,
                vpc_ids,
            );
            assert(enis.take(enis.len() as int) =~= enis);
            let added = Seq::new(sources.len(), |k: int| (d, sources[k]));
            let pairs = before + added;
            assert forall|k: int, l: int| 0 <= k < l < pairs.len() implies pair_before(
                #[trigger] pairs[k],
                #[trigger] pairs[l],
            ) by {
                if l < before.len() {
                    assert(pair_before(before[k], before[l]));
                } else if k < before.len() {
                    assert(before[k].0 < d);
                } else {
                    assert(sources[k - before.len()] < sources[l - before.len()]);
                }
            }
            assert forall|e: int, s: int|
                0 <= e < n && 0 <= s < enis.len() && is_judged(
                    enis[s],
                    enis[e],
                    vpc_ids,
                ) implies #[trigger] pairs.contains((e, s)) by {
                if e < d {
                    assert(before.contains((e, s)));
                    let k = choose|k: int| 0 <= k < before.len() && before[k] == (e, s);
                    assert(pairs[k] == (e, s));
                } else {
                    assert(sources.contains(s));
                    let k = choose|k: int| 0 <= k < sources.len() && sources[k] == s;
                    assert(pairs[before.len() + k] == (e, s));
                }
            }
            assert forall|k: int| 0 <= k < pairs.len() implies 0 <= (#[trigger] pairs[k]).0 < n
                && 0 <= pairs[k].1 < enis.len() && is_judged(
                enis[pairs[k].1],
                enis[pairs[k].0],
                vpc_ids,
            ) && is_of_pair(
                crate::evaluate::candidates::candidates_within(
                    enis.take(n),
                    enis,
                    route_targets,
                    boundary_id,
                    vpc_ids,
                )[k],
                enis[pairs[k].1],
                enis[pairs[k].0],
                route_targets,
                boundary_id,
            ) by {
                if k < before.len() {
                    assert(pairs[k] == before[k]);
                } else {
                    assert(sources[k - before.len()] == pairs[k].1);
                }
            }
            pairs
        } else {
            assert forall|e: int, s: int|
                0 <= e < n && 0 <= s < enis.len() && is_judged(
                    enis[s],
                    enis[e],
                    vpc_ids,
                ) implies #[trigger] before.contains((e, s)) by {
                reveal(is_judged);
                assert(e < d);
            }
            before
        }
    }
}

/// There is one candidate for each pair of interfaces that is to be judged, and
/// no other: destination by destination and, for each, source by source. Each
/// takes the source's egress rules and the destination's ingress rules.
pub proof fn law_one_candidate_per_pair(
    enis: Seq<crate::evaluate::candidates::EniNodeView>,
    route_targets: Seq<(Seq<char>, Seq<Seq<char>>)>,
    boundary_id: Seq<char>,
    vpc_ids: Seq<Seq<char>>,
)
    ensures
        exists|pairs: Seq<(int, int)>| #[trigger]
            are_of_pairs(
                crate::evaluate::candidates::candidates_within(
                    enis,
                    enis,
                    route_targets,
                    boundary_id,
                    vpc_ids,
                ),
                pairs,
                enis,
                enis.len() as int,
                route_targets,
                boundary_id,
                vpc_ids,
            ),
{
    let pairs = lemma_within(enis, enis.len() as int, route_targets, boundary_id, vpc_ids);
    assert(enis.take(enis.len() as int) =~= enis);
}

/// Judging a candidate holds the egress rules of an interface outside the
/// boundary against the groups of one inside it, and the ingress rules of the
/// one inside against the groups of the one outside; nothing else decides.
pub proof fn law_candidate_is_reachable_where_its_interfaces_say_so(
    enis: Seq<crate::evaluate::candidates::EniNodeView>,
    route_targets: Seq<(Seq<char>, Seq<Seq<char>>)>,
    boundary_id: Seq<char>,
    vpc_ids: Seq<Seq<char>>,
    k: int,
)
    requires
        0 <= k < crate::evaluate::candidates::candidates_within(
            enis,
            enis,
            route_targets,
            boundary_id,
            vpc_ids,
        ).len(),
    ensures
        exists|s: int, d: int|
            #![trigger enis[s], enis[d]]
            {
                let candidate = crate::evaluate::candidates::candidates_within(
                    enis,
                    enis,
                    route_targets,
                    boundary_id,
                    vpc_ids,
                )[k];
                let traffic = Traffic {
                    protocol: Protocol::All,
                    port: None,
                    peer_address: crate::net::address(enis[s].private_ip)->0,
                };
                &&& 0 <= s < enis.len()
                &&& 0 <= d < enis.len()
                &&& vpc_ids.contains(enis[d].vpc_id)
                &&& !vpc_ids.contains(enis[s].vpc_id)
                &&& crate::net::address(enis[s].private_ip) is Some
                &&& crate::evaluate::engine::outcome(candidate) is Reachable <==> {
                    &&& crate::evaluate::candidates::routed(enis[s], enis[d], route_targets)
                    &&& crate::evaluate::sg::sg_verdict(
                        enis[s].id,
                        enis[s].egress_rules,
                        crate::domain::rule::Direction::Egress,
                        traffic,
                        enis[d].security_group_ids,
                    ) is Allowed
                    &&& crate::evaluate::nacl::nacl_verdict(
                        enis[s].subnet_id,
                        enis[s].nacl_rules,
                        crate::domain::rule::Direction::Egress,
                        traffic,
                    ) is Allowed
                    &&& crate::evaluate::nacl::nacl_verdict(
                        enis[d].subnet_id,
                        enis[d].nacl_rules,
                        crate::domain::rule::Direction::Ingress,
                        traffic,
                    ) is Allowed
                    &&& crate::evaluate::sg::sg_verdict(
                        enis[d].id,
                        enis[d].ingress_rules,
                        crate::domain::rule::Direction::Ingress,
                        traffic,
                        enis[s].security_group_ids,
                    ) is Allowed
                }
            },
{
    let made = crate::evaluate::candidates::candidates_within(
        enis,
        enis,
        route_targets,
        boundary_id,
        vpc_ids,
    );
    law_one_candidate_per_pair(enis, route_targets, boundary_id, vpc_ids);
    let pairs = choose|pairs: Seq<(int, int)>| #[trigger]
        are_of_pairs(
            made,
            pairs,
            enis,
            enis.len() as int,
            route_targets,
            boundary_id,
            vpc_ids,
        );
    let d = pairs[k].0;
    let s = pairs[k].1;
    let candidate = made[k];
    reveal(is_judged);
    reveal(is_of_pair);
    crate::laws::judging::law_reachable_where_four_verdicts_allow(candidate);
    assert(candidate.traffic == (Traffic {
        protocol: Protocol::All,
        port: None,
        peer_address: crate::net::address(enis[s].private_ip)->0,
    }));
    assert(enis[s] == enis[s] && enis[d] == enis[d]);
}

} // verus!
