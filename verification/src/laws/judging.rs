//! Judging traffic: when a rule speaks of it, what a set of rules says, and
//! what the four layers add up to.
use vstd::prelude::*;

use crate::domain::finding::Severity;
use crate::domain::rule::{Action, Direction};
use crate::error::EvaluationError;
use crate::evaluate::path::EvaluationLayer;
use crate::evaluate::{Protocol, Traffic};

verus! {

/// Whether a rule for `protocol` and `range` speaks of the traffic. The rule
/// for every protocol speaks of all traffic. Any other speaks of its own
/// protocol, and where it has a range only of traffic with a port in it. No
/// rule for one protocol speaks of traffic of every protocol.
pub open spec fn speaks_of(
    protocol: Seq<char>,
    range: Option<(u16, u16)>,
    traffic: Traffic,
) -> bool {
    protocol == "-1"@ || {
        &&& match traffic.protocol {
            Protocol::Tcp => protocol == "tcp"@,
            Protocol::Udp => protocol == "udp"@,
            Protocol::Icmp { .. } => protocol == "icmp"@ || protocol == "icmpv6"@,
            Protocol::All => false,
        }
        &&& range matches Some(bounds) ==> traffic.port is Some && bounds.0 <= traffic.port->0
            <= bounds.1
    }
}

/// Whether a security group rule lets the traffic through: it speaks of it, in
/// its direction, and its block holds the peer, or the group that it refers to
/// is known and is one of the peer's.
pub open spec fn lets_through(
    rule: crate::domain::rule::SgRuleView,
    direction: Direction,
    traffic: Traffic,
    peer_groups: Seq<Seq<char>>,
) -> bool {
    &&& rule.direction == direction
    &&& speaks_of(rule.protocol, rule.port_range, traffic)
    &&& match rule.target {
        crate::domain::rule::RuleTargetView::Cidr { cidr } => crate::net::block_contains(
            cidr,
            traffic.peer_address,
        ) == Some(true),
        crate::domain::rule::RuleTargetView::SecurityGroupRef { security_group_id } => {
            rule.resolved && peer_groups.contains(security_group_id)
        },
    }
}

/// Whether a security group rule leaves the traffic open: it speaks of it, in
/// its direction, and refers to a group that is not known.
pub open spec fn leaves_open(
    rule: crate::domain::rule::SgRuleView,
    direction: Direction,
    traffic: Traffic,
) -> bool {
    &&& rule.direction == direction
    &&& speaks_of(rule.protocol, rule.port_range, traffic)
    &&& rule.target is SecurityGroupRef
    &&& !rule.resolved
}

/// Security group rules allow traffic by the first rule that lets it through.
/// Where none does, the first that leaves it open makes the verdict
/// indeterminate and names the unknown group. Where there is none of those
/// either, traffic is denied because nothing matched.
pub proof fn law_sg_verdict(
    security_group_id: Seq<char>,
    rules: Seq<crate::domain::rule::SgRuleView>,
    direction: Direction,
    traffic: Traffic,
    peer_groups: Seq<Seq<char>>,
)
    ensures
        match crate::evaluate::sg::sg_verdict(
            security_group_id,
            rules,
            direction,
            traffic,
            peer_groups,
        ) {
            crate::evaluate::VerdictView::Allowed {
                matched_by: crate::evaluate::RuleRefView::SecurityGroup {
                    security_group_id: id,
                    rule_index,
                },
            } => {
                &&& id == security_group_id
                &&& 0 <= rule_index < rules.len()
                &&& lets_through(rules[rule_index], direction, traffic, peer_groups)
                &&& forall|j: int|
                    0 <= j < rule_index ==> !lets_through(
                        #[trigger] rules[j],
                        direction,
                        traffic,
                        peer_groups,
                    )
            },
            crate::evaluate::VerdictView::Indeterminate {
                reason: crate::evaluate::IndeterminateReasonView::UnresolvedReference {
                    security_group_id: unknown,
                },
            } => {
                &&& forall|j: int|
                    0 <= j < rules.len() ==> !lets_through(
                        #[trigger] rules[j],
                        direction,
                        traffic,
                        peer_groups,
                    )
                &&& exists|i: int|
                    0 <= i < rules.len() && leaves_open(#[trigger] rules[i], direction, traffic)
                        && rules[i].target
                        == (crate::domain::rule::RuleTargetView::SecurityGroupRef {
                        security_group_id: unknown,
                    }) && forall|j: int|
                        0 <= j < i ==> !leaves_open(#[trigger] rules[j], direction, traffic)
            },
            crate::evaluate::VerdictView::Denied {
                reason: crate::evaluate::DenyReasonView::NoMatchingRule,
            } => forall|j: int|
                0 <= j < rules.len() ==> !lets_through(
                    #[trigger] rules[j],
                    direction,
                    traffic,
                    peer_groups,
                ) && !leaves_open(rules[j], direction, traffic),
            _ => false,
        },
{
    assert forall|j: int| 0 <= j < rules.len() implies (lets_through(
        #[trigger] rules[j],
        direction,
        traffic,
        peer_groups,
    ) <==> crate::evaluate::sg::rule_outcome(rules[j], direction, traffic, peer_groups) is Allows)
        && (leaves_open(rules[j], direction, traffic) <==> crate::evaluate::sg::rule_outcome(
        rules[j],
        direction,
        traffic,
        peer_groups,
    ) is Unresolved) by {
        lemma_speaks_of(rules[j].protocol, rules[j].port_range, traffic);
    }
    if exists|i: int|
        0 <= i < rules.len() && lets_through(#[trigger] rules[i], direction, traffic, peer_groups) {
        let i = choose|i: int|
            0 <= i < rules.len() && lets_through(
                #[trigger] rules[i],
                direction,
                traffic,
                peer_groups,
            );
        crate::evaluate::sg::lemma_first_allowing(rules, direction, traffic, peer_groups, i);
    } else if exists|i: int|
        0 <= i < rules.len() && leaves_open(#[trigger] rules[i], direction, traffic) {
        let i = choose|i: int|
            0 <= i < rules.len() && leaves_open(#[trigger] rules[i], direction, traffic);
        crate::evaluate::sg::lemma_first_unresolved(rules, direction, traffic, peer_groups, i);
    }
}

proof fn lemma_speaks_of(protocol: Seq<char>, range: Option<(u16, u16)>, traffic: Traffic)
    ensures
        speaks_of(protocol, range, traffic) == crate::evaluate::traffic_covered(
            protocol,
            range,
            traffic,
        ),
{
    reveal_strlit("-1");
    reveal_strlit("tcp");
    reveal_strlit("udp");
    reveal_strlit("icmp");
    reveal_strlit("icmpv6");
    assert("-1"@.len() == 2);
    assert("tcp"@.len() == 3);
    assert("udp"@.len() == 3);
    assert("icmp"@.len() == 4);
    assert("icmpv6"@.len() == 6);
    assert("tcp"@[0] != "udp"@[0]);
}

/// A rule's protocol matches traffic where it is `-1`, or is the name of the
/// traffic's protocol; ICMP has two names.
pub proof fn law_protocol_names(protocol: Seq<char>, icmp_type: u8, code: u8)
    ensures
        crate::evaluate::protocol_covers("-1"@, Protocol::Tcp),
        crate::evaluate::protocol_covers("-1"@, Protocol::Udp),
        crate::evaluate::protocol_covers("-1"@, Protocol::Icmp { icmp_type, code }),
        crate::evaluate::protocol_covers("-1"@, Protocol::All),
        protocol != "-1"@ ==> {
            &&& crate::evaluate::protocol_covers(protocol, Protocol::Tcp) <==> protocol == "tcp"@
            &&& crate::evaluate::protocol_covers(protocol, Protocol::Udp) <==> protocol == "udp"@
            &&& crate::evaluate::protocol_covers(protocol, Protocol::Icmp { icmp_type, code })
                <==> protocol == "icmp"@ || protocol == "icmpv6"@
            &&& !crate::evaluate::protocol_covers(protocol, Protocol::All)
        },
{
}

/// A range holds its two ends and what lies between them. Without a range every
/// port is meant, and without a port no range fits.
pub proof fn law_port_ranges(from: u16, to: u16, port: u16)
    ensures
        crate::evaluate::port_fits(None, Some(port)),
        crate::evaluate::port_fits(None, None),
        !crate::evaluate::port_fits(Some((from, to)), None),
        crate::evaluate::port_fits(Some((from, to)), Some(port)) <==> !(port < from || to < port),
{
}

/// The protocol numbers of AWS: all, TCP and UDP, and no other.
pub proof fn law_protocol_numbers(value: i32)
    ensures
        match Protocol::of_number(value) {
            Ok(Protocol::All) => value == -1,
            Ok(Protocol::Tcp) => value == 6,
            Ok(Protocol::Udp) => value == 17,
            Ok(Protocol::Icmp { .. }) => false,
            Err(error) => error == (EvaluationError::UnsupportedProtocol { value }) && value != -1
                && value != 6 && value != 17,
        },
{
}

/// Whether a network ACL rule matches the traffic: it speaks of it, in its
/// direction, and its block holds the peer.
pub open spec fn matches_traffic(
    rule: crate::domain::rule::NaclRuleView,
    direction: Direction,
    traffic: Traffic,
) -> bool {
    &&& rule.direction == direction
    &&& speaks_of(rule.protocol, rule.port_range, traffic)
    &&& crate::net::block_contains(rule.cidr, traffic.peer_address) == Some(true)
}

/// Whether the rule at `i` matches, and no matching rule has a lower number or
/// the same number and an earlier place.
pub open spec fn matches_first(
    rules: Seq<crate::domain::rule::NaclRuleView>,
    direction: Direction,
    traffic: Traffic,
    i: int,
) -> bool {
    &&& 0 <= i < rules.len()
    &&& matches_traffic(rules[i], direction, traffic)
    &&& forall|j: int|
        0 <= j < rules.len() && matches_traffic(#[trigger] rules[j], direction, traffic)
            ==> rules[j].rule_number > rules[i].rule_number || rules[j].rule_number
            == rules[i].rule_number && j >= i
}

/// A network ACL does with traffic what the matching rule with the lowest
/// number says, and names that number. Where no rule matches, traffic is denied
/// because nothing matched. It is never undecided.
pub proof fn law_nacl_verdict(
    network_acl_id: Seq<char>,
    rules: Seq<crate::domain::rule::NaclRuleView>,
    direction: Direction,
    traffic: Traffic,
)
    ensures
        match crate::evaluate::nacl::nacl_verdict(network_acl_id, rules, direction, traffic) {
            crate::evaluate::VerdictView::Allowed {
                matched_by: crate::evaluate::RuleRefView::NetworkAcl {
                    network_acl_id: id,
                    rule_number,
                },
            } => id == network_acl_id && exists|i: int| #[trigger]
                matches_first(rules, direction, traffic, i) && rules[i].action == Action::Allow
                    && rules[i].rule_number == rule_number,
            crate::evaluate::VerdictView::Denied {
                reason: crate::evaluate::DenyReasonView::ExplicitDeny {
                    matched_by: crate::evaluate::RuleRefView::NetworkAcl {
                        network_acl_id: id,
                        rule_number,
                    },
                },
            } => id == network_acl_id && exists|i: int| #[trigger]
                matches_first(rules, direction, traffic, i) && rules[i].action == Action::Deny
                    && rules[i].rule_number == rule_number,
            crate::evaluate::VerdictView::Denied {
                reason: crate::evaluate::DenyReasonView::NoMatchingRule,
            } => forall|i: int|
                0 <= i < rules.len() ==> !matches_traffic(#[trigger] rules[i], direction, traffic),
            _ => false,
        },
{
    assert forall|j: int| 0 <= j < rules.len() implies matches_traffic(
        #[trigger] rules[j],
        direction,
        traffic,
    ) == crate::evaluate::nacl::applies(rules[j], direction, traffic) by {
        lemma_speaks_of(rules[j].protocol, rules[j].port_range, traffic);
    }
    if exists|i: int|
        0 <= i < rules.len() && matches_traffic(#[trigger] rules[i], direction, traffic) {
        let i = choose|i: int|
            0 <= i < rules.len() && matches_traffic(#[trigger] rules[i], direction, traffic);
        let decider = crate::evaluate::nacl::lemma_some_rule_decides(rules, direction, traffic, i);
        let chosen = choose|i: int|
            crate::evaluate::nacl::decides(rules, direction, traffic, i);
        assert(crate::evaluate::nacl::decides(rules, direction, traffic, chosen));
        assert(matches_first(rules, direction, traffic, chosen));
    } else {
        assert forall|i: int| !crate::evaluate::nacl::decides(rules, direction, traffic, i) by {
            if crate::evaluate::nacl::decides(rules, direction, traffic, i) {
                assert(matches_traffic(rules[i], direction, traffic));
            }
        }
    }
}

/// What each layer says of a candidate: the source's own egress rules, towards
/// the groups of the destination; the egress rules of the source's subnet; the
/// ingress rules of the destination's subnet; and the destination's own ingress
/// rules, from the groups of the source.
pub open spec fn verdict_on(
    candidate: crate::evaluate::path::PathCandidateView,
    layer: EvaluationLayer,
) -> crate::evaluate::VerdictView {
    match layer {
        EvaluationLayer::SgEgress => crate::evaluate::sg::sg_verdict(
            candidate.source.eni_id,
            candidate.source.security_group_rules,
            Direction::Egress,
            candidate.traffic,
            candidate.destination.peer_security_group_ids,
        ),
        EvaluationLayer::NaclEgress => crate::evaluate::nacl::nacl_verdict(
            candidate.source.subnet_id,
            candidate.source.nacl_rules,
            Direction::Egress,
            candidate.traffic,
        ),
        EvaluationLayer::NaclIngress => crate::evaluate::nacl::nacl_verdict(
            candidate.destination.subnet_id,
            candidate.destination.nacl_rules,
            Direction::Ingress,
            candidate.traffic,
        ),
        EvaluationLayer::SgIngress => crate::evaluate::sg::sg_verdict(
            candidate.destination.eni_id,
            candidate.destination.security_group_rules,
            Direction::Ingress,
            candidate.traffic,
            candidate.source.peer_security_group_ids,
        ),
    }
}

/// A path is reachable exactly where it is routed and each of the four layers
/// allows it.
pub proof fn law_reachable_where_four_verdicts_allow(
    candidate: crate::evaluate::path::PathCandidateView,
)
    ensures
        crate::evaluate::engine::outcome(candidate) is Reachable <==> {
            &&& candidate.route_exists
            &&& verdict_on(candidate, EvaluationLayer::SgEgress) is Allowed
            &&& verdict_on(candidate, EvaluationLayer::NaclEgress) is Allowed
            &&& verdict_on(candidate, EvaluationLayer::NaclIngress) is Allowed
            &&& verdict_on(candidate, EvaluationLayer::SgIngress) is Allowed
        },
{
    crate::evaluate::engine::law_reachable_iff_all_layers_allow(candidate);
    let order = crate::evaluate::engine::layer_order();
    if crate::evaluate::engine::all_layers_allow(candidate) {
        assert(crate::evaluate::engine::layer_step(candidate, order[0]).verdict is Allowed);
        assert(crate::evaluate::engine::layer_step(candidate, order[1]).verdict is Allowed);
        assert(crate::evaluate::engine::layer_step(candidate, order[2]).verdict is Allowed);
        assert(crate::evaluate::engine::layer_step(candidate, order[3]).verdict is Allowed);
    }
}

/// The layer that is asked at place `i`, and which resource it is asked about.
pub open spec fn asked(
    candidate: crate::evaluate::path::PathCandidateView,
    i: int,
) -> (EvaluationLayer, Seq<char>) {
    if i == 0 {
        (EvaluationLayer::SgEgress, candidate.source.eni_id)
    } else if i == 1 {
        (EvaluationLayer::NaclEgress, candidate.source.subnet_id)
    } else if i == 2 {
        (EvaluationLayer::NaclIngress, candidate.destination.subnet_id)
    } else {
        (EvaluationLayer::SgIngress, candidate.destination.eni_id)
    }
}

/// A finding is about its candidate's source and boundary. Its evidence asks
/// the layers in their order, each about its own resource, up to the first that
/// does not allow. The last one asked settles the outcome: allowed is reachable
/// and of high severity, denied is not reachable and of low severity, and
/// indeterminate names the layer and is of medium severity. Without a route
/// nothing is asked and the path is not reachable.
pub proof fn law_finding(
    candidate: crate::evaluate::path::PathCandidateView,
    computed_at: Seq<char>,
)
    ensures
        ({
            let finding = crate::evaluate::engine::finding_for(candidate, computed_at);
            let steps = finding.steps;
            let n = steps.len() as int;
            &&& finding.computed_at == computed_at
            &&& finding.source == candidate.source.eni_id
            &&& finding.destination_boundary == candidate.destination_boundary
            &&& !candidate.route_exists ==> n == 0 && finding.reachability is NotReachable
                && finding.severity == Severity::Low
            &&& candidate.route_exists ==> 1 <= n <= 4
            &&& forall|i: int|
                #![trigger steps[i]]
                0 <= i < n ==> {
                    &&& steps[i].layer == asked(candidate, i).0
                    &&& steps[i].resource_id == asked(candidate, i).1
                    &&& steps[i].verdict == verdict_on(candidate, asked(candidate, i).0)
                    &&& i < n - 1 ==> steps[i].verdict is Allowed
                }
            &&& candidate.route_exists ==> match steps[n - 1].verdict {
                crate::evaluate::VerdictView::Allowed { .. } => n == 4
                    && finding.reachability is Reachable && finding.severity == Severity::High,
                crate::evaluate::VerdictView::Denied { .. } => finding.reachability is NotReachable
                    && finding.severity == Severity::Low,
                crate::evaluate::VerdictView::Indeterminate { .. } => finding.reachability
                    == (crate::domain::finding::ReachabilityView::Indeterminate {
                    layers: seq![asked(candidate, n - 1).0],
                }) && finding.severity == Severity::Medium,
            }
        }),
{
    if candidate.route_exists {
        crate::evaluate::engine::law_evidence_follows_layer_order(candidate);
        crate::evaluate::engine::law_last_step_decides(candidate);
        crate::evaluate::engine::law_reachable_iff_all_layers_allow(candidate);
    }
}

proof fn lemma_undecided_layers(steps: Seq<crate::evaluate::path::EvaluationStepView>)
    ensures
        crate::evaluate::engine::indeterminate_layers(steps) == steps.filter(
            |step: crate::evaluate::path::EvaluationStepView| step.verdict is Indeterminate,
        ).map_values(|step: crate::evaluate::path::EvaluationStepView| step.layer),
    decreases steps.len(),
{
    reveal(Seq::filter);
    let undecided = |step: crate::evaluate::path::EvaluationStepView| step.verdict is Indeterminate;
    let layer = |step: crate::evaluate::path::EvaluationStepView| step.layer;
    if steps.len() > 0 {
        let front = steps.drop_last();
        lemma_undecided_layers(front);
        assert(steps.filter(undecided).map_values(layer) =~= if undecided(steps.last()) {
            front.filter(undecided).map_values(layer).push(layer(steps.last()))
        } else {
            front.filter(undecided).map_values(layer)
        });
    } else {
        assert(steps.filter(undecided).map_values(layer) =~= Seq::empty());
    }
}

/// Whatever the steps: one denial makes the path unreachable, and it is
/// reachable exactly where every step allows. Else the layers that could not
/// decide are named, in the order of the steps.
pub proof fn law_steps_add_up(steps: Seq<crate::evaluate::path::EvaluationStepView>)
    ensures
        ({
            let outcome = crate::evaluate::engine::combined(steps);
            &&& outcome is NotReachable <==> exists|i: int|
                0 <= i < steps.len() && (#[trigger] steps[i]).verdict is Denied
            &&& outcome is Reachable <==> forall|i: int|
                0 <= i < steps.len() ==> (#[trigger] steps[i]).verdict is Allowed
            &&& outcome matches crate::domain::finding::ReachabilityView::Indeterminate { layers }
                ==> layers == steps.filter(
                |step: crate::evaluate::path::EvaluationStepView| step.verdict is Indeterminate,
            ).map_values(|step: crate::evaluate::path::EvaluationStepView| step.layer)
        }),
{
    lemma_undecided_layers(steps);
    lemma_undecided_step(steps);
}

proof fn lemma_undecided_step(steps: Seq<crate::evaluate::path::EvaluationStepView>)
    ensures
        crate::evaluate::engine::indeterminate_layers(steps).len() == 0 <==> forall|i: int|
            0 <= i < steps.len() ==> !((#[trigger] steps[i]).verdict is Indeterminate),
    decreases steps.len(),
{
    if steps.len() > 0 {
        let front = steps.drop_last();
        lemma_undecided_step(front);
        assert(steps[steps.len() - 1] == steps.last());
        if crate::evaluate::engine::indeterminate_layers(steps).len() == 0 {
            assert forall|i: int| 0 <= i < steps.len() implies !((
            #[trigger] steps[i]).verdict is Indeterminate) by {
                if i < front.len() {
                    assert(front[i] == steps[i]);
                }
            }
        }
        if forall|i: int|
            0 <= i < steps.len() ==> !((#[trigger] steps[i]).verdict is Indeterminate) {
            assert forall|i: int| 0 <= i < front.len() implies !((
            #[trigger] front[i]).verdict is Indeterminate) by {
                assert(front[i] == steps[i]);
            }
        }
    }
}

/// How severe each outcome is.
pub proof fn law_severity(layers: Seq<EvaluationLayer>)
    ensures
        crate::evaluate::engine::severity_of(crate::domain::finding::ReachabilityView::Reachable)
            == Severity::High,
        crate::evaluate::engine::severity_of(
            crate::domain::finding::ReachabilityView::Indeterminate { layers },
        ) == Severity::Medium,
        crate::evaluate::engine::severity_of(
            crate::domain::finding::ReachabilityView::NotReachable,
        ) == Severity::Low,
{
}

} // verus!
