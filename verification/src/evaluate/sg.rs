//! Security group rule evaluation.
//!
//! Security groups are allow-only and their rules for a direction form an
//! unordered union: if any rule matches, the traffic is allowed. A rule that
//! would match but references an unresolved security group makes the verdict
//! indeterminate, unless another rule allows the traffic. Otherwise the
//! implicit deny-all applies.
//!
//! A malformed CIDR or an unrecognized protocol string never matches.
use vstd::prelude::*;

use crate::domain::rule::{Direction, RuleTarget, SgRule};
use crate::evaluate::{
    cidr_contains, rule_covers, DenyReason, IndeterminateReason, RuleRef, Traffic, Verdict,
};
use crate::text::holds_text;

verus! {

/// The set of security groups the peer ENI belongs to, for matching security
/// group reference rules.
#[derive(Debug, Clone, Copy)]
pub struct PeerIdentity<'a> {
    /// Security group ids the peer ENI is a member of.
    pub security_group_ids: &'a [String],
}

/// What one rule by itself says of the traffic.
pub ghost enum RuleOutcome {
    /// The rule allows it.
    Allows,
    /// The rule covers it but references a group that could not be resolved.
    Unresolved { security_group_id: Seq<char> },
    /// The rule does not match it.
    Silent,
}

/// What `rule` says of `traffic` in `direction` with a peer that is a member
/// of `peer_groups`. A reference matches by membership alone, never by
/// address.
pub open spec fn rule_outcome(
    rule: crate::domain::rule::SgRuleView,
    direction: Direction,
    traffic: Traffic,
    peer_groups: Seq<Seq<char>>,
) -> RuleOutcome {
    if rule.direction != direction || !crate::evaluate::traffic_covered(
        rule.protocol,
        rule.port_range,
        traffic,
    ) {
        RuleOutcome::Silent
    } else {
        match rule.target {
            crate::domain::rule::RuleTargetView::Cidr { cidr } => {
                if crate::net::block_contains(cidr, traffic.peer_address) == Some(true) {
                    RuleOutcome::Allows
                } else {
                    RuleOutcome::Silent
                }
            },
            crate::domain::rule::RuleTargetView::SecurityGroupRef { security_group_id } => {
                if !rule.resolved {
                    RuleOutcome::Unresolved { security_group_id }
                } else if peer_groups.contains(security_group_id) {
                    RuleOutcome::Allows
                } else {
                    RuleOutcome::Silent
                }
            },
        }
    }
}

/// Whether the rule at `i` is the first that allows the traffic.
pub open spec fn first_allowing(
    rules: Seq<crate::domain::rule::SgRuleView>,
    direction: Direction,
    traffic: Traffic,
    peer_groups: Seq<Seq<char>>,
    i: int,
) -> bool {
    &&& 0 <= i < rules.len()
    &&& rule_outcome(rules[i], direction, traffic, peer_groups) is Allows
    &&& forall|j: int|
        0 <= j < i ==> !(#[trigger] rule_outcome(rules[j], direction, traffic, peer_groups)
            is Allows)
}

/// Whether the rule at `i` is the first whose reference is unresolved.
pub open spec fn first_unresolved(
    rules: Seq<crate::domain::rule::SgRuleView>,
    direction: Direction,
    traffic: Traffic,
    peer_groups: Seq<Seq<char>>,
    i: int,
) -> bool {
    &&& 0 <= i < rules.len()
    &&& rule_outcome(rules[i], direction, traffic, peer_groups) is Unresolved
    &&& forall|j: int|
        0 <= j < i ==> !(#[trigger] rule_outcome(rules[j], direction, traffic, peer_groups)
            is Unresolved)
}

/// The verdict of a set of security group rules: allowed by the first rule
/// that allows, else indeterminate by the first that is unresolved, else
/// denied.
pub open spec fn sg_verdict(
    security_group_id: Seq<char>,
    rules: Seq<crate::domain::rule::SgRuleView>,
    direction: Direction,
    traffic: Traffic,
    peer_groups: Seq<Seq<char>>,
) -> crate::evaluate::VerdictView {
    if exists|i: int| first_allowing(rules, direction, traffic, peer_groups, i) {
        crate::evaluate::VerdictView::Allowed {
            matched_by: crate::evaluate::RuleRefView::SecurityGroup {
                security_group_id,
                rule_index: choose|i: int|
                    first_allowing(rules, direction, traffic, peer_groups, i),
            },
        }
    } else if exists|i: int| first_unresolved(rules, direction, traffic, peer_groups, i) {
        let i = choose|i: int| first_unresolved(rules, direction, traffic, peer_groups, i);
        crate::evaluate::VerdictView::Indeterminate {
            reason: crate::evaluate::IndeterminateReasonView::UnresolvedReference {
                security_group_id: rule_outcome(
                    rules[i],
                    direction,
                    traffic,
                    peer_groups,
                )->security_group_id,
            },
        }
    } else {
        crate::evaluate::VerdictView::Denied {
            reason: crate::evaluate::DenyReasonView::NoMatchingRule,
        }
    }
}

pub proof fn lemma_first_allowing(
    rules: Seq<crate::domain::rule::SgRuleView>,
    direction: Direction,
    traffic: Traffic,
    peer_groups: Seq<Seq<char>>,
    i: int,
)
    requires
        0 <= i < rules.len(),
        rule_outcome(rules[i], direction, traffic, peer_groups) is Allows,
    ensures
        exists|first: int| first_allowing(rules, direction, traffic, peer_groups, first),
    decreases i,
{
    if !first_allowing(rules, direction, traffic, peer_groups, i) {
        let j = choose|j: int|
            0 <= j < i && #[trigger] rule_outcome(
                rules[j],
                direction,
                traffic,
                peer_groups,
            ) is Allows;
        lemma_first_allowing(rules, direction, traffic, peer_groups, j);
    }
}

pub proof fn lemma_first_unresolved(
    rules: Seq<crate::domain::rule::SgRuleView>,
    direction: Direction,
    traffic: Traffic,
    peer_groups: Seq<Seq<char>>,
    i: int,
)
    requires
        0 <= i < rules.len(),
        rule_outcome(rules[i], direction, traffic, peer_groups) is Unresolved,
    ensures
        exists|first: int| first_unresolved(rules, direction, traffic, peer_groups, first),
    decreases i,
{
    if !first_unresolved(rules, direction, traffic, peer_groups, i) {
        let j = choose|j: int|
            0 <= j < i && #[trigger] rule_outcome(
                rules[j],
                direction,
                traffic,
                peer_groups,
            ) is Unresolved;
        lemma_first_unresolved(rules, direction, traffic, peer_groups, j);
    }
}

/// The verdict is allowed exactly where some rule allows, indeterminate
/// exactly where none allows and some is unresolved, and denied exactly where
/// every rule is silent. So an unresolved reference never collapses into a
/// denial, and never outweighs a rule that allows.
pub proof fn law_strongest_outcome_wins(
    security_group_id: Seq<char>,
    rules: Seq<crate::domain::rule::SgRuleView>,
    direction: Direction,
    traffic: Traffic,
    peer_groups: Seq<Seq<char>>,
)
    ensures
        ({
            let verdict = sg_verdict(security_group_id, rules, direction, traffic, peer_groups);
            let allowed = exists|i: int|
                0 <= i < rules.len() && #[trigger] rule_outcome(
                    rules[i],
                    direction,
                    traffic,
                    peer_groups,
                ) is Allows;
            let unresolved = exists|i: int|
                0 <= i < rules.len() && #[trigger] rule_outcome(
                    rules[i],
                    direction,
                    traffic,
                    peer_groups,
                ) is Unresolved;
            &&& verdict is Allowed <==> allowed
            &&& verdict is Indeterminate <==> !allowed && unresolved
            &&& verdict is Denied <==> !allowed && !unresolved
        }),
{
    if exists|i: int|
        0 <= i < rules.len() && #[trigger] rule_outcome(
            rules[i],
            direction,
            traffic,
            peer_groups,
        ) is Allows {
        let i = choose|i: int|
            0 <= i < rules.len() && #[trigger] rule_outcome(
                rules[i],
                direction,
                traffic,
                peer_groups,
            ) is Allows;
        lemma_first_allowing(rules, direction, traffic, peer_groups, i);
    }
    if exists|i: int|
        0 <= i < rules.len() && #[trigger] rule_outcome(
            rules[i],
            direction,
            traffic,
            peer_groups,
        ) is Unresolved {
        let i = choose|i: int|
            0 <= i < rules.len() && #[trigger] rule_outcome(
                rules[i],
                direction,
                traffic,
                peer_groups,
            ) is Unresolved;
        lemma_first_unresolved(rules, direction, traffic, peer_groups, i);
    }
}

/// Which verdict is reached does not depend on the order of the rules.
pub proof fn law_rule_order_keeps_the_verdict(
    security_group_id: Seq<char>,
    rules: Seq<crate::domain::rule::SgRuleView>,
    permuted: Seq<crate::domain::rule::SgRuleView>,
    direction: Direction,
    traffic: Traffic,
    peer_groups: Seq<Seq<char>>,
)
    requires
        rules.to_multiset() == permuted.to_multiset(),
    ensures
        ({
            let a = sg_verdict(security_group_id, rules, direction, traffic, peer_groups);
            let b = sg_verdict(security_group_id, permuted, direction, traffic, peer_groups);
            &&& a is Allowed <==> b is Allowed
            &&& a is Indeterminate <==> b is Indeterminate
            &&& a is Denied <==> b is Denied
        }),
{
    broadcast use vstd::seq_lib::group_to_multiset_ensures;

    law_strongest_outcome_wins(security_group_id, rules, direction, traffic, peer_groups);
    law_strongest_outcome_wins(security_group_id, permuted, direction, traffic, peer_groups);
    assert forall|i: int| 0 <= i < rules.len() implies exists|k: int|
        0 <= k < permuted.len() && permuted[k] == #[trigger] rules[i] by {
        assert(rules.contains(rules[i]));
        assert(permuted.to_multiset().count(rules[i]) > 0);
        assert(permuted.contains(rules[i]));
    }
    assert forall|k: int| 0 <= k < permuted.len() implies exists|i: int|
        0 <= i < rules.len() && rules[i] == #[trigger] permuted[k] by {
        assert(permuted.contains(permuted[k]));
        assert(rules.to_multiset().count(permuted[k]) > 0);
        assert(rules.contains(permuted[k]));
    }
}

/// An unresolved reference that covers the traffic is never read as a denial,
/// whatever else the rules say and whoever the peer is.
pub proof fn law_unresolved_reference_is_no_denial(
    security_group_id: Seq<char>,
    rules: Seq<crate::domain::rule::SgRuleView>,
    direction: Direction,
    traffic: Traffic,
    peer_groups: Seq<Seq<char>>,
    i: int,
)
    requires
        0 <= i < rules.len(),
        rules[i].direction == direction,
        rules[i].target is SecurityGroupRef,
        !rules[i].resolved,
        crate::evaluate::traffic_covered(rules[i].protocol, rules[i].port_range, traffic),
    ensures
        !(sg_verdict(security_group_id, rules, direction, traffic, peer_groups) is Denied),
{
    law_strongest_outcome_wins(security_group_id, rules, direction, traffic, peer_groups);
    assert(rule_outcome(rules[i], direction, traffic, peer_groups) is Unresolved);
}

/// What a reference rule says does not depend on the peer's address.
pub proof fn law_references_ignore_addresses(
    rule: crate::domain::rule::SgRuleView,
    direction: Direction,
    traffic: Traffic,
    other_address: crate::net::IpAddr,
    peer_groups: Seq<Seq<char>>,
)
    requires
        rule.target is SecurityGroupRef,
    ensures
        rule_outcome(rule, direction, traffic, peer_groups) == rule_outcome(
            rule,
            direction,
            (Traffic { peer_address: other_address, ..traffic }),
            peer_groups,
        ),
{
}

/// A rule for the other direction says nothing.
pub proof fn law_other_direction_is_silent(
    rule: crate::domain::rule::SgRuleView,
    direction: Direction,
    traffic: Traffic,
    peer_groups: Seq<Seq<char>>,
)
    requires
        rule.direction != direction,
    ensures
        rule_outcome(rule, direction, traffic, peer_groups) is Silent,
{
}

/// What has been found among the rules considered so far.
#[derive(Debug, PartialEq, Eq)]
pub enum Outcome {
    /// The rule with this index allows the traffic.
    Allowed { rule_index: usize },
    /// A rule covers it but references this group, which could not be resolved.
    Indeterminate { security_group_id: String },
    /// No rule matches it.
    Denied,
}

impl Outcome {
    spec fn agrees(self, outcome: RuleOutcome, index: int) -> bool {
        match (self, outcome) {
            (Outcome::Allowed { rule_index }, RuleOutcome::Allows) => rule_index == index,
            (
                Outcome::Indeterminate { security_group_id },
                RuleOutcome::Unresolved { security_group_id: id },
            ) => security_group_id@ == id,
            (Outcome::Denied, RuleOutcome::Silent) => true,
            _ => false,
        }
    }
}

/// The stronger of two outcomes, where allowing beats an unresolved reference
/// and that beats nothing, and of equally strong ones the first.
pub open spec fn stronger(acc: Outcome, next: Outcome) -> Outcome {
    match (acc, next) {
        (Outcome::Allowed { .. }, _) => acc,
        (_, Outcome::Allowed { .. }) => next,
        (Outcome::Indeterminate { .. }, _) => acc,
        _ => next,
    }
}

/// Having found nothing changes nothing, on either side.
pub proof fn law_denied_is_the_identity(outcome: Outcome)
    ensures
        stronger(Outcome::Denied, outcome) == outcome,
        stronger(outcome, Outcome::Denied) == outcome,
{
}

/// An allowing rule beats whatever comes after it, and whatever came before it
/// but another allowing rule.
pub proof fn law_allowed_absorbs(rule_index: usize, outcome: Outcome)
    ensures
        stronger(Outcome::Allowed { rule_index }, outcome) == (Outcome::Allowed { rule_index }),
        !(outcome is Allowed) ==> stronger(outcome, Outcome::Allowed { rule_index }) == (
        Outcome::Allowed { rule_index }),
{
}

/// Of two unresolved references the first is kept.
pub proof fn law_first_unresolved_is_kept(first: String, second: String)
    ensures
        stronger(
            Outcome::Indeterminate { security_group_id: first },
            Outcome::Indeterminate { security_group_id: second },
        ) == (Outcome::Indeterminate { security_group_id: first }),
{
}

/// How outcomes are grouped makes no difference.
pub proof fn law_combining_is_associative(a: Outcome, b: Outcome, c: Outcome)
    ensures
        stronger(stronger(a, b), c) == stronger(a, stronger(b, c)),
{
}

/// The order of two outcomes makes no difference to whether they allow, leave
/// open or deny.
pub proof fn law_order_keeps_the_variant(a: Outcome, b: Outcome)
    ensures
        stronger(a, b) is Allowed <==> stronger(b, a) is Allowed,
        stronger(a, b) is Indeterminate <==> stronger(b, a) is Indeterminate,
        stronger(a, b) is Denied <==> stronger(b, a) is Denied,
{
}

/// Adds what one more rule says to what has been found so far.
pub fn combine(acc: Outcome, next: Outcome) -> (combined: Outcome)
    ensures
        combined == stronger(acc, next),
{
    match (acc, next) {
        (Outcome::Allowed { rule_index }, _) => Outcome::Allowed { rule_index },
        (_, Outcome::Allowed { rule_index }) => Outcome::Allowed { rule_index },
        (Outcome::Indeterminate { security_group_id }, _) => Outcome::Indeterminate {
            security_group_id,
        },
        (_, next) => next,
    }
}

/// Classifies a single rule, independent of any other rule in the set.
fn classify_rule(
    rule: &SgRule,
    rule_index: usize,
    direction: Direction,
    traffic: &Traffic,
    peer: &PeerIdentity,
) -> (outcome: Outcome)
    ensures
        outcome.agrees(
            rule_outcome(
                rule.deep_view(),
                direction,
                *traffic,
                peer.security_group_ids.deep_view(),
            ),
            rule_index as int,
        ),
{
    if rule.direction != direction || !rule_covers(
        rule.protocol.as_str(),
        rule.port_range,
        traffic,
    ) {
        return Outcome::Denied;
    }
    match &rule.target {
        RuleTarget::Cidr { cidr } => match cidr_contains(cidr.as_str(), traffic.peer_address) {
            Some(true) => Outcome::Allowed { rule_index },
            _ => Outcome::Denied,
        },
        RuleTarget::SecurityGroupRef { security_group_id } => {
            if !rule.resolved {
                Outcome::Indeterminate { security_group_id: security_group_id.clone() }
            } else if holds_text(peer.security_group_ids, security_group_id) {
                Outcome::Allowed { rule_index }
            } else {
                Outcome::Denied
            }
        },
    }
}

fn evaluate(
    security_group_id: &str,
    rules: &[SgRule],
    direction: Direction,
    traffic: &Traffic,
    peer: &PeerIdentity,
) -> (verdict: Verdict)
    ensures
        verdict.deep_view() == sg_verdict(
            security_group_id@,
            rules.deep_view(),
            direction,
            *traffic,
            peer.security_group_ids.deep_view(),
        ),
{
    let ghost model = rules.deep_view();
    let ghost groups = peer.security_group_ids.deep_view();
    let mut acc = Outcome::Denied;
    let mut i: usize = 0;
    while i < rules.len()
        invariant
            0 <= i <= rules@.len(),
            model == rules.deep_view(),
            groups == peer.security_group_ids.deep_view(),
            match acc {
                Outcome::Allowed { rule_index } => rule_index < i && first_allowing(
                    model,
                    direction,
                    *traffic,
                    groups,
                    rule_index as int,
                ),
                Outcome::Indeterminate { security_group_id } => {
                    &&& forall|j: int|
                        0 <= j < i ==> !(#[trigger] rule_outcome(
                            model[j],
                            direction,
                            *traffic,
                            groups,
                        ) is Allows)
                    &&& exists|k: int|
                        k < i && #[trigger] first_unresolved(model, direction, *traffic, groups, k)
                            && rule_outcome(
                            model[k],
                            direction,
                            *traffic,
                            groups,
                        )->security_group_id == security_group_id@
                },
                Outcome::Denied => forall|j: int|
                    0 <= j < i ==> (#[trigger] rule_outcome(model[j], direction, *traffic, groups)
                        is Silent),
            },
        decreases rules@.len() - i,
    {
        assert(model[i as int] == rules@[i as int].deep_view());
        let next = classify_rule(&rules[i], i, direction, traffic, peer);
        proof {
            let outcome = rule_outcome(model[i as int], direction, *traffic, groups);
            if acc is Denied && outcome is Unresolved {
                assert(first_unresolved(model, direction, *traffic, groups, i as int));
            }
        }
        acc = combine(acc, next);
        i = i + 1;
    }
    proof {
        law_strongest_outcome_wins(security_group_id@, model, direction, *traffic, groups);
    }
    match acc {
        Outcome::Allowed { rule_index } => {
            proof {
                let first = choose|k: int| first_allowing(model, direction, *traffic, groups, k);
                assert(first_allowing(model, direction, *traffic, groups, rule_index as int));
                assert(first_allowing(model, direction, *traffic, groups, first));
                assert(first == rule_index);
            }
            Verdict::Allowed {
                matched_by: RuleRef::SecurityGroup {
                    security_group_id: security_group_id.to_owned(),
                    rule_index,
                },
            }
        },
        Outcome::Indeterminate { security_group_id: unresolved } => {
            proof {
                let first = choose|k: int| first_unresolved(model, direction, *traffic, groups, k);
                let k = choose|k: int|
                    k < i && #[trigger] first_unresolved(model, direction, *traffic, groups, k)
                        && rule_outcome(
                        model[k],
                        direction,
                        *traffic,
                        groups,
                    )->security_group_id == unresolved@;
                assert(first_unresolved(model, direction, *traffic, groups, first));
                assert(first == k);
            }
            Verdict::Indeterminate {
                reason: IndeterminateReason::UnresolvedReference { security_group_id: unresolved },
            }
        },
        Outcome::Denied => Verdict::Denied { reason: DenyReason::NoMatchingRule },
    }
}

/// Evaluates security group egress rules against `traffic` and its peer's
/// identity.
pub fn evaluate_sg_egress(
    security_group_id: &str,
    rules: &[SgRule],
    traffic: &Traffic,
    peer: &PeerIdentity,
) -> (verdict: Verdict)
    ensures
        verdict.deep_view() == sg_verdict(
            security_group_id@,
            rules.deep_view(),
            Direction::Egress,
            *traffic,
            peer.security_group_ids.deep_view(),
        ),
{
    evaluate(security_group_id, rules, Direction::Egress, traffic, peer)
}

/// Evaluates security group ingress rules against `traffic` and its peer's
/// identity.
pub fn evaluate_sg_ingress(
    security_group_id: &str,
    rules: &[SgRule],
    traffic: &Traffic,
    peer: &PeerIdentity,
) -> (verdict: Verdict)
    ensures
        verdict.deep_view() == sg_verdict(
            security_group_id@,
            rules.deep_view(),
            Direction::Ingress,
            *traffic,
            peer.security_group_ids.deep_view(),
        ),
{
    evaluate(security_group_id, rules, Direction::Ingress, traffic, peer)
}

} // verus!
