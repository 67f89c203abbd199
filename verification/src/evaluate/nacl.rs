//! Network ACL rule evaluation.
//!
//! A network ACL's rules for a direction are evaluated in ascending
//! `rule_number` order and the first rule that matches wins, whether it allows
//! or denies. If no rule matches, the implicit `*` entry applies, which denies.
//! The order in which the rules are given plays no part, except that of two
//! matching rules with the same number the one given first wins.
//!
//! A malformed CIDR or an unrecognized protocol string never matches.
use vstd::prelude::*;

use crate::domain::rule::{Action, Direction, NaclRule};
use crate::evaluate::{cidr_contains, rule_covers, DenyReason, RuleRef, Traffic, Verdict};

verus! {

broadcast use vstd::multiset::group_multiset_axioms;

/// Whether `rule` is for `direction` and matches `traffic`.
pub open spec fn applies(
    rule: crate::domain::rule::NaclRuleView,
    direction: Direction,
    traffic: Traffic,
) -> bool {
    &&& rule.direction == direction
    &&& crate::evaluate::traffic_covered(rule.protocol, rule.port_range, traffic)
    &&& crate::net::block_contains(rule.cidr, traffic.peer_address) == Some(true)
}

/// Whether the rule at `i` is the one that decides: it applies, and every
/// other rule that applies has a higher number, or the same number and a later
/// position.
pub open spec fn decides(
    rules: Seq<crate::domain::rule::NaclRuleView>,
    direction: Direction,
    traffic: Traffic,
    i: int,
) -> bool {
    &&& 0 <= i < rules.len()
    &&& applies(rules[i], direction, traffic)
    &&& forall|j: int|
        0 <= j < rules.len() && #[trigger] applies(rules[j], direction, traffic)
            ==> rules[i].rule_number < rules[j].rule_number || (rules[i].rule_number
            == rules[j].rule_number && i <= j)
}

/// The verdict of a rule that decides.
pub open spec fn verdict_of(
    network_acl_id: Seq<char>,
    rule: crate::domain::rule::NaclRuleView,
) -> crate::evaluate::VerdictView {
    let matched_by = crate::evaluate::RuleRefView::NetworkAcl {
        network_acl_id,
        rule_number: rule.rule_number,
    };
    match rule.action {
        Action::Allow => crate::evaluate::VerdictView::Allowed { matched_by },
        Action::Deny => crate::evaluate::VerdictView::Denied {
            reason: crate::evaluate::DenyReasonView::ExplicitDeny { matched_by },
        },
    }
}

/// The verdict of a network ACL: that of the rule that decides, or the
/// implicit denial where none does.
pub open spec fn nacl_verdict(
    network_acl_id: Seq<char>,
    rules: Seq<crate::domain::rule::NaclRuleView>,
    direction: Direction,
    traffic: Traffic,
) -> crate::evaluate::VerdictView {
    if exists|i: int| decides(rules, direction, traffic, i) {
        verdict_of(network_acl_id, rules[choose|i: int| decides(rules, direction, traffic, i)])
    } else {
        crate::evaluate::VerdictView::Denied {
            reason: crate::evaluate::DenyReasonView::NoMatchingRule,
        }
    }
}

/// Whichever rule decides, the verdict is that rule's.
pub proof fn law_deciding_rule_gives_verdict(
    network_acl_id: Seq<char>,
    rules: Seq<crate::domain::rule::NaclRuleView>,
    direction: Direction,
    traffic: Traffic,
    i: int,
)
    requires
        decides(rules, direction, traffic, i),
    ensures
        nacl_verdict(network_acl_id, rules, direction, traffic) == verdict_of(
            network_acl_id,
            rules[i],
        ),
{
    let chosen = choose|j: int| decides(rules, direction, traffic, j);
    assert(decides(rules, direction, traffic, chosen));
    assert(applies(rules[chosen], direction, traffic));
    assert(applies(rules[i], direction, traffic));
    assert(chosen == i);
}

/// A rule decides as soon as one applies.
pub proof fn lemma_some_rule_decides(
    rules: Seq<crate::domain::rule::NaclRuleView>,
    direction: Direction,
    traffic: Traffic,
    i: int,
) -> (decider: int)
    requires
        0 <= i < rules.len(),
        applies(rules[i], direction, traffic),
    ensures
        decides(rules, direction, traffic, decider),
    decreases rules[i].rule_number, i,
{
    if decides(rules, direction, traffic, i) {
        i
    } else {
        let j = choose|j: int|
            0 <= j < rules.len() && #[trigger] applies(rules[j], direction, traffic) && !(
            rules[i].rule_number < rules[j].rule_number || (rules[i].rule_number
                == rules[j].rule_number && i <= j));
        lemma_some_rule_decides(rules, direction, traffic, j)
    }
}

/// Traffic that no rule for the direction matches is denied implicitly; in
/// particular an empty set of rules denies everything.
pub proof fn law_no_match_is_implicit_deny(
    network_acl_id: Seq<char>,
    rules: Seq<crate::domain::rule::NaclRuleView>,
    direction: Direction,
    traffic: Traffic,
)
    requires
        forall|i: int|
            0 <= i < rules.len() ==> !(#[trigger] applies(rules[i], direction, traffic)),
    ensures
        nacl_verdict(network_acl_id, rules, direction, traffic)
            == (crate::evaluate::VerdictView::Denied {
            reason: crate::evaluate::DenyReasonView::NoMatchingRule,
        }),
{
    if exists|i: int| decides(rules, direction, traffic, i) {
        let i = choose|i: int| decides(rules, direction, traffic, i);
        assert(applies(rules[i], direction, traffic));
    }
}

/// Where a rule matches, the verdict is that of a matching rule whose number
/// is the lowest of all that match.
pub proof fn law_lowest_number_wins(
    network_acl_id: Seq<char>,
    rules: Seq<crate::domain::rule::NaclRuleView>,
    direction: Direction,
    traffic: Traffic,
    i: int,
)
    requires
        0 <= i < rules.len(),
        applies(rules[i], direction, traffic),
    ensures
        exists|winner: int|
            #![trigger rules[winner]]
            0 <= winner < rules.len() && applies(rules[winner], direction, traffic)
                && rules[winner].rule_number <= rules[i].rule_number && nacl_verdict(
                network_acl_id,
                rules,
                direction,
                traffic,
            ) == verdict_of(network_acl_id, rules[winner]),
{
    let winner = lemma_some_rule_decides(rules, direction, traffic, i);
    law_deciding_rule_gives_verdict(network_acl_id, rules, direction, traffic, winner);
    assert(applies(rules[i], direction, traffic));
    assert(rules[winner].rule_number <= rules[i].rule_number);
}

/// A rule that does not apply (one for the other direction, say) changes no
/// verdict, wherever among the rules it stands.
pub proof fn law_inapplicable_rule_is_irrelevant(
    network_acl_id: Seq<char>,
    rules: Seq<crate::domain::rule::NaclRuleView>,
    direction: Direction,
    traffic: Traffic,
    position: int,
    rule: crate::domain::rule::NaclRuleView,
)
    requires
        0 <= position <= rules.len(),
        !applies(rule, direction, traffic),
    ensures
        nacl_verdict(network_acl_id, rules.insert(position, rule), direction, traffic)
            == nacl_verdict(network_acl_id, rules, direction, traffic),
{
    let longer = rules.insert(position, rule);
    if exists|i: int| decides(rules, direction, traffic, i) {
        let i = choose|i: int| decides(rules, direction, traffic, i);
        let k = if i < position {
            i
        } else {
            i + 1
        };
        assert forall|j: int|
            0 <= j < longer.len() && #[trigger] applies(
                longer[j],
                direction,
                traffic,
            ) implies longer[k].rule_number < longer[j].rule_number || (longer[k].rule_number
            == longer[j].rule_number && k <= j) by {
            if j < position {
                assert(applies(rules[j], direction, traffic));
            } else {
                assert(j != position);
                assert(applies(rules[j - 1], direction, traffic));
            }
        }
        assert(decides(longer, direction, traffic, k));
        law_deciding_rule_gives_verdict(network_acl_id, longer, direction, traffic, k);
    } else {
        assert forall|j: int| 0 <= j < longer.len() implies !(#[trigger] applies(
            longer[j],
            direction,
            traffic,
        )) by {
            if applies(longer[j], direction, traffic) {
                let back = if j < position {
                    j
                } else {
                    j - 1
                };
                assert(rules[back] == longer[j]);
                let decider = lemma_some_rule_decides(rules, direction, traffic, back);
                assert(decides(rules, direction, traffic, decider));
            }
        }
        law_no_match_is_implicit_deny(network_acl_id, longer, direction, traffic);
    }
}

/// Whether no two of the rules that apply share a number.
pub open spec fn numbers_distinct(
    rules: Seq<crate::domain::rule::NaclRuleView>,
    direction: Direction,
    traffic: Traffic,
) -> bool {
    forall|i: int, j: int|
        0 <= i < rules.len() && 0 <= j < rules.len() && #[trigger] applies(
            rules[i],
            direction,
            traffic,
        ) && #[trigger] applies(rules[j], direction, traffic) && rules[i].rule_number
            == rules[j].rule_number ==> i == j
}

/// The order in which the rules are given plays no part: any two sequences
/// that hold the same rules get the same verdict, as long as no two rules that
/// match share a number.
pub proof fn law_rule_order_is_irrelevant(
    network_acl_id: Seq<char>,
    rules: Seq<crate::domain::rule::NaclRuleView>,
    permuted: Seq<crate::domain::rule::NaclRuleView>,
    direction: Direction,
    traffic: Traffic,
)
    requires
        rules.to_multiset() == permuted.to_multiset(),
        numbers_distinct(rules, direction, traffic),
    ensures
        nacl_verdict(network_acl_id, rules, direction, traffic) == nacl_verdict(
            network_acl_id,
            permuted,
            direction,
            traffic,
        ),
{
    broadcast use vstd::seq_lib::group_to_multiset_ensures;

    assert forall|rule: crate::domain::rule::NaclRuleView|
        rules.contains(rule) == permuted.contains(rule) by {
        assert(rules.contains(rule) == (rules.to_multiset().count(rule) > 0));
        assert(permuted.contains(rule) == (permuted.to_multiset().count(rule) > 0));
    }
    if exists|i: int| 0 <= i < rules.len() && #[trigger] applies(rules[i], direction, traffic) {
        let i = choose|i: int|
            0 <= i < rules.len() && #[trigger] applies(rules[i], direction, traffic);
        let a = lemma_some_rule_decides(rules, direction, traffic, i);
        assert(rules.contains(rules[a]));
        let k = choose|k: int| 0 <= k < permuted.len() && permuted[k] == rules[a];
        assert(applies(permuted[k], direction, traffic));
        let b = lemma_some_rule_decides(permuted, direction, traffic, k);
        assert(permuted.contains(permuted[b]));
        let m = choose|m: int| 0 <= m < rules.len() && rules[m] == permuted[b];
        assert(applies(rules[m], direction, traffic));
        assert(applies(rules[a], direction, traffic));
        assert(applies(permuted[b], direction, traffic));
        assert(rules[a].rule_number <= rules[m].rule_number);
        assert(permuted[b].rule_number <= permuted[k].rule_number);
        assert(a == m);
        law_deciding_rule_gives_verdict(network_acl_id, rules, direction, traffic, a);
        law_deciding_rule_gives_verdict(network_acl_id, permuted, direction, traffic, b);
    } else {
        assert forall|k: int| 0 <= k < permuted.len() implies !(#[trigger] applies(
            permuted[k],
            direction,
            traffic,
        )) by {
            assert(permuted.contains(permuted[k]));
            let i = choose|i: int| 0 <= i < rules.len() && rules[i] == permuted[k];
            assert(!applies(rules[i], direction, traffic));
        }
        law_no_match_is_implicit_deny(network_acl_id, rules, direction, traffic);
        law_no_match_is_implicit_deny(network_acl_id, permuted, direction, traffic);
    }
}

/// The first of `rules` that applies.
pub open spec fn first_match(
    rules: Seq<crate::domain::rule::NaclRuleView>,
    direction: Direction,
    traffic: Traffic,
) -> Option<crate::domain::rule::NaclRuleView>
    decreases rules.len(),
{
    if rules.len() == 0 {
        None
    } else {
        match first_match(rules.drop_last(), direction, traffic) {
            Some(rule) => Some(rule),
            None => if applies(rules.last(), direction, traffic) {
                Some(rules.last())
            } else {
                None
            },
        }
    }
}

proof fn lemma_first_match_bound(
    rules: Seq<crate::domain::rule::NaclRuleView>,
    direction: Direction,
    traffic: Traffic,
)
    requires
        crate::domain::order::ascending(rules),
        rules.len() > 0,
    ensures
        first_match(rules, direction, traffic) matches Some(rule) ==> rule.rule_number
            <= rules.last().rule_number,
    decreases rules.len(),
{
    let front = rules.drop_last();
    if front.len() > 0 {
        assert(rules[rules.len() - 1] == rules.last());
        assert(rules[rules.len() - 2] == front.last());
        lemma_first_match_bound(front, direction, traffic);
    } else {
        assert(first_match(front, direction, traffic) is None);
    }
}

proof fn lemma_first_match_insert(
    sorted: Seq<crate::domain::rule::NaclRuleView>,
    rule: crate::domain::rule::NaclRuleView,
    direction: Direction,
    traffic: Traffic,
)
    requires
        crate::domain::order::ascending(sorted),
    ensures
        ({
            let before = first_match(sorted, direction, traffic);
            first_match(
                crate::domain::order::insert_by_number(sorted, rule),
                direction,
                traffic,
            ) == (if applies(rule, direction, traffic) && (before is None || rule.rule_number
                < before->0.rule_number) {
                Some(rule)
            } else {
                before
            })
        }),
    decreases sorted.len(),
{
    let result = crate::domain::order::insert_by_number(sorted, rule);
    if sorted.len() > 0 && sorted.last().rule_number > rule.rule_number {
        let front = sorted.drop_last();
        lemma_first_match_insert(front, rule, direction, traffic);
        assert(result.drop_last() =~= crate::domain::order::insert_by_number(front, rule));
    } else {
        assert(result.drop_last() =~= sorted);
        if sorted.len() > 0 {
            lemma_first_match_bound(sorted, direction, traffic);
        }
    }
}

proof fn lemma_first_match_decides(
    rules: Seq<crate::domain::rule::NaclRuleView>,
    direction: Direction,
    traffic: Traffic,
)
    ensures
        match first_match(crate::domain::order::by_number(rules), direction, traffic) {
            Some(rule) => exists|i: int|
                decides(rules, direction, traffic, i) && rules[i] == rule,
            None => forall|i: int|
                0 <= i < rules.len() ==> !(#[trigger] applies(rules[i], direction, traffic)),
        },
    decreases rules.len(),
{
    if rules.len() > 0 {
        let front = rules.drop_last();
        let rule = rules.last();
        lemma_first_match_decides(front, direction, traffic);
        crate::domain::order::law_by_number_is_ascending(front);
        lemma_first_match_insert(
            crate::domain::order::by_number(front),
            rule,
            direction,
            traffic,
        );
        assert forall|j: int| 0 <= j < front.len() implies #[trigger] applies(
            rules[j],
            direction,
            traffic,
        ) == applies(front[j], direction, traffic) by {}
        let before = first_match(crate::domain::order::by_number(front), direction, traffic);
        let last = rules.len() - 1;
        if before is Some {
            let i = choose|i: int| decides(front, direction, traffic, i) && front[i] == before->0;
            if applies(rule, direction, traffic) && rule.rule_number < before->0.rule_number {
                assert forall|j: int|
                    0 <= j < rules.len() && #[trigger] applies(
                        rules[j],
                        direction,
                        traffic,
                    ) implies rules[last].rule_number < rules[j].rule_number || (
                rules[last].rule_number == rules[j].rule_number && last <= j) by {
                    if j < last {
                        assert(applies(front[j], direction, traffic));
                    }
                }
                assert(decides(rules, direction, traffic, last));
            } else {
                assert forall|j: int|
                    0 <= j < rules.len() && #[trigger] applies(
                        rules[j],
                        direction,
                        traffic,
                    ) implies rules[i].rule_number < rules[j].rule_number || (rules[i].rule_number
                    == rules[j].rule_number && i <= j) by {
                    if j < last {
                        assert(applies(front[j], direction, traffic));
                    }
                }
                assert(decides(rules, direction, traffic, i));
            }
        } else if applies(rule, direction, traffic) {
            assert forall|j: int|
                0 <= j < rules.len() && #[trigger] applies(
                    rules[j],
                    direction,
                    traffic,
                ) implies rules[last].rule_number < rules[j].rule_number || (
            rules[last].rule_number == rules[j].rule_number && last <= j) by {
                if j < last {
                    assert(applies(front[j], direction, traffic));
                }
            }
            assert(decides(rules, direction, traffic, last));
        } else {
            assert forall|j: int| 0 <= j < rules.len() implies !(#[trigger] applies(
                rules[j],
                direction,
                traffic,
            )) by {
                if j < last {
                    assert(!applies(front[j], direction, traffic));
                }
            }
        }
    }
}

/// The verdict is that of the first rule that matches when the rules are gone
/// through in ascending order of their numbers, and the implicit denial where
/// none matches.
pub proof fn law_first_match_in_ascending_order_wins(
    network_acl_id: Seq<char>,
    rules: Seq<crate::domain::rule::NaclRuleView>,
    direction: Direction,
    traffic: Traffic,
)
    ensures
        nacl_verdict(network_acl_id, rules, direction, traffic) == (match first_match(
            crate::domain::order::by_number(rules),
            direction,
            traffic,
        ) {
            Some(rule) => verdict_of(network_acl_id, rule),
            None => crate::evaluate::VerdictView::Denied {
                reason: crate::evaluate::DenyReasonView::NoMatchingRule,
            },
        }),
{
    lemma_first_match_decides(rules, direction, traffic);
    match first_match(crate::domain::order::by_number(rules), direction, traffic) {
        Some(rule) => {
            let i = choose|i: int| decides(rules, direction, traffic, i) && rules[i] == rule;
            law_deciding_rule_gives_verdict(network_acl_id, rules, direction, traffic, i);
        },
        None => {
            law_no_match_is_implicit_deny(network_acl_id, rules, direction, traffic);
        },
    }
}

/// Whether a single rule matches `traffic`, independent of any other rule and
/// of its action.
fn rule_matches(rule: &NaclRule, traffic: &Traffic) -> (matches: bool)
    ensures
        matches == applies(rule.deep_view(), rule.direction, *traffic),
{
    if !rule_covers(rule.protocol.as_str(), rule.port_range, traffic) {
        return false;
    }
    matches!(cidr_contains(rule.cidr.as_str(), traffic.peer_address), Some(true))
}

fn evaluate(
    network_acl_id: &str,
    rules: &[NaclRule],
    direction: Direction,
    traffic: &Traffic,
) -> (verdict: Verdict)
    ensures
        verdict.deep_view() == nacl_verdict(
            network_acl_id@,
            rules.deep_view(),
            direction,
            *traffic,
        ),
{
    let ghost model = rules.deep_view();
    let mut decider: Option<usize> = None;
    let mut i: usize = 0;
    while i < rules.len()
        invariant
            0 <= i <= rules@.len(),
            model == rules.deep_view(),
            model.len() == rules@.len(),
            decider is None ==> forall|j: int|
                0 <= j < i ==> !(#[trigger] applies(model[j], direction, *traffic)),
            decider matches Some(d) ==> 0 <= d < i && applies(model[d as int], direction, *traffic)
                && forall|j: int|
                0 <= j < i && #[trigger] applies(model[j], direction, *traffic)
                    ==> model[d as int].rule_number < model[j].rule_number || (
                model[d as int].rule_number == model[j].rule_number && d <= j),
        decreases rules@.len() - i,
    {
        assert(model[i as int] == rules@[i as int].deep_view());
        if rules[i].direction == direction && rule_matches(&rules[i], traffic) {
            match decider {
                None => {
                    decider = Some(i);
                },
                Some(d) => {
                    assert(model[d as int] == rules@[d as int].deep_view());
                    if rules[i].rule_number < rules[d].rule_number {
                        decider = Some(i);
                    }
                },
            }
        }
        i = i + 1;
    }
    match decider {
        Some(d) => {
            proof {
                assert(decides(model, direction, *traffic, d as int));
                law_deciding_rule_gives_verdict(
                    network_acl_id@,
                    model,
                    direction,
                    *traffic,
                    d as int,
                );
            }
            let rule = &rules[d];
            let matched_by = RuleRef::NetworkAcl {
                network_acl_id: network_acl_id.to_owned(),
                rule_number: rule.rule_number,
            };
            match rule.action {
                Action::Allow => Verdict::Allowed { matched_by },
                Action::Deny => Verdict::Denied {
                    reason: DenyReason::ExplicitDeny { matched_by },
                },
            }
        },
        None => {
            proof {
                law_no_match_is_implicit_deny(network_acl_id@, model, direction, *traffic);
            }
            Verdict::Denied { reason: DenyReason::NoMatchingRule }
        },
    }
}

/// Evaluates one network ACL's egress rules against `traffic`.
pub fn evaluate_nacl_egress(
    network_acl_id: &str,
    rules: &[NaclRule],
    traffic: &Traffic,
) -> (verdict: Verdict)
    ensures
        verdict.deep_view() == nacl_verdict(
            network_acl_id@,
            rules.deep_view(),
            Direction::Egress,
            *traffic,
        ),
{
    evaluate(network_acl_id, rules, Direction::Egress, traffic)
}

/// Evaluates one network ACL's ingress rules against `traffic`.
pub fn evaluate_nacl_ingress(
    network_acl_id: &str,
    rules: &[NaclRule],
    traffic: &Traffic,
) -> (verdict: Verdict)
    ensures
        verdict.deep_view() == nacl_verdict(
            network_acl_id@,
            rules.deep_view(),
            Direction::Ingress,
            *traffic,
        ),
{
    evaluate(network_acl_id, rules, Direction::Ingress, traffic)
}

} // verus!
