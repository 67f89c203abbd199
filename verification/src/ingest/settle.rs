//! What becomes of the resources that point at a security group that was left
//! out.
//!
//! A security group that cannot be mapped has no node. An interface that is a
//! member of it would be judged without its rules and could pass for closed, so
//! that it is left out too, with a warning of its own. A rule that references
//! it cannot be followed and is unresolved.
use vstd::prelude::*;
use vstd::string::*;

use crate::domain::rule::{RuleTarget, SgRule};
use crate::error::MappingError;
use crate::graph::model::Edge;
use crate::ingest::aws::{NetworkInterface, SecurityGroup};
use crate::ingest::map::push_item;
use crate::ingest::map::whole::map_whole_eni;
use crate::ports::EniRecord;
use crate::text::holds_text;

verus! {

/// Whether one of `groups` has the id `id`.
pub open spec fn named(groups: Seq<SecurityGroup>, id: Seq<char>) -> bool {
    exists|i: int|
        0 <= i < groups.len() && ((#[trigger] groups[i]).group_id matches Some(group_id)
            && group_id@ == id)
}

/// The ids of the groups that were collected but not kept.
pub open spec fn left_out(collected: Seq<SecurityGroup>, kept: Seq<SecurityGroup>) -> spec_fn(
    Seq<char>,
) -> bool {
    |id: Seq<char>| named(collected, id) && !named(kept, id)
}

/// The ids that stand in `collected` but not in `kept`.
pub open spec fn without(collected: Seq<Seq<char>>, kept: Seq<Seq<char>>) -> spec_fn(
    Seq<char>,
) -> bool {
    |id: Seq<char>| collected.contains(id) && !kept.contains(id)
}

/// The error of an interface that is a member of a group that is gone.
pub open spec fn gone_group(eni_id: Seq<char>, group_id: Seq<char>) -> crate::error::MappingErrorView {
    crate::ingest::map::invalid(
        eni_id,
        "groups[].group_id"@,
        "security group "@ + group_id + " could not be mapped"@,
    )
}

/// Whether a membership of interface `eni_id` is in a group that is still
/// there, or the error where it is gone.
pub open spec fn membership(eni_id: Seq<char>, gone: spec_fn(Seq<char>) -> bool) -> spec_fn(
    crate::ingest::aws::GroupIdentifier,
) -> Result<(), crate::error::MappingErrorView> {
    |group: crate::ingest::aws::GroupIdentifier|
        match group.group_id {
            Some(group_id) => if gone(group_id@) {
                Err(gone_group(eni_id, group_id@))
            } else {
                Ok(())
            },
            None => Ok(()),
        }
}

/// Whether all the groups of an interface are still there, or the error of the
/// first that is gone.
pub open spec fn memberships(gone: spec_fn(Seq<char>) -> bool) -> spec_fn(
    NetworkInterface,
) -> Result<Seq<()>, crate::error::MappingErrorView> {
    |eni: NetworkInterface|
        crate::ingest::map::map_all(
            eni.groups@,
            membership(crate::ingest::map::topology::given(eni.network_interface_id), gone),
        )
}

/// The node of a network interface that can be mapped as a whole and is a
/// member of no group that is gone, or its first error.
pub open spec fn settled_eni(
    account_id: Seq<char>,
    gone: spec_fn(Seq<char>) -> bool,
) -> spec_fn(NetworkInterface) -> Result<
    crate::ports::EniRecordView,
    crate::error::MappingErrorView,
> {
    |eni: NetworkInterface|
        crate::ingest::map::whole::with_edges(
            crate::ingest::map::whole::whole_eni(account_id)(eni),
            memberships(gone)(eni),
        )
}

/// An interface is kept only where it is a member of no group that is gone.
pub proof fn law_kept_interface_has_its_groups(
    account_id: Seq<char>,
    gone: spec_fn(Seq<char>) -> bool,
    eni: NetworkInterface,
    id: Seq<char>,
)
    requires
        settled_eni(account_id, gone)(eni) is Ok,
        crate::ingest::map::topology::is_member(eni, id),
    ensures
        !gone(id),
{
    let f = membership(crate::ingest::map::topology::given(eni.network_interface_id), gone);
    crate::ingest::map::lemma_map_all_ok(eni.groups@, f);
    let g = choose|g: int|
        0 <= g < eni.groups@.len() && ((#[trigger] eni.groups@[g]).group_id matches Some(group_id)
            && group_id@ == id);
    assert(f(eni.groups@[g]) is Ok);
}

/// A rule that can no longer be followed where it references a group that is
/// gone.
pub open spec fn settled_rule(
    rule: crate::domain::rule::SgRuleView,
    gone: spec_fn(Seq<char>) -> bool,
) -> crate::domain::rule::SgRuleView {
    match rule.target {
        crate::domain::rule::RuleTargetView::SecurityGroupRef { security_group_id } => if gone(
            security_group_id,
        ) {
            crate::domain::rule::SgRuleView { resolved: false, ..rule }
        } else {
            rule
        },
        _ => rule,
    }
}

/// An edge once groups are gone: a rule that references one of them is
/// unresolved, and every other edge is as it was.
pub open spec fn settled_edge(gone: spec_fn(Seq<char>) -> bool) -> spec_fn(
    crate::graph::model::EdgeView,
) -> crate::graph::model::EdgeView {
    |edge: crate::graph::model::EdgeView|
        match edge {
            crate::graph::model::EdgeView::AllowsIngress { security_group_id, rule } => {
                crate::graph::model::EdgeView::AllowsIngress {
                    security_group_id,
                    rule: settled_rule(rule, gone),
                }
            },
            crate::graph::model::EdgeView::AllowsEgress { security_group_id, rule } => {
                crate::graph::model::EdgeView::AllowsEgress {
                    security_group_id,
                    rule: settled_rule(rule, gone),
                }
            },
            _ => edge,
        }
}

/// Whether an edge needs the node of the security group `id`, beside that of
/// the edge's owner.
pub open spec fn needs_group(edge: crate::graph::model::EdgeView, id: Seq<char>) -> bool {
    match edge {
        crate::graph::model::EdgeView::HasSg(membership) => membership.security_group_id == id,
        crate::graph::model::EdgeView::AllowsIngress { rule, .. } => rule.resolved && rule.target
            == (crate::domain::rule::RuleTargetView::SecurityGroupRef { security_group_id: id }),
        crate::graph::model::EdgeView::AllowsEgress { rule, .. } => rule.resolved && rule.target
            == (crate::domain::rule::RuleTargetView::SecurityGroupRef { security_group_id: id }),
        _ => false,
    }
}

/// A rule, once settled, never needs a group that is gone.
pub proof fn law_no_rule_needs_a_missing_group(
    edge: crate::graph::model::EdgeView,
    gone: spec_fn(Seq<char>) -> bool,
    id: Seq<char>,
)
    requires
        !(edge is HasSg),
        needs_group(settled_edge(gone)(edge), id),
    ensures
        !gone(id),
{
}

/// Where no group is gone, every edge stays as it is.
pub proof fn law_nothing_missing_changes_nothing(
    edges: Seq<crate::graph::model::EdgeView>,
    gone: spec_fn(Seq<char>) -> bool,
)
    requires
        forall|id: Seq<char>| !#[trigger] gone(id),
    ensures
        edges.map_values(settled_edge(gone)) == edges,
{
    assert(edges.map_values(settled_edge(gone)) =~= edges);
}

/// The ids of `groups`, those without an id aside.
pub(crate) fn group_ids(groups: &Vec<SecurityGroup>) -> (ids: Vec<String>)
    ensures
        forall|id: Seq<char>| #[trigger] ids.deep_view().contains(id) <==> named(groups@, id),
{
    let mut ids: Vec<String> = Vec::new();
    let mut i: usize = 0;
    while i < groups.len()
        invariant
            0 <= i <= groups@.len(),
            forall|id: Seq<char>| #[trigger]
                ids.deep_view().contains(id) <==> named(groups@.take(i as int), id),
        decreases groups@.len() - i,
    {
        let ghost before = ids.deep_view();
        let ghost front = groups@.take(i as int);
        let ghost longer = groups@.take(i + 1);
        match &groups[i].group_id {
            Some(id) => push_item(&mut ids, id.clone()),
            None => {},
        }
        assert forall|id: Seq<char>| #[trigger] ids.deep_view().contains(id) implies named(
            longer,
            id,
        ) by {
            let k = choose|k: int| 0 <= k < ids.deep_view().len() && ids.deep_view()[k] == id;
            if k < before.len() {
                assert(before[k] == id);
                assert(before.contains(id));
                let j = choose|j: int|
                    0 <= j < front.len() && ((#[trigger] front[j]).group_id matches Some(group_id)
                        && group_id@ == id);
                assert(longer[j] == front[j]);
            } else {
                assert(longer[i as int] == groups@[i as int]);
            }
        }
        assert forall|id: Seq<char>| named(longer, id) implies #[trigger] ids.deep_view().contains(
            id,
        ) by {
            let j = choose|j: int|
                0 <= j < longer.len() && ((#[trigger] longer[j]).group_id matches Some(group_id)
                    && group_id@ == id);
            if j < i {
                assert(front[j] == longer[j]);
                assert(named(front, id));
                assert(before.contains(id));
                let k = choose|k: int| 0 <= k < before.len() && before[k] == id;
                assert(ids.deep_view()[k] == id);
            } else {
                assert(ids.deep_view()[before.len() as int] == id);
            }
        }
        i = i + 1;
    }
    assert(groups@.take(i as int) =~= groups@);
    ids
}

/// Whether a group is gone: it was collected, but not kept.
fn is_gone(collected: &Vec<String>, kept: &Vec<String>, id: &String) -> (gone: bool)
    ensures
        gone == without(collected.deep_view(), kept.deep_view())(id@),
{
    holds_text(collected.as_slice(), id) && !holds_text(kept.as_slice(), id)
}

/// Maps a network interface that is a member of no group that is in
/// `collected` but not in `kept`.
pub(crate) fn map_settled_eni(
    eni: &NetworkInterface,
    account_id: &str,
    collected: &Vec<String>,
    kept: &Vec<String>,
) -> (record: Result<EniRecord, MappingError>)
    ensures
        crate::ingest::map::agrees(
            record,
            settled_eni(account_id@, without(collected.deep_view(), kept.deep_view()))(*eni),
        ),
{
    let record = match map_whole_eni(eni, account_id) {
        Ok(record) => record,
        Err(error) => return Err(error),
    };
    let ghost gone = without(collected.deep_view(), kept.deep_view());
    let ghost f = membership(record.id@, gone);
    let ghost groups = eni.groups@;
    let mut i: usize = 0;
    assert(groups.take(0) =~= Seq::empty());
    while i < eni.groups.len()
        invariant
            0 <= i <= groups.len(),
            groups == eni.groups@,
            gone == without(collected.deep_view(), kept.deep_view()),
            f == membership(record.id@, gone),
            f == membership(
                crate::ingest::map::topology::given(eni.network_interface_id),
                gone,
            ),
            crate::ingest::map::whole::whole_eni(account_id@)(*eni) is Ok,
            crate::ingest::map::map_all(groups.take(i as int), f) is Ok,
        decreases groups.len() - i,
    {
        proof {
            crate::ingest::map::lemma_map_all_step(groups, f, i as int);
        }
        if let Some(group_id) = &eni.groups[i].group_id {
            if is_gone(collected, kept, group_id) {
                proof {
                    crate::ingest::map::lemma_map_all_fault(groups, f, i + 1);
                }
                let mut reason = String::from_str("security group ");
                reason.append(group_id.as_str());
                reason.append(" could not be mapped");
                return Err(
                    MappingError::InvalidField {
                        resource_id: record.id,
                        field: "groups[].group_id",
                        reason,
                    },
                );
            }
        }
        i = i + 1;
    }
    assert(groups.take(i as int) =~= groups);
    Ok(record)
}

fn settle_rule(collected: &Vec<String>, kept: &Vec<String>, rule: SgRule) -> (settled: SgRule)
    ensures
        settled.deep_view() == settled_rule(
            rule.deep_view(),
            without(collected.deep_view(), kept.deep_view()),
        ),
{
    let mut rule = rule;
    let unfollowed = match &rule.target {
        RuleTarget::SecurityGroupRef { security_group_id } => is_gone(
            collected,
            kept,
            security_group_id,
        ),
        RuleTarget::Cidr { .. } => false,
    };
    if unfollowed {
        rule.resolved = false;
    }
    rule
}

/// Leaves the rules unresolved that reference a group that is in `collected`
/// but not in `kept`.
pub(crate) fn settle_edges(
    collected: &Vec<String>,
    kept: &Vec<String>,
    edges: Vec<Edge>,
) -> (settled: Vec<Edge>)
    ensures
        settled.deep_view() == edges.deep_view().map_values(
            settled_edge(without(collected.deep_view(), kept.deep_view())),
        ),
{
    let ghost all = edges@;
    let ghost f = settled_edge(without(collected.deep_view(), kept.deep_view()));
    let mut settled: Vec<Edge> = Vec::new();
    for edge in it: edges
        invariant
            it.seq() == all,
            f == settled_edge(without(collected.deep_view(), kept.deep_view())),
            settled@.len() == it.index(),
            forall|j: int|
                0 <= j < settled@.len() ==> (#[trigger] settled@[j]).deep_view() == f(
                    all[j].deep_view(),
                ),
    {
        assert(edge == all[it.index() as int]);
        let settled_one = match edge {
            Edge::AllowsIngress { security_group_id, rule } => Edge::AllowsIngress {
                security_group_id,
                rule: settle_rule(collected, kept, rule),
            },
            Edge::AllowsEgress { security_group_id, rule } => Edge::AllowsEgress {
                security_group_id,
                rule: settle_rule(collected, kept, rule),
            },
            other => other,
        };
        settled.push(settled_one);
    }
    assert(settled.deep_view() =~= edges.deep_view().map_values(f));
    settled
}

} // verus!
