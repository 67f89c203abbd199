//! Grouping of rules by the resource that owns them.
use vstd::prelude::*;

use crate::domain::rule::{NaclRule, SgRule};
use crate::graph::model::Edge;
use crate::text::{order_text, TextOrder};

verus! {

/// The items that `pairs` gives to `owner`, in order.
pub open spec fn items_of<R>(pairs: Seq<(Seq<char>, R)>, owner: Seq<char>) -> Seq<R>
    decreases pairs.len(),
{
    if pairs.len() == 0 {
        Seq::empty()
    } else {
        let before = items_of(pairs.drop_last(), owner);
        if pairs.last().0 == owner {
            before.push(pairs.last().1)
        } else {
            before
        }
    }
}

/// Whether `groups` is `pairs` grouped by owner: one group per owner, in the
/// order of the owners' texts, each with that owner's items in their order.
pub open spec fn is_grouping<R>(
    groups: Seq<(Seq<char>, Seq<R>)>,
    pairs: Seq<(Seq<char>, R)>,
) -> bool {
    &&& forall|i: int, j: int|
        0 <= i < j < groups.len() ==> crate::text::text_less(
            (#[trigger] groups[i]).0,
            (#[trigger] groups[j]).0,
        )
    &&& forall|i: int|
        0 <= i < groups.len() ==> (#[trigger] groups[i]).1 == items_of(pairs, groups[i].0)
            && groups[i].1.len() > 0
    &&& forall|p: int|
        0 <= p < pairs.len() ==> exists|i: int|
            0 <= i < groups.len() && (#[trigger] groups[i]).0 == (#[trigger] pairs[p]).0
}

proof fn lemma_items_come_from_pairs<R>(pairs: Seq<(Seq<char>, R)>, owner: Seq<char>)
    ensures
        items_of(pairs, owner).len() > 0 <==> exists|p: int|
            0 <= p < pairs.len() && (#[trigger] pairs[p]).0 == owner,
    decreases pairs.len(),
{
    if pairs.len() > 0 {
        let front = pairs.drop_last();
        lemma_items_come_from_pairs(front, owner);
        if items_of(pairs, owner).len() > 0 {
            if pairs.last().0 == owner {
                assert(pairs[pairs.len() - 1].0 == owner);
            } else {
                let p = choose|p: int| 0 <= p < front.len() && (#[trigger] front[p]).0 == owner;
                assert(pairs[p].0 == owner);
            }
        }
        if exists|p: int| 0 <= p < pairs.len() && (#[trigger] pairs[p]).0 == owner {
            let p = choose|p: int| 0 <= p < pairs.len() && (#[trigger] pairs[p]).0 == owner;
            if p < front.len() {
                assert(front[p].0 == owner);
            }
        }
    }
}

/// Every group of one grouping stands in any other, at a position no lower.
proof fn lemma_same_position<R>(
    a: Seq<(Seq<char>, Seq<R>)>,
    b: Seq<(Seq<char>, Seq<R>)>,
    pairs: Seq<(Seq<char>, R)>,
    i: int,
)
    requires
        is_grouping(a, pairs),
        is_grouping(b, pairs),
        0 <= i < a.len(),
    ensures
        i < b.len(),
        exists|k: int| i <= k < b.len() && b[k].0 == a[i].0,
    decreases i,
{
    let owner = a[i].0;
    lemma_items_come_from_pairs(pairs, owner);
    assert(a[i].1 == items_of(pairs, owner));
    let p = choose|p: int| 0 <= p < pairs.len() && (#[trigger] pairs[p]).0 == owner;
    let k = choose|k: int| 0 <= k < b.len() && (#[trigger] b[k]).0 == pairs[p].0;
    assert(b[k].0 == owner);
    if i > 0 {
        lemma_same_position(a, b, pairs, i - 1);
        let m = choose|m: int| i - 1 <= m < b.len() && b[m].0 == a[i - 1].0;
        assert(crate::text::text_less(a[i - 1].0, a[i].0));
        if k <= m {
            if k < m {
                assert(crate::text::text_less(b[k].0, b[m].0));
                crate::text::lemma_text_less_transitive(b[k].0, b[m].0, b[k].0);
            }
            crate::text::lemma_text_less_irreflexive(owner);
        }
    }
}

/// There is only one way to group the same items.
pub proof fn law_grouping_is_unique<R>(
    a: Seq<(Seq<char>, Seq<R>)>,
    b: Seq<(Seq<char>, Seq<R>)>,
    pairs: Seq<(Seq<char>, R)>,
)
    requires
        is_grouping(a, pairs),
        is_grouping(b, pairs),
    ensures
        a == b,
{
    if a.len() > 0 {
        lemma_same_position(a, b, pairs, a.len() - 1);
    }
    if b.len() > 0 {
        lemma_same_position(b, a, pairs, b.len() - 1);
    }
    assert forall|i: int| 0 <= i < a.len() implies a[i] == b[i] by {
        lemma_same_position(a, b, pairs, i);
        lemma_same_position(b, a, pairs, i);
        let k = choose|k: int| i <= k < b.len() && b[k].0 == a[i].0;
        let m = choose|m: int| i <= m < a.len() && a[m].0 == b[i].0;
        if i < k {
            assert(crate::text::text_less(b[i].0, b[k].0));
            if i < m {
                assert(crate::text::text_less(a[i].0, a[m].0));
                crate::text::lemma_text_less_transitive(b[i].0, b[k].0, b[i].0);
            }
            crate::text::lemma_text_less_irreflexive(b[i].0);
        }
        assert(a[i].0 == b[i].0);
        assert(a[i].1 == items_of(pairs, a[i].0));
        assert(b[i].1 == items_of(pairs, b[i].0));
    }
    assert(a =~= b);
}

/// `pairs` grouped by owner.
pub open spec fn grouped<R>(pairs: Seq<(Seq<char>, R)>) -> Seq<(Seq<char>, Seq<R>)> {
    choose|groups: Seq<(Seq<char>, Seq<R>)>| is_grouping(groups, pairs)
}

/// Whatever groups the items is the grouping of them.
pub proof fn lemma_grouped<R>(groups: Seq<(Seq<char>, Seq<R>)>, pairs: Seq<(Seq<char>, R)>)
    requires
        is_grouping(groups, pairs),
    ensures
        grouped(pairs) == groups,
{
    law_grouping_is_unique(grouped(pairs), groups, pairs);
}

/// Where a new owner belongs among groups in the order of their owners.
proof fn lemma_place_of<R>(groups: Seq<(Seq<char>, Seq<R>)>, owner: Seq<char>, from: int) -> (place:
    int)
    requires
        0 <= from <= groups.len(),
        forall|i: int, j: int|
            0 <= i < j < groups.len() ==> crate::text::text_less(
                (#[trigger] groups[i]).0,
                (#[trigger] groups[j]).0,
            ),
        forall|i: int|
            0 <= i < from ==> crate::text::text_less((#[trigger] groups[i]).0, owner),
        forall|i: int| 0 <= i < groups.len() ==> (#[trigger] groups[i]).0 != owner,
    ensures
        0 <= place <= groups.len(),
        forall|i: int|
            0 <= i < place ==> crate::text::text_less((#[trigger] groups[i]).0, owner),
        forall|i: int|
            place <= i < groups.len() ==> crate::text::text_less(owner, (#[trigger] groups[i]).0),
    decreases groups.len() - from,
{
    if from == groups.len() {
        from
    } else {
        crate::text::lemma_text_less_total(groups[from].0, owner);
        if crate::text::text_less(groups[from].0, owner) {
            lemma_place_of(groups, owner, from + 1)
        } else {
            assert forall|i: int| from <= i < groups.len() implies crate::text::text_less(
                owner,
                (#[trigger] groups[i]).0,
            ) by {
                if i > from {
                    crate::text::lemma_text_less_transitive(owner, groups[from].0, groups[i].0);
                }
            }
            from
        }
    }
}

/// The number of items in all groups together.
pub open spec fn total<R>(groups: Seq<(Seq<char>, Seq<R>)>) -> nat
    decreases groups.len(),
{
    if groups.len() == 0 {
        0
    } else {
        total(groups.drop_last()) + groups.last().1.len()
    }
}

proof fn lemma_total_update<R>(
    groups: Seq<(Seq<char>, Seq<R>)>,
    k: int,
    group: (Seq<char>, Seq<R>),
)
    requires
        0 <= k < groups.len(),
    ensures
        total(groups.update(k, group)) == total(groups) - groups[k].1.len() + group.1.len(),
    decreases groups.len(),
{
    let updated = groups.update(k, group);
    if k < groups.len() - 1 {
        lemma_total_update(groups.drop_last(), k, group);
        assert(updated.drop_last() =~= groups.drop_last().update(k, group));
    } else {
        assert(updated.drop_last() =~= groups.drop_last());
    }
}

proof fn lemma_total_insert<R>(
    groups: Seq<(Seq<char>, Seq<R>)>,
    k: int,
    group: (Seq<char>, Seq<R>),
)
    requires
        0 <= k <= groups.len(),
    ensures
        total(groups.insert(k, group)) == total(groups) + group.1.len(),
    decreases groups.len(),
{
    let longer = groups.insert(k, group);
    if k < groups.len() {
        lemma_total_insert(groups.drop_last(), k, group);
        assert(longer.drop_last() =~= groups.drop_last().insert(k, group));
    } else {
        assert(longer.drop_last() =~= groups);
    }
}

/// Any items can be grouped, and none is lost.
proof fn lemma_grouping_exists<R>(pairs: Seq<(Seq<char>, R)>) -> (groups: Seq<(Seq<char>, Seq<R>)>)
    ensures
        is_grouping(groups, pairs),
        total(groups) == pairs.len(),
    decreases pairs.len(),
{
    if pairs.len() == 0 {
        Seq::empty()
    } else {
        let front = pairs.drop_last();
        let before = lemma_grouping_exists(front);
        let owner = pairs.last().0;
        let value = pairs.last().1;
        assert(front.push((owner, value)) =~= pairs);
        if exists|k: int| 0 <= k < before.len() && (#[trigger] before[k]).0 == owner {
            let k = choose|k: int| 0 <= k < before.len() && (#[trigger] before[k]).0 == owner;
            let after = before.update(k, (owner, before[k].1.push(value)));
            lemma_owner_kept(before, after, front, owner, value, k);
            lemma_total_update(before, k, (owner, before[k].1.push(value)));
            after
        } else {
            let k = lemma_place_of(before, owner, 0);
            let after = before.insert(k, (owner, seq![value]));
            lemma_owner_added(before, after, front, owner, value, k);
            lemma_total_insert(before, k, (owner, seq![value]));
            after
        }
    }
}

/// The grouping of items groups them.
pub proof fn law_grouped_is_a_grouping<R>(pairs: Seq<(Seq<char>, R)>)
    ensures
        is_grouping(grouped(pairs), pairs),
{
    let groups = lemma_grouping_exists(pairs);
    lemma_grouped(groups, pairs);
}

/// Grouping loses no item and adds none.
pub proof fn law_grouping_keeps_every_item<R>(pairs: Seq<(Seq<char>, R)>)
    ensures
        total(grouped(pairs)) == pairs.len(),
{
    let groups = lemma_grouping_exists(pairs);
    lemma_grouped(groups, pairs);
}

/// An owner has a group exactly where it has an item.
pub proof fn law_owner_has_group_iff_it_has_items<R>(
    pairs: Seq<(Seq<char>, R)>,
    owner: Seq<char>,
)
    ensures
        (exists|i: int| 0 <= i < grouped(pairs).len() && (#[trigger] grouped(pairs)[i]).0 == owner)
            <==> (exists|p: int| 0 <= p < pairs.len() && (#[trigger] pairs[p]).0 == owner),
{
    let groups = grouped(pairs);
    law_grouped_is_a_grouping(pairs);
    lemma_items_come_from_pairs(pairs, owner);
    if exists|i: int| 0 <= i < groups.len() && (#[trigger] groups[i]).0 == owner {
        let i = choose|i: int| 0 <= i < groups.len() && (#[trigger] groups[i]).0 == owner;
        assert(groups[i].1 == items_of(pairs, owner));
    }
    if exists|p: int| 0 <= p < pairs.len() && (#[trigger] pairs[p]).0 == owner {
        let p = choose|p: int| 0 <= p < pairs.len() && (#[trigger] pairs[p]).0 == owner;
        let i = choose|i: int| 0 <= i < groups.len() && (#[trigger] groups[i]).0 == pairs[p].0;
        assert(groups[i].0 == owner);
    }
}

/// Adds one item to a grouping.
pub(crate) fn add_item<R: DeepView>(
    groups: &mut Vec<(String, Vec<R>)>,
    owner: &String,
    item: R,
    Ghost(pairs): Ghost<Seq<(Seq<char>, R::V)>>,
)
    requires
        is_grouping(old(groups).deep_view(), pairs),
    ensures
        is_grouping(final(groups).deep_view(), pairs.push((owner@, item.deep_view()))),
{
    let ghost before = groups.deep_view();
    let ghost longer = pairs.push((owner@, item.deep_view()));
    let ghost value = item.deep_view();
    proof {
        assert(longer.drop_last() =~= pairs);
        assert forall|i: int| 0 <= i < before.len() implies (#[trigger] before[i]).0 == groups@[i].0@
            && before[i].1 == groups@[i].1.deep_view() by {}
        assert forall|other: Seq<char>| other != owner@ implies #[trigger] items_of(longer, other)
            == items_of(pairs, other) by {}
    }
    let mut k: usize = 0;
    while k < groups.len()
        invariant
            0 <= k <= groups@.len(),
            groups.deep_view() == before,
            forall|i: int|
                0 <= i < before.len() ==> (#[trigger] before[i]).0 == groups@[i].0@
                    && before[i].1 == groups@[i].1.deep_view(),
            forall|i: int| 0 <= i < k ==> crate::text::text_less((#[trigger] before[i]).0, owner@),
            is_grouping(before, pairs),
            longer == pairs.push((owner@, item.deep_view())),
            longer.drop_last() == pairs,
            value == item.deep_view(),
            forall|other: Seq<char>|
                other != owner@ ==> #[trigger] items_of(longer, other) == items_of(pairs, other),
        decreases groups@.len() - k,
    {
        assert(before[k as int].0 == groups@[k as int].0@);
        match order_text(groups[k].0.as_str(), owner.as_str()) {
            TextOrder::Less => {
                k = k + 1;
            },
            TextOrder::Equal => {
                let (id, mut items) = groups.remove(k);
                let ghost old_items = items.deep_view();
                assert(old_items == before[k as int].1);
                items.push(item);
                assert(items.deep_view() =~= old_items.push(value));
                groups.insert(k, (id, items));
                proof {
                    let after = groups.deep_view();
                    assert(after =~= before.update(k as int, (owner@, old_items.push(value))));
                    lemma_owner_kept(before, after, pairs, owner@, value, k as int);
                }
                return ;
            },
            TextOrder::Greater => {
                let mut items: Vec<R> = Vec::new();
                items.push(item);
                assert(items.deep_view() =~= seq![value]);
                groups.insert(k, (owner.clone(), items));
                proof {
                    let after = groups.deep_view();
                    assert(after =~= before.insert(k as int, (owner@, seq![value])));
                    assert forall|i: int| k <= i < before.len() implies crate::text::text_less(
                        owner@,
                        (#[trigger] before[i]).0,
                    ) by {
                        if i > k {
                            crate::text::lemma_text_less_transitive(
                                owner@,
                                before[k as int].0,
                                before[i].0,
                            );
                        }
                    }
                    lemma_owner_added(before, after, pairs, owner@, value, k as int);
                }
                return ;
            },
        }
    }
    let mut items: Vec<R> = Vec::new();
    items.push(item);
    assert(items.deep_view() =~= seq![value]);
    groups.push((owner.clone(), items));
    proof {
        let after = groups.deep_view();
        assert(after =~= before.insert(k as int, (owner@, seq![value])));
        lemma_owner_added(before, after, pairs, owner@, value, k as int);
    }
}

proof fn lemma_owner_kept<R>(
    before: Seq<(Seq<char>, Seq<R>)>,
    after: Seq<(Seq<char>, Seq<R>)>,
    pairs: Seq<(Seq<char>, R)>,
    owner: Seq<char>,
    value: R,
    k: int,
)
    requires
        is_grouping(before, pairs),
        0 <= k < before.len(),
        before[k].0 == owner,
        after == before.update(k, (owner, before[k].1.push(value))),
    ensures
        is_grouping(after, pairs.push((owner, value))),
{
    let longer = pairs.push((owner, value));
    assert(longer.drop_last() =~= pairs);
    assert forall|i: int, j: int| 0 <= i < j < after.len() implies crate::text::text_less(
        (#[trigger] after[i]).0,
        (#[trigger] after[j]).0,
    ) by {
        assert(crate::text::text_less(before[i].0, before[j].0));
    }
    assert forall|i: int| 0 <= i < after.len() implies (#[trigger] after[i]).1 == items_of(
        longer,
        after[i].0,
    ) && after[i].1.len() > 0 by {
        assert(before[i].1 == items_of(pairs, before[i].0));
        if i != k {
            if i < k {
                assert(crate::text::text_less(before[i].0, before[k].0));
            } else {
                assert(crate::text::text_less(before[k].0, before[i].0));
            }
            crate::text::lemma_text_less_irreflexive(owner);
        }
    }
    assert forall|p: int| 0 <= p < longer.len() implies exists|i: int|
        0 <= i < after.len() && (#[trigger] after[i]).0 == (#[trigger] longer[p]).0 by {
        if p < pairs.len() {
            assert(longer[p] == pairs[p]);
            let i = choose|i: int| 0 <= i < before.len() && (#[trigger] before[i]).0 == pairs[p].0;
            assert(after[i].0 == longer[p].0);
        } else {
            assert(after[k].0 == longer[p].0);
        }
    }
}

proof fn lemma_owner_added<R>(
    before: Seq<(Seq<char>, Seq<R>)>,
    after: Seq<(Seq<char>, Seq<R>)>,
    pairs: Seq<(Seq<char>, R)>,
    owner: Seq<char>,
    value: R,
    k: int,
)
    requires
        is_grouping(before, pairs),
        0 <= k <= before.len(),
        forall|i: int| 0 <= i < k ==> crate::text::text_less((#[trigger] before[i]).0, owner),
        forall|i: int|
            k <= i < before.len() ==> crate::text::text_less(owner, (#[trigger] before[i]).0),
        after == before.insert(k, (owner, seq![value])),
    ensures
        is_grouping(after, pairs.push((owner, value))),
{
    let longer = pairs.push((owner, value));
    assert(longer.drop_last() =~= pairs);
    crate::text::lemma_text_less_irreflexive(owner);
    lemma_items_come_from_pairs(pairs, owner);
    assert(items_of(pairs, owner).len() == 0) by {
        if items_of(pairs, owner).len() > 0 {
            let p = choose|p: int| 0 <= p < pairs.len() && (#[trigger] pairs[p]).0 == owner;
            let i = choose|i: int| 0 <= i < before.len() && (#[trigger] before[i]).0 == pairs[p].0;
            assert(before[i].0 == owner);
        }
    }
    assert(items_of(longer, owner) =~= seq![value]);
    assert forall|i: int, j: int| 0 <= i < j < after.len() implies crate::text::text_less(
        (#[trigger] after[i]).0,
        (#[trigger] after[j]).0,
    ) by {
        if i < k {
            assert(after[i] == before[i]);
            if j > k {
                assert(after[j] == before[j - 1]);
            }
        } else if i == k {
            assert(after[j] == before[j - 1]);
        } else {
            assert(after[i] == before[i - 1]);
            assert(after[j] == before[j - 1]);
        }
    }
    assert forall|i: int| 0 <= i < after.len() implies (#[trigger] after[i]).1 == items_of(
        longer,
        after[i].0,
    ) && after[i].1.len() > 0 by {
        if i != k {
            let b = if i < k {
                i
            } else {
                i - 1
            };
            assert(after[i] == before[b]);
            assert(before[b].1 == items_of(pairs, before[b].0));
        }
    }
    assert forall|p: int| 0 <= p < longer.len() implies exists|i: int|
        0 <= i < after.len() && (#[trigger] after[i]).0 == (#[trigger] longer[p]).0 by {
        if p < pairs.len() {
            assert(longer[p] == pairs[p]);
            let b = choose|b: int| 0 <= b < before.len() && (#[trigger] before[b]).0 == pairs[p].0;
            let i = if b < k {
                b
            } else {
                b + 1
            };
            assert(after[i].0 == longer[p].0);
        } else {
            assert(after[k].0 == longer[p].0);
        }
    }
}

/// The rules of the `ALLOWS_EGRESS` edges among `edges`, each with its owner.
pub open spec fn egress_pairs(edges: Seq<crate::graph::model::EdgeView>) -> Seq<
    (Seq<char>, crate::domain::rule::SgRuleView),
>
    decreases edges.len(),
{
    if edges.len() == 0 {
        Seq::empty()
    } else {
        let before = egress_pairs(edges.drop_last());
        match edges.last() {
            crate::graph::model::EdgeView::AllowsEgress { security_group_id, rule } => before.push(
                (security_group_id, rule),
            ),
            _ => before,
        }
    }
}

/// The rules of the `ALLOWS_INGRESS` edges among `edges`, each with its owner.
pub open spec fn ingress_pairs(edges: Seq<crate::graph::model::EdgeView>) -> Seq<
    (Seq<char>, crate::domain::rule::SgRuleView),
>
    decreases edges.len(),
{
    if edges.len() == 0 {
        Seq::empty()
    } else {
        let before = ingress_pairs(edges.drop_last());
        match edges.last() {
            crate::graph::model::EdgeView::AllowsIngress {
                security_group_id,
                rule,
            } => before.push((security_group_id, rule)),
            _ => before,
        }
    }
}

/// The rules of the `HAS_RULE` edges among `edges`, each with its owner.
pub open spec fn nacl_pairs(edges: Seq<crate::graph::model::EdgeView>) -> Seq<
    (Seq<char>, crate::domain::rule::NaclRuleView),
>
    decreases edges.len(),
{
    if edges.len() == 0 {
        Seq::empty()
    } else {
        let before = nacl_pairs(edges.drop_last());
        match edges.last() {
            crate::graph::model::EdgeView::HasRule { network_acl_id, rule } => before.push(
                (network_acl_id, rule),
            ),
            _ => before,
        }
    }
}

/// Security group rules grouped by owning `SecurityGroup` id.
pub type SgRulesByGroup = Vec<(String, Vec<SgRule>)>;

/// Network ACL rules grouped by owning `NetworkACL` id.
pub type NaclRulesByAcl = Vec<(String, Vec<NaclRule>)>;

/// Groups the rule edges among `edges` by the resource that owns them: egress
/// rules, ingress rules, network ACL rules.
pub fn group_rule_edges(edges: &[Edge]) -> (groups: (
    SgRulesByGroup,
    SgRulesByGroup,
    NaclRulesByAcl,
))
    ensures
        is_grouping(groups.0.deep_view(), egress_pairs(edges.deep_view())),
        is_grouping(groups.1.deep_view(), ingress_pairs(edges.deep_view())),
        is_grouping(groups.2.deep_view(), nacl_pairs(edges.deep_view())),
        groups.0.deep_view() == grouped(egress_pairs(edges.deep_view())),
        groups.1.deep_view() == grouped(ingress_pairs(edges.deep_view())),
        groups.2.deep_view() == grouped(nacl_pairs(edges.deep_view())),
{
    let ghost model = edges.deep_view();
    let mut egress: SgRulesByGroup = Vec::new();
    let mut ingress: SgRulesByGroup = Vec::new();
    let mut nacl: NaclRulesByAcl = Vec::new();
    let mut i: usize = 0;
    assert(model.take(0) =~= Seq::empty());
    while i < edges.len()
        invariant
            0 <= i <= edges@.len(),
            model == edges.deep_view(),
            is_grouping(egress.deep_view(), egress_pairs(model.take(i as int))),
            is_grouping(ingress.deep_view(), ingress_pairs(model.take(i as int))),
            is_grouping(nacl.deep_view(), nacl_pairs(model.take(i as int))),
        decreases edges@.len() - i,
    {
        assert(model.take(i + 1).drop_last() =~= model.take(i as int));
        assert(model.take(i + 1).last() == edges@[i as int].deep_view());
        match &edges[i] {
            Edge::AllowsEgress { security_group_id, rule } => {
                add_item(
                    &mut egress,
                    security_group_id,
                    rule.clone(),
                    Ghost(egress_pairs(model.take(i as int))),
                );
            },
            Edge::AllowsIngress { security_group_id, rule } => {
                add_item(
                    &mut ingress,
                    security_group_id,
                    rule.clone(),
                    Ghost(ingress_pairs(model.take(i as int))),
                );
            },
            Edge::HasRule { network_acl_id, rule } => {
                add_item(
                    &mut nacl,
                    network_acl_id,
                    rule.clone(),
                    Ghost(nacl_pairs(model.take(i as int))),
                );
            },
            _ => {},
        }
        i = i + 1;
    }
    assert(model.take(i as int) =~= model);
    proof {
        lemma_grouped(egress.deep_view(), egress_pairs(model));
        lemma_grouped(ingress.deep_view(), ingress_pairs(model));
        lemma_grouped(nacl.deep_view(), nacl_pairs(model));
    }
    (egress, ingress, nacl)
}

} // verus!
