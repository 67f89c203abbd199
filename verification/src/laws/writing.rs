//! Writing a graph: which statement carries each node and each edge, and what
//! its row says.
use vstd::prelude::*;

verus! {

/// An item of an owner stands in the pairs with that owner.
pub proof fn lemma_item_has_its_pair<R>(pairs: Seq<(Seq<char>, R)>, owner: Seq<char>, k: int)
    requires
        0 <= k < crate::graph::groups::items_of(pairs, owner).len(),
    ensures
        pairs.contains((owner, crate::graph::groups::items_of(pairs, owner)[k])),
    decreases pairs.len(),
{
    let front = pairs.drop_last();
    let before = crate::graph::groups::items_of(front, owner);
    if k < before.len() {
        lemma_item_has_its_pair(front, owner, k);
        let p = choose|p: int| 0 <= p < front.len() && front[p] == (owner, before[k]);
        assert(pairs[p] == front[p]);
    } else {
        assert(pairs[pairs.len() - 1] == pairs.last());
    }
}

proof fn lemma_pair_has_its_item<R>(pairs: Seq<(Seq<char>, R)>, p: int)
    requires
        0 <= p < pairs.len(),
    ensures
        crate::graph::groups::items_of(pairs, pairs[p].0).contains(pairs[p].1),
    decreases pairs.len(),
{
    let front = pairs.drop_last();
    let owner = pairs[p].0;
    let items = crate::graph::groups::items_of(pairs, owner);
    let before = crate::graph::groups::items_of(front, owner);
    if p < front.len() {
        lemma_pair_has_its_item(front, p);
        assert(front[p] == pairs[p]);
        let k = choose|k: int| 0 <= k < before.len() && before[k] == pairs[p].1;
        assert(items[k] == before[k]);
    } else {
        assert(items[before.len() as int] == pairs[p].1);
    }
}

/// A grouping holds an item under an owner exactly where the pairs do.
pub proof fn law_groups_hold_the_pairs<R>(
    pairs: Seq<(Seq<char>, R)>,
    owner: Seq<char>,
    item: R,
)
    ensures
        pairs.contains((owner, item)) <==> exists|i: int|
            0 <= i < crate::graph::groups::grouped(pairs).len() && (
            #[trigger] crate::graph::groups::grouped(pairs)[i]).0 == owner
                && crate::graph::groups::grouped(pairs)[i].1.contains(item),
{
    let groups = crate::graph::groups::grouped(pairs);
    crate::graph::groups::law_grouped_is_a_grouping(pairs);
    if pairs.contains((owner, item)) {
        let p = choose|p: int| 0 <= p < pairs.len() && pairs[p] == (owner, item);
        lemma_pair_has_its_item(pairs, p);
        let i = choose|i: int| 0 <= i < groups.len() && (#[trigger] groups[i]).0 == pairs[p].0;
        assert(groups[i].1 == crate::graph::groups::items_of(pairs, groups[i].0));
        assert(groups[i].1.contains(item));
    }
    if exists|i: int|
        0 <= i < groups.len() && (#[trigger] groups[i]).0 == owner && groups[i].1.contains(item) {
        let i = choose|i: int|
            0 <= i < groups.len() && (#[trigger] groups[i]).0 == owner && groups[i].1.contains(
                item,
            );
        let k = choose|k: int| 0 <= k < groups[i].1.len() && groups[i].1[k] == item;
        assert(groups[i].1 == crate::graph::groups::items_of(pairs, owner));
        lemma_item_has_its_pair(pairs, owner, k);
    }
}

/// Adding `x` at the end of `edges` adds it at the end of those that `keep`
/// keeps, where it keeps it.
proof fn lemma_filter_step(
    edges: Seq<crate::graph::model::EdgeView>,
    keep: spec_fn(crate::graph::model::EdgeView) -> bool,
)
    requires
        edges.len() > 0,
    ensures
        edges.filter(keep) == (if keep(edges.last()) {
            edges.drop_last().filter(keep).push(edges.last())
        } else {
            edges.drop_last().filter(keep)
        }),
{
    reveal(Seq::filter);
}

/// Each kind of edge goes to the write of that kind, with its order kept: the
/// edges written as memberships are the memberships among the edges, and so on
/// for each kind.
pub proof fn law_edges_are_sorted_by_kind(edges: Seq<crate::graph::model::EdgeView>)
    ensures
        crate::graph::plan::has_sg_of(edges).map_values(
            |e: crate::ports::HasSgEdgeView| crate::graph::model::EdgeView::HasSg(e),
        ) == edges.filter(|e: crate::graph::model::EdgeView| e is HasSg),
        crate::graph::plan::in_subnet_of(edges).map_values(
            |e: crate::ports::InSubnetEdgeView| crate::graph::model::EdgeView::InSubnet(e),
        ) == edges.filter(|e: crate::graph::model::EdgeView| e is InSubnet),
        crate::graph::plan::protected_by_of(edges).map_values(
            |e: crate::ports::ProtectedByEdgeView| crate::graph::model::EdgeView::ProtectedBy(e),
        ) == edges.filter(|e: crate::graph::model::EdgeView| e is ProtectedBy),
        crate::graph::plan::uses_route_table_of(edges).map_values(
            |e: crate::ports::UsesRouteTableEdgeView|
                crate::graph::model::EdgeView::UsesRouteTable(e),
        ) == edges.filter(|e: crate::graph::model::EdgeView| e is UsesRouteTable),
        crate::graph::plan::routes_to_of(edges).map_values(
            |e: crate::ports::RoutesToEdgeView| crate::graph::model::EdgeView::RoutesTo(e),
        ) == edges.filter(|e: crate::graph::model::EdgeView| e is RoutesTo),
        crate::graph::groups::ingress_pairs(edges).map_values(
            |e: (Seq<char>, crate::domain::rule::SgRuleView)|
                crate::graph::model::EdgeView::AllowsIngress { security_group_id: e.0, rule: e.1 },
        ) == edges.filter(|e: crate::graph::model::EdgeView| e is AllowsIngress),
        crate::graph::groups::egress_pairs(edges).map_values(
            |e: (Seq<char>, crate::domain::rule::SgRuleView)|
                crate::graph::model::EdgeView::AllowsEgress { security_group_id: e.0, rule: e.1 },
        ) == edges.filter(|e: crate::graph::model::EdgeView| e is AllowsEgress),
        crate::graph::groups::nacl_pairs(edges).map_values(
            |e: (Seq<char>, crate::domain::rule::NaclRuleView)|
                crate::graph::model::EdgeView::HasRule { network_acl_id: e.0, rule: e.1 },
        ) == edges.filter(|e: crate::graph::model::EdgeView| e is HasRule),
    decreases edges.len(),
{
    let k1 = |e: crate::graph::model::EdgeView| e is HasSg;
    let k2 = |e: crate::graph::model::EdgeView| e is InSubnet;
    let k3 = |e: crate::graph::model::EdgeView| e is ProtectedBy;
    let k4 = |e: crate::graph::model::EdgeView| e is UsesRouteTable;
    let k5 = |e: crate::graph::model::EdgeView| e is RoutesTo;
    let k6 = |e: crate::graph::model::EdgeView| e is AllowsIngress;
    let k7 = |e: crate::graph::model::EdgeView| e is AllowsEgress;
    let k8 = |e: crate::graph::model::EdgeView| e is HasRule;
    let m1 = |e: crate::ports::HasSgEdgeView| crate::graph::model::EdgeView::HasSg(e);
    let m2 = |e: crate::ports::InSubnetEdgeView| crate::graph::model::EdgeView::InSubnet(e);
    let m3 = |e: crate::ports::ProtectedByEdgeView| crate::graph::model::EdgeView::ProtectedBy(e);
    let m4 = |e: crate::ports::UsesRouteTableEdgeView|
        crate::graph::model::EdgeView::UsesRouteTable(e);
    let m5 = |e: crate::ports::RoutesToEdgeView| crate::graph::model::EdgeView::RoutesTo(e);
    let m6 = |e: (Seq<char>, crate::domain::rule::SgRuleView)|
        crate::graph::model::EdgeView::AllowsIngress { security_group_id: e.0, rule: e.1 };
    let m7 = |e: (Seq<char>, crate::domain::rule::SgRuleView)|
        crate::graph::model::EdgeView::AllowsEgress { security_group_id: e.0, rule: e.1 };
    let m8 = |e: (Seq<char>, crate::domain::rule::NaclRuleView)|
        crate::graph::model::EdgeView::HasRule { network_acl_id: e.0, rule: e.1 };
    if edges.len() > 0 {
        law_edges_are_sorted_by_kind(edges.drop_last());
        lemma_filter_step(edges, k1);
        lemma_filter_step(edges, k2);
        lemma_filter_step(edges, k3);
        lemma_filter_step(edges, k4);
        lemma_filter_step(edges, k5);
        lemma_filter_step(edges, k6);
        lemma_filter_step(edges, k7);
        lemma_filter_step(edges, k8);
    } else {
        reveal(Seq::filter);
    }
    assert(crate::graph::plan::has_sg_of(edges).map_values(m1) =~= edges.filter(k1));
    assert(crate::graph::plan::in_subnet_of(edges).map_values(m2) =~= edges.filter(k2));
    assert(crate::graph::plan::protected_by_of(edges).map_values(m3) =~= edges.filter(k3));
    assert(crate::graph::plan::uses_route_table_of(edges).map_values(m4) =~= edges.filter(k4));
    assert(crate::graph::plan::routes_to_of(edges).map_values(m5) =~= edges.filter(k5));
    assert(crate::graph::groups::ingress_pairs(edges).map_values(m6) =~= edges.filter(k6));
    assert(crate::graph::groups::egress_pairs(edges).map_values(m7) =~= edges.filter(k7));
    assert(crate::graph::groups::nacl_pairs(edges).map_values(m8) =~= edges.filter(k8));
}

/// A batch is written in fourteen steps, one per kind of node and of edge, each
/// with what the batch holds of that kind.
pub proof fn law_plan_has_each_kind_once(batch: crate::graph::model::GraphBatchView)
    ensures
        ({
            let plan = crate::graph::plan::write_plan(batch);
            &&& plan.len() == 14
            &&& plan[0] == crate::graph::plan::GraphWriteView::Enis(batch.enis)
            &&& plan[1] == crate::graph::plan::GraphWriteView::SecurityGroups(
                batch.security_groups,
            )
            &&& plan[2] == crate::graph::plan::GraphWriteView::NetworkAcls(batch.network_acls)
            &&& plan[3] == crate::graph::plan::GraphWriteView::Subnets(batch.subnets)
            &&& plan[4] == crate::graph::plan::GraphWriteView::Vpcs(batch.vpcs)
            &&& plan[5] == crate::graph::plan::GraphWriteView::RouteTables(batch.route_tables)
            &&& plan[6] is HasSg && plan[7] is InSubnet && plan[8] is ProtectedBy
            &&& plan[9] is UsesRouteTable && plan[10] is RoutesTo && plan[11] is AllowsIngress
            &&& plan[12] is AllowsEgress && plan[13] is HasRules
        }),
{
}

/// An ingress edge of a batch is written among the ingress rules of its group,
/// and nothing else is; an egress edge among the egress rules, and nothing else.
pub proof fn law_rules_keep_their_direction_in_the_plan(
    batch: crate::graph::model::GraphBatchView,
    security_group_id: Seq<char>,
    rule: crate::domain::rule::SgRuleView,
)
    ensures
        ({
            let plan = crate::graph::plan::write_plan(batch);
            let ingress = plan[11]->AllowsIngress_0;
            let egress = plan[12]->AllowsEgress_0;
            &&& batch.edges.contains(
                crate::graph::model::EdgeView::AllowsIngress { security_group_id, rule },
            ) <==> exists|i: int|
                0 <= i < ingress.len() && (#[trigger] ingress[i]).0 == security_group_id
                    && ingress[i].1.contains(rule)
            &&& batch.edges.contains(
                crate::graph::model::EdgeView::AllowsEgress { security_group_id, rule },
            ) <==> exists|i: int|
                0 <= i < egress.len() && (#[trigger] egress[i]).0 == security_group_id
                    && egress[i].1.contains(rule)
        }),
{
    let plan = crate::graph::plan::write_plan(batch);
    let edges = batch.edges;
    let ingress_pairs = crate::graph::groups::ingress_pairs(edges);
    let egress_pairs = crate::graph::groups::egress_pairs(edges);
    law_groups_hold_the_pairs(ingress_pairs, security_group_id, rule);
    law_groups_hold_the_pairs(egress_pairs, security_group_id, rule);
    law_edges_are_sorted_by_kind(edges);
    let k6 = |e: crate::graph::model::EdgeView| e is AllowsIngress;
    let k7 = |e: crate::graph::model::EdgeView| e is AllowsEgress;
    let m6 = |e: (Seq<char>, crate::domain::rule::SgRuleView)|
        crate::graph::model::EdgeView::AllowsIngress { security_group_id: e.0, rule: e.1 };
    let m7 = |e: (Seq<char>, crate::domain::rule::SgRuleView)|
        crate::graph::model::EdgeView::AllowsEgress { security_group_id: e.0, rule: e.1 };
    assert(ingress_pairs.map_values(m6) == edges.filter(k6));
    assert(egress_pairs.map_values(m7) == edges.filter(k7));
    let pair = (security_group_id, rule);
    lemma_filter_holds(edges, k6, m6(pair));
    lemma_filter_holds(edges, k7, m7(pair));
    lemma_map_holds(ingress_pairs, m6, pair);
    lemma_map_holds(egress_pairs, m7, pair);
    assert(plan[11]->AllowsIngress_0 == crate::graph::groups::grouped(ingress_pairs));
    assert(plan[12]->AllowsEgress_0 == crate::graph::groups::grouped(egress_pairs));
}

proof fn lemma_filter_holds(
    edges: Seq<crate::graph::model::EdgeView>,
    keep: spec_fn(crate::graph::model::EdgeView) -> bool,
    edge: crate::graph::model::EdgeView,
)
    ensures
        edges.filter(keep).contains(edge) <==> edges.contains(edge) && keep(edge),
    decreases edges.len(),
{
    if edges.len() == 0 {
        reveal(Seq::filter);
    } else {
        let front = edges.drop_last();
        let before = front.filter(keep);
        lemma_filter_step(edges, keep);
        lemma_filter_holds(front, keep, edge);
        let all = edges.filter(keep);
        if edges.contains(edge) && keep(edge) {
            let i = choose|i: int| 0 <= i < edges.len() && edges[i] == edge;
            if i < front.len() {
                assert(front[i] == edge);
                let k = choose|k: int| 0 <= k < before.len() && before[k] == edge;
                assert(all[k] == edge);
            } else {
                assert(all[before.len() as int] == edge);
            }
        }
        if all.contains(edge) {
            let k = choose|k: int| 0 <= k < all.len() && all[k] == edge;
            if k < before.len() {
                assert(before[k] == edge);
                let i = choose|i: int| 0 <= i < front.len() && front[i] == edge;
                assert(edges[i] == edge);
            } else {
                assert(edges[edges.len() - 1] == edge);
            }
        }
    }
}

proof fn lemma_map_holds<R>(
    pairs: Seq<(Seq<char>, R)>,
    f: spec_fn((Seq<char>, R)) -> crate::graph::model::EdgeView,
    pair: (Seq<char>, R),
)
    requires
        forall|a: (Seq<char>, R), b: (Seq<char>, R)| #[trigger] f(a) == #[trigger] f(b) ==> a == b,
    ensures
        pairs.map_values(f).contains(f(pair)) <==> pairs.contains(pair),
{
    let mapped = pairs.map_values(f);
    if pairs.contains(pair) {
        let i = choose|i: int| 0 <= i < pairs.len() && pairs[i] == pair;
        assert(mapped[i] == f(pair));
    }
    if mapped.contains(f(pair)) {
        let i = choose|i: int| 0 <= i < mapped.len() && mapped[i] == f(pair);
        assert(pairs[i] == pair);
    }
}

/// The row of a security group rule: the group that owns it, what it covers,
/// what kind of target it has and which, and whether that is resolved. Where it
/// has no ports, both are null.
#[verifier::opaque]
pub open spec fn is_rule_row(
    row: Map<Seq<char>, crate::graph::props::PropView>,
    security_group_id: Seq<char>,
    rule: crate::domain::rule::SgRuleView,
) -> bool {
    let from = match rule.port_range {
        Some(bounds) => crate::graph::props::PropView::Integer(bounds.0 as int),
        None => crate::graph::props::PropView::Null,
    };
    let to = match rule.port_range {
        Some(bounds) => crate::graph::props::PropView::Integer(bounds.1 as int),
        None => crate::graph::props::PropView::Null,
    };
    match rule.target {
        crate::domain::rule::RuleTargetView::Cidr { cidr } => row == map![
            "security_group_id"@ => crate::graph::props::PropView::Text(security_group_id),
            "protocol"@ => crate::graph::props::PropView::Text(rule.protocol),
            "from_port"@ => from,
            "to_port"@ => to,
            "target_kind"@ => crate::graph::props::PropView::Text("cidr"@),
            "cidr"@ => crate::graph::props::PropView::Text(cidr),
            "resolved"@ => crate::graph::props::PropView::Boolean(rule.resolved),
        ],
        crate::domain::rule::RuleTargetView::SecurityGroupRef { security_group_id: target } => row
            == map![
            "security_group_id"@ => crate::graph::props::PropView::Text(security_group_id),
            "protocol"@ => crate::graph::props::PropView::Text(rule.protocol),
            "from_port"@ => from,
            "to_port"@ => to,
            "target_kind"@ => crate::graph::props::PropView::Text("security_group_ref"@),
            "target_security_group_id"@ => crate::graph::props::PropView::Text(target),
            "resolved"@ => crate::graph::props::PropView::Boolean(rule.resolved),
        ],
    }
}

proof fn lemma_rule_row(owner: Seq<char>, rule: crate::domain::rule::SgRuleView)
    ensures
        is_rule_row(crate::graph::neo4j::sg_rule_row_of(owner, rule), owner, rule),
{
    reveal(is_rule_row);
}

/// Which of the three statements carries a rule: the first for blocks, the
/// second for groups that are known, the third for groups that are not.
pub open spec fn statement_place(rule: crate::domain::rule::SgRuleView) -> int {
    if rule.target is Cidr {
        0
    } else if rule.resolved {
        1
    } else {
        2
    }
}

/// How many rules there are in all groups.
pub open spec fn rule_count(
    groups: Seq<(Seq<char>, Seq<crate::domain::rule::SgRuleView>)>,
) -> nat
    decreases groups.len(),
{
    if groups.len() == 0 {
        0
    } else {
        rule_count(groups.drop_last()) + groups.last().1.len()
    }
}

spec fn shape_at(place: int) -> crate::graph::neo4j::SgRuleShape {
    if place == 0 {
        crate::graph::neo4j::SgRuleShape::Cidr
    } else if place == 1 {
        crate::graph::neo4j::SgRuleShape::ResolvedRef
    } else {
        crate::graph::neo4j::SgRuleShape::UnresolvedRef
    }
}

proof fn lemma_rule_rows(
    owner: Seq<char>,
    rules: Seq<crate::domain::rule::SgRuleView>,
    place: int,
)
    requires
        0 <= place < 3,
    ensures
        ({
            let rows = crate::graph::neo4j::rule_rows_of_shape(owner, rules, shape_at(place));
            &&& forall|k: int|
                #![trigger rules[k]]
                0 <= k < rules.len() && statement_place(rules[k]) == place ==> rows.contains(
                    crate::graph::neo4j::sg_rule_row_of(owner, rules[k]),
                )
            &&& forall|j: int|
                #![trigger rows[j]]
                0 <= j < rows.len() ==> exists|k: int|
                    0 <= k < rules.len() && statement_place(#[trigger] rules[k]) == place
                        && rows[j] == crate::graph::neo4j::sg_rule_row_of(owner, rules[k])
        }),
    decreases rules.len(),
{
    if rules.len() > 0 {
        let front = rules.drop_last();
        lemma_rule_rows(owner, front, place);
        let before = crate::graph::neo4j::rule_rows_of_shape(owner, front, shape_at(place));
        let rows = crate::graph::neo4j::rule_rows_of_shape(owner, rules, shape_at(place));
        assert forall|k: int|
            #![trigger rules[k]]
            0 <= k < rules.len() && statement_place(rules[k]) == place implies rows.contains(
            crate::graph::neo4j::sg_rule_row_of(owner, rules[k]),
        ) by {
            if k < front.len() {
                assert(front[k] == rules[k]);
                let row = crate::graph::neo4j::sg_rule_row_of(owner, rules[k]);
                assert(before.contains(row));
                let j = choose|j: int| 0 <= j < before.len() && before[j] == row;
                assert(rows[j] == row);
            } else {
                assert(rows[before.len() as int] == crate::graph::neo4j::sg_rule_row_of(
                    owner,
                    rules[k],
                ));
            }
        }
        assert forall|j: int| #![trigger rows[j]] 0 <= j < rows.len() implies exists|k: int|
            0 <= k < rules.len() && statement_place(#[trigger] rules[k]) == place && rows[j]
                == crate::graph::neo4j::sg_rule_row_of(owner, rules[k]) by {
            if j < before.len() {
                assert(rows[j] == before[j]);
                let k = choose|k: int|
                    0 <= k < front.len() && statement_place(#[trigger] front[k]) == place
                        && before[j] == crate::graph::neo4j::sg_rule_row_of(owner, front[k]);
                assert(rules[k] == front[k]);
            } else {
                assert(rules[rules.len() - 1] == rules.last());
            }
        }
    }
}

proof fn lemma_rule_row_count(owner: Seq<char>, rules: Seq<crate::domain::rule::SgRuleView>)
    ensures
        crate::graph::neo4j::rule_rows_of_shape(owner, rules, shape_at(0)).len()
            + crate::graph::neo4j::rule_rows_of_shape(owner, rules, shape_at(1)).len()
            + crate::graph::neo4j::rule_rows_of_shape(owner, rules, shape_at(2)).len()
            == rules.len(),
    decreases rules.len(),
{
    if rules.len() > 0 {
        lemma_rule_row_count(owner, rules.drop_last());
    }
}

/// Whether `row` is that of a rule that the statement at `place` carries.
spec fn is_carried(
    groups: Seq<(Seq<char>, Seq<crate::domain::rule::SgRuleView>)>,
    place: int,
    row: Map<Seq<char>, crate::graph::props::PropView>,
) -> bool {
    exists|i: int, k: int|
        0 <= i < groups.len() && 0 <= k < groups[i].1.len() && statement_place(
            #[trigger] groups[i].1[k],
        ) == place && row == crate::graph::neo4j::sg_rule_row_of(groups[i].0, groups[i].1[k])
}

proof fn lemma_carried_rows(
    groups: Seq<(Seq<char>, Seq<crate::domain::rule::SgRuleView>)>,
    place: int,
    j: int,
)
    requires
        0 <= place < 3,
        0 <= j < crate::graph::neo4j::batch_rows_of_shape(
            crate::graph::upsert::sg_batches(groups),
            shape_at(place),
        ).len(),
    ensures
        is_carried(
            groups,
            place,
            crate::graph::neo4j::batch_rows_of_shape(
                crate::graph::upsert::sg_batches(groups),
                shape_at(place),
            )[j],
        ),
    decreases groups.len(),
{
    let batches = crate::graph::upsert::sg_batches(groups);
    let front = groups.drop_last();
    let last = groups.last();
    assert(batches.drop_last() =~= crate::graph::upsert::sg_batches(front));
    let before = crate::graph::neo4j::batch_rows_of_shape(
        crate::graph::upsert::sg_batches(front),
        shape_at(place),
    );
    let added = crate::graph::neo4j::rule_rows_of_shape(last.0, last.1, shape_at(place));
    let rows = crate::graph::neo4j::batch_rows_of_shape(batches, shape_at(place));
    assert(rows == before + added);
    if j < before.len() {
        lemma_carried_rows(front, place, j);
        let (i, k) = choose|i: int, k: int|
            0 <= i < front.len() && 0 <= k < front[i].1.len() && statement_place(
                #[trigger] front[i].1[k],
            ) == place && before[j] == crate::graph::neo4j::sg_rule_row_of(
                front[i].0,
                front[i].1[k],
            );
        assert(groups[i].1[k] == front[i].1[k]);
    } else {
        lemma_rule_rows(last.0, last.1, place);
        assert(rows[j] == added[j - before.len()]);
        let k = choose|k: int|
            0 <= k < last.1.len() && statement_place(#[trigger] last.1[k]) == place
                && added[j - before.len()] == crate::graph::neo4j::sg_rule_row_of(
                last.0,
                last.1[k],
            );
        assert(groups[groups.len() - 1].1[k] == last.1[k]);
    }
}

proof fn lemma_every_rule_is_carried(
    groups: Seq<(Seq<char>, Seq<crate::domain::rule::SgRuleView>)>,
    i: int,
    k: int,
)
    requires
        0 <= i < groups.len(),
        0 <= k < groups[i].1.len(),
    ensures
        crate::graph::neo4j::batch_rows_of_shape(
            crate::graph::upsert::sg_batches(groups),
            shape_at(statement_place(groups[i].1[k])),
        ).contains(crate::graph::neo4j::sg_rule_row_of(groups[i].0, groups[i].1[k])),
    decreases groups.len(),
{
    let place = statement_place(groups[i].1[k]);
    let row = crate::graph::neo4j::sg_rule_row_of(groups[i].0, groups[i].1[k]);
    let batches = crate::graph::upsert::sg_batches(groups);
    let front = groups.drop_last();
    let last = groups.last();
    assert(batches.drop_last() =~= crate::graph::upsert::sg_batches(front));
    let before = crate::graph::neo4j::batch_rows_of_shape(
        crate::graph::upsert::sg_batches(front),
        shape_at(place),
    );
    let added = crate::graph::neo4j::rule_rows_of_shape(last.0, last.1, shape_at(place));
    let rows = crate::graph::neo4j::batch_rows_of_shape(batches, shape_at(place));
    assert(rows == before + added);
    if i < front.len() {
        lemma_every_rule_is_carried(front, i, k);
        let j = choose|j: int| 0 <= j < before.len() && before[j] == row;
        assert(rows[j] == row);
    } else {
        lemma_rule_rows(last.0, last.1, place);
        assert(last.1[k] == groups[i].1[k]);
        assert(added.contains(row));
        let j = choose|j: int| 0 <= j < added.len() && added[j] == row;
        assert(rows[before.len() + j] == row);
    }
}

proof fn lemma_batch_row_count(groups: Seq<(Seq<char>, Seq<crate::domain::rule::SgRuleView>)>)
    ensures
        ({
            let batches = crate::graph::upsert::sg_batches(groups);
            crate::graph::neo4j::batch_rows_of_shape(batches, shape_at(0)).len()
                + crate::graph::neo4j::batch_rows_of_shape(batches, shape_at(1)).len()
                + crate::graph::neo4j::batch_rows_of_shape(batches, shape_at(2)).len()
                == rule_count(groups)
        }),
    decreases groups.len(),
{
    if groups.len() > 0 {
        let batches = crate::graph::upsert::sg_batches(groups);
        lemma_batch_row_count(groups.drop_last());
        lemma_rule_row_count(groups.last().0, groups.last().1);
        assert(batches.drop_last() =~= crate::graph::upsert::sg_batches(groups.drop_last()));
    }
}

/// Whether `row` is the row of a rule of `groups` that the statement at `place`
/// carries.
pub open spec fn is_row_of_some_rule(
    row: Map<Seq<char>, crate::graph::props::PropView>,
    groups: Seq<(Seq<char>, Seq<crate::domain::rule::SgRuleView>)>,
    place: int,
) -> bool {
    exists|i: int, k: int|
        0 <= i < groups.len() && 0 <= k < groups[i].1.len() && statement_place(
            #[trigger] groups[i].1[k],
        ) == place && is_rule_row(row, groups[i].0, groups[i].1[k])
}

/// Whether one of `rows` is the row of `rule`.
pub open spec fn hold_rule(
    rows: Seq<Map<Seq<char>, crate::graph::props::PropView>>,
    security_group_id: Seq<char>,
    rule: crate::domain::rule::SgRuleView,
) -> bool {
    exists|j: int|
        0 <= j < rows.len() && is_rule_row(#[trigger] rows[j], security_group_id, rule)
}

/// Whether three upserts write rules as edges of one type: each rule of each
/// group has its row in the upsert for its kind of target, no other row is
/// there, and there are as many rows as rules.
pub open spec fn write_rules(
    upserts: Seq<crate::graph::upsert::UpsertView>,
    groups: Seq<(Seq<char>, Seq<crate::domain::rule::SgRuleView>)>,
    edge_type: Seq<char>,
    merge: Seq<char>,
) -> bool {
    &&& upserts.len() == 3
    &&& forall|u: int|
        #![trigger upserts[u]]
        0 <= u < 3 ==> upserts[u] is Edges && upserts[u]->Edges_0.edge_type == edge_type
            && crate::laws::statements::holds_phrase(upserts[u]->Edges_0.statement, merge)
    &&& forall|i: int, k: int|
        #![trigger groups[i].1[k]]
        0 <= i < groups.len() && 0 <= k < groups[i].1.len() ==> hold_rule(
            upserts[statement_place(groups[i].1[k])]->Edges_0.rows,
            groups[i].0,
            groups[i].1[k],
        )
    &&& forall|u: int, j: int|
        #![trigger upserts[u]->Edges_0.rows[j]]
        0 <= u < 3 && 0 <= j < upserts[u]->Edges_0.rows.len() ==> is_row_of_some_rule(
            upserts[u]->Edges_0.rows[j],
            groups,
            u,
        )
    &&& upserts[0]->Edges_0.rows.len() + upserts[1]->Edges_0.rows.len()
        + upserts[2]->Edges_0.rows.len() == rule_count(groups)
}

proof fn lemma_write_rules(
    upserts: Seq<crate::graph::upsert::UpsertView>,
    groups: Seq<(Seq<char>, Seq<crate::domain::rule::SgRuleView>)>,
    edge_type: Seq<char>,
    merge: Seq<char>,
)
    requires
        upserts.len() == 3,
        forall|u: int|
            #![trigger upserts[u]]
            0 <= u < 3 ==> upserts[u] is Edges && upserts[u]->Edges_0.edge_type == edge_type
                && crate::laws::statements::holds_phrase(upserts[u]->Edges_0.statement, merge)
                && upserts[u]->Edges_0.rows == crate::graph::neo4j::batch_rows_of_shape(
                crate::graph::upsert::sg_batches(groups),
                shape_at(u),
            ),
    ensures
        write_rules(upserts, groups, edge_type, merge),
{
    lemma_batch_row_count(groups);
    assert(upserts[0] is Edges && upserts[1] is Edges && upserts[2] is Edges);
    assert forall|i: int, k: int|
        #![trigger groups[i].1[k]]
        0 <= i < groups.len() && 0 <= k < groups[i].1.len() implies hold_rule(
        upserts[statement_place(groups[i].1[k])]->Edges_0.rows,
        groups[i].0,
        groups[i].1[k],
    ) by {
        let u = statement_place(groups[i].1[k]);
        lemma_every_rule_is_carried(groups, i, k);
        lemma_rule_row(groups[i].0, groups[i].1[k]);
        assert(upserts[u] is Edges);
        let rows = upserts[u]->Edges_0.rows;
        let row = crate::graph::neo4j::sg_rule_row_of(groups[i].0, groups[i].1[k]);
        assert(rows.contains(row));
        let j = choose|j: int| 0 <= j < rows.len() && rows[j] == row;
        assert(is_rule_row(rows[j], groups[i].0, groups[i].1[k]));
    }
    assert forall|u: int, j: int|
        #![trigger upserts[u]->Edges_0.rows[j]]
        0 <= u < 3 && 0 <= j < upserts[u]->Edges_0.rows.len() implies is_row_of_some_rule(
        upserts[u]->Edges_0.rows[j],
        groups,
        u,
    ) by {
        assert(upserts[u] is Edges);
        lemma_carried_row_is_of_a_rule(groups, u, j);
    }
}

proof fn lemma_carried_row_is_of_a_rule(
    groups: Seq<(Seq<char>, Seq<crate::domain::rule::SgRuleView>)>,
    place: int,
    j: int,
)
    requires
        0 <= place < 3,
        0 <= j < crate::graph::neo4j::batch_rows_of_shape(
            crate::graph::upsert::sg_batches(groups),
            shape_at(place),
        ).len(),
    ensures
        is_row_of_some_rule(
            crate::graph::neo4j::batch_rows_of_shape(
                crate::graph::upsert::sg_batches(groups),
                shape_at(place),
            )[j],
            groups,
            place,
        ),
{
    let row = crate::graph::neo4j::batch_rows_of_shape(
        crate::graph::upsert::sg_batches(groups),
        shape_at(place),
    )[j];
    lemma_carried_rows(groups, place, j);
    let (i, k) = choose|i: int, k: int|
        0 <= i < groups.len() && 0 <= k < groups[i].1.len() && statement_place(
            #[trigger] groups[i].1[k],
        ) == place && row == crate::graph::neo4j::sg_rule_row_of(groups[i].0, groups[i].1[k]);
    lemma_rule_row(groups[i].0, groups[i].1[k]);
}

/// Ingress rules are written as edges of the type `ALLOWS_INGRESS`, by
/// statements that merge that type, and every rule is written.
pub proof fn law_ingress_rules_are_written_as_ingress(
    groups: Seq<(Seq<char>, Seq<crate::domain::rule::SgRuleView>)>,
)
    ensures
        write_rules(
            crate::graph::upsert::upserts_of(
                crate::graph::plan::GraphWriteView::AllowsIngress(groups),
            ),
            groups,
            "ALLOWS_INGRESS"@,
            "MERGE (a)-[r:ALLOWS_INGRESS {"@,
        ),
{
    crate::laws::statements::law_ingress_block_statement();
    crate::laws::statements::law_ingress_group_statement();
    crate::laws::statements::law_ingress_unknown_group_statement();
    lemma_write_rules(
        crate::graph::upsert::upserts_of(
            crate::graph::plan::GraphWriteView::AllowsIngress(groups),
        ),
        groups,
        "ALLOWS_INGRESS"@,
        "MERGE (a)-[r:ALLOWS_INGRESS {"@,
    );
}

/// Egress rules are written as edges of the type `ALLOWS_EGRESS`, by statements
/// that merge that type, and every rule is written.
pub proof fn law_egress_rules_are_written_as_egress(
    groups: Seq<(Seq<char>, Seq<crate::domain::rule::SgRuleView>)>,
)
    ensures
        write_rules(
            crate::graph::upsert::upserts_of(
                crate::graph::plan::GraphWriteView::AllowsEgress(groups),
            ),
            groups,
            "ALLOWS_EGRESS"@,
            "MERGE (a)-[r:ALLOWS_EGRESS {"@,
        ),
{
    crate::laws::statements::law_egress_block_statement();
    crate::laws::statements::law_egress_group_statement();
    crate::laws::statements::law_egress_unknown_group_statement();
    lemma_write_rules(
        crate::graph::upsert::upserts_of(
            crate::graph::plan::GraphWriteView::AllowsEgress(groups),
        ),
        groups,
        "ALLOWS_EGRESS"@,
        "MERGE (a)-[r:ALLOWS_EGRESS {"@,
    );
}

/// Of the three statements for rules, the one for known groups joins the owner
/// to the group that the rule names, and the two others loop on the owner.
pub proof fn law_only_known_groups_are_joined(
    groups: Seq<(Seq<char>, Seq<crate::domain::rule::SgRuleView>)>,
)
    ensures
        ({
            let ingress = crate::graph::upsert::upserts_of(
                crate::graph::plan::GraphWriteView::AllowsIngress(groups),
            );
            let egress = crate::graph::upsert::upserts_of(
                crate::graph::plan::GraphWriteView::AllowsEgress(groups),
            );
            &&& crate::laws::statements::holds_phrase(ingress[0]->Edges_0.statement, "}]->(a)"@)
            &&& crate::laws::statements::holds_phrase(
                ingress[0]->Edges_0.statement,
                "cidr: row.cidr"@,
            )
            &&& crate::laws::statements::holds_phrase(ingress[1]->Edges_0.statement, "}]->(b)"@)
            &&& crate::laws::statements::holds_phrase(ingress[2]->Edges_0.statement, "}]->(a)"@)
            &&& crate::laws::statements::holds_phrase(egress[0]->Edges_0.statement, "}]->(a)"@)
            &&& crate::laws::statements::holds_phrase(
                egress[0]->Edges_0.statement,
                "cidr: row.cidr"@,
            )
            &&& crate::laws::statements::holds_phrase(egress[1]->Edges_0.statement, "}]->(b)"@)
            &&& crate::laws::statements::holds_phrase(egress[2]->Edges_0.statement, "}]->(a)"@)
        }),
{
    crate::laws::statements::law_ingress_block_statement();
    crate::laws::statements::law_ingress_group_statement();
    crate::laws::statements::law_ingress_unknown_group_statement();
    crate::laws::statements::law_egress_block_statement();
    crate::laws::statements::law_egress_group_statement();
    crate::laws::statements::law_egress_unknown_group_statement();
}

/// What each statement that is sent holds: the text of its upsert, its edge
/// type, and a thousand rows, or fewer for the last.
pub proof fn law_what_is_sent(upsert: crate::graph::upsert::UpsertView, i: int)
    requires
        0 <= i < crate::graph::statement::sent_for(upsert).len(),
    ensures
        ({
            let sent = crate::graph::statement::sent_for(upsert)[i];
            match upsert {
                crate::graph::upsert::UpsertView::Nodes { label, .. } => {
                    &&& sent.rows is Nodes
                    &&& 1 <= sent.rows->Nodes_0.len() <= 1000
                    &&& i < crate::graph::statement::sent_for(upsert).len() - 1
                        ==> sent.rows->Nodes_0.len() == 1000
                    &&& sent.text == "UNWIND $rows AS row\nMERGE (n:"@ + label
                        + " {id: row.id})\nSET n += row.props"@
                },
                crate::graph::upsert::UpsertView::Edges(edges) => {
                    &&& sent.rows is Edges
                    &&& 1 <= sent.rows->Edges_rows.len() <= 1000
                    &&& i < crate::graph::statement::sent_for(upsert).len() - 1
                        ==> sent.rows->Edges_rows.len() == 1000
                    &&& sent.text == edges.statement
                    &&& sent.rows->Edges_edge_type == edges.edge_type
                },
            }
        }),
{
    match upsert {
        crate::graph::upsert::UpsertView::Nodes { rows, .. } => {
            crate::graph::neo4j::law_chunk_sizes(rows, 1000, i);
        },
        crate::graph::upsert::UpsertView::Edges(edges) => {
            crate::graph::neo4j::law_chunk_sizes(edges.rows, 1000, i);
        },
    }
}

/// Nodes are merged under the label of their kind, one row per record, with the
/// record's id as the key and its other fields as properties.
pub proof fn law_node_writes(
    enis: Seq<crate::ports::EniRecordView>,
    groups: Seq<crate::ports::SecurityGroupRecordView>,
    acls: Seq<crate::ports::NetworkAclRecordView>,
    subnets: Seq<crate::ports::SubnetRecordView>,
    vpcs: Seq<crate::ports::VpcRecordView>,
    tables: Seq<crate::ports::RouteTableRecordView>,
    i: int,
)
    ensures
        ({
            let made = crate::graph::upsert::upserts_of(
                crate::graph::plan::GraphWriteView::Enis(enis),
            );
            &&& made.len() == 1 && made[0] is Nodes && made[0]->label == "ENI"@
            &&& made[0]->rows.len() == enis.len()
            &&& 0 <= i < enis.len() ==> made[0]->rows[i].id == enis[i].id && made[0]->rows[i].props
                == map![
                "account_id"@ => crate::graph::props::PropView::Text(enis[i].account_id),
                "vpc_id"@ => crate::graph::props::PropView::Text(enis[i].vpc_id),
                "subnet_id"@ => crate::graph::props::PropView::Text(enis[i].subnet_id),
                "private_ip"@ => crate::graph::props::PropView::Text(enis[i].private_ip),
                "description"@ => (match enis[i].description {
                    Some(text) => crate::graph::props::PropView::Text(text),
                    None => crate::graph::props::PropView::Null,
                }),
            ]
        }),
        ({
            let made = crate::graph::upsert::upserts_of(
                crate::graph::plan::GraphWriteView::SecurityGroups(groups),
            );
            &&& made.len() == 1 && made[0] is Nodes && made[0]->label == "SecurityGroup"@
            &&& made[0]->rows.len() == groups.len()
            &&& 0 <= i < groups.len() ==> made[0]->rows[i].id == groups[i].id
                && made[0]->rows[i].props == map![
                "account_id"@ => crate::graph::props::PropView::Text(groups[i].account_id),
                "vpc_id"@ => crate::graph::props::PropView::Text(groups[i].vpc_id),
                "name"@ => crate::graph::props::PropView::Text(groups[i].name),
                "description"@ => (match groups[i].description {
                    Some(text) => crate::graph::props::PropView::Text(text),
                    None => crate::graph::props::PropView::Null,
                }),
            ]
        }),
        ({
            let made = crate::graph::upsert::upserts_of(
                crate::graph::plan::GraphWriteView::NetworkAcls(acls),
            );
            &&& made.len() == 1 && made[0] is Nodes && made[0]->label == "NetworkACL"@
            &&& made[0]->rows.len() == acls.len()
            &&& 0 <= i < acls.len() ==> made[0]->rows[i].id == acls[i].id && made[0]->rows[i].props
                == map![
                "account_id"@ => crate::graph::props::PropView::Text(acls[i].account_id),
                "vpc_id"@ => crate::graph::props::PropView::Text(acls[i].vpc_id),
                "is_default"@ => crate::graph::props::PropView::Boolean(acls[i].is_default),
            ]
        }),
        ({
            let made = crate::graph::upsert::upserts_of(
                crate::graph::plan::GraphWriteView::Subnets(subnets),
            );
            &&& made.len() == 1 && made[0] is Nodes && made[0]->label == "Subnet"@
            &&& made[0]->rows.len() == subnets.len()
            &&& 0 <= i < subnets.len() ==> made[0]->rows[i].id == subnets[i].id
                && made[0]->rows[i].props == map![
                "account_id"@ => crate::graph::props::PropView::Text(subnets[i].account_id),
                "vpc_id"@ => crate::graph::props::PropView::Text(subnets[i].vpc_id),
                "cidr_block"@ => crate::graph::props::PropView::Text(subnets[i].cidr_block),
                "availability_zone"@ => crate::graph::props::PropView::Text(
                    subnets[i].availability_zone,
                ),
            ]
        }),
        ({
            let made = crate::graph::upsert::upserts_of(
                crate::graph::plan::GraphWriteView::Vpcs(vpcs),
            );
            &&& made.len() == 1 && made[0] is Nodes && made[0]->label == "VPC"@
            &&& made[0]->rows.len() == vpcs.len()
            &&& 0 <= i < vpcs.len() ==> made[0]->rows[i].id == vpcs[i].id && made[0]->rows[i].props
                == map![
                "account_id"@ => crate::graph::props::PropView::Text(vpcs[i].account_id),
                "cidr_block"@ => crate::graph::props::PropView::Text(vpcs[i].cidr_block),
            ]
        }),
        ({
            let made = crate::graph::upsert::upserts_of(
                crate::graph::plan::GraphWriteView::RouteTables(tables),
            );
            &&& made.len() == 1 && made[0] is Nodes && made[0]->label == "RouteTable"@
            &&& made[0]->rows.len() == tables.len()
            &&& 0 <= i < tables.len() ==> made[0]->rows[i].id == tables[i].id
                && made[0]->rows[i].props == map![
                "account_id"@ => crate::graph::props::PropView::Text(tables[i].account_id),
                "vpc_id"@ => crate::graph::props::PropView::Text(tables[i].vpc_id),
                "is_main"@ => crate::graph::props::PropView::Boolean(tables[i].is_main),
            ]
        }),
{
}

/// Whether one upsert of one edge type is made, by a statement that holds
/// `merge`, with as many rows as there are edges.
pub open spec fn is_one_edge_upsert(
    upserts: Seq<crate::graph::upsert::UpsertView>,
    edge_type: Seq<char>,
    merge: Seq<char>,
    rows: nat,
) -> bool {
    &&& upserts.len() == 1
    &&& upserts[0] is Edges
    &&& upserts[0]->Edges_0.edge_type == edge_type
    &&& crate::laws::statements::holds_phrase(upserts[0]->Edges_0.statement, merge)
    &&& upserts[0]->Edges_0.rows.len() == rows
}

/// Memberships, subnets of interfaces, and associations are each merged under
/// their own type, one row per edge, which names both ends.
pub proof fn law_topology_writes(
    members: Seq<crate::ports::HasSgEdgeView>,
    placed: Seq<crate::ports::InSubnetEdgeView>,
    protected: Seq<crate::ports::ProtectedByEdgeView>,
    routed: Seq<crate::ports::UsesRouteTableEdgeView>,
    i: int,
)
    ensures
        ({
            let made = crate::graph::upsert::upserts_of(
                crate::graph::plan::GraphWriteView::HasSg(members),
            );
            &&& is_one_edge_upsert(
                made,
                "HAS_SG"@,
                "MERGE (a)-[r:HAS_SG]->(b)"@,
                members.len(),
            )
            &&& 0 <= i < members.len() ==> made[0]->Edges_0.rows[i] == map![
                "eni_id"@ => crate::graph::props::PropView::Text(members[i].eni_id),
                "security_group_id"@ => crate::graph::props::PropView::Text(
                    members[i].security_group_id,
                ),
            ]
        }),
        ({
            let made = crate::graph::upsert::upserts_of(
                crate::graph::plan::GraphWriteView::InSubnet(placed),
            );
            &&& is_one_edge_upsert(
                made,
                "IN_SUBNET"@,
                "MERGE (a)-[r:IN_SUBNET]->(b)"@,
                placed.len(),
            )
            &&& 0 <= i < placed.len() ==> made[0]->Edges_0.rows[i] == map![
                "eni_id"@ => crate::graph::props::PropView::Text(placed[i].eni_id),
                "subnet_id"@ => crate::graph::props::PropView::Text(placed[i].subnet_id),
            ]
        }),
        ({
            let made = crate::graph::upsert::upserts_of(
                crate::graph::plan::GraphWriteView::ProtectedBy(protected),
            );
            &&& is_one_edge_upsert(
                made,
                "PROTECTED_BY"@,
                "MERGE (a)-[r:PROTECTED_BY]->(b)"@,
                protected.len(),
            )
            &&& 0 <= i < protected.len() ==> made[0]->Edges_0.rows[i] == map![
                "subnet_id"@ => crate::graph::props::PropView::Text(protected[i].subnet_id),
                "network_acl_id"@ => crate::graph::props::PropView::Text(
                    protected[i].network_acl_id,
                ),
            ]
        }),
        ({
            let made = crate::graph::upsert::upserts_of(
                crate::graph::plan::GraphWriteView::UsesRouteTable(routed),
            );
            &&& is_one_edge_upsert(
                made,
                "USES_ROUTE_TABLE"@,
                "MERGE (a)-[r:USES_ROUTE_TABLE]->(b)"@,
                routed.len(),
            )
            &&& 0 <= i < routed.len() ==> made[0]->Edges_0.rows[i] == map![
                "subnet_id"@ => crate::graph::props::PropView::Text(routed[i].subnet_id),
                "route_table_id"@ => crate::graph::props::PropView::Text(
                    routed[i].route_table_id,
                ),
            ]
        }),
{
    crate::laws::statements::law_has_sg_statement();
    crate::laws::statements::law_in_subnet_statement();
    crate::laws::statements::law_protected_by_statement();
    crate::laws::statements::law_uses_route_table_statement();
}

/// Whether `row` is the row of `edge` with the target `target`.
pub open spec fn is_route_row(
    row: Map<Seq<char>, crate::graph::props::PropView>,
    edge: crate::ports::RoutesToEdgeView,
) -> bool {
    match edge.target_vpc_id {
        Some(target) => row == map![
            "route_table_id"@ => crate::graph::props::PropView::Text(edge.route_table_id),
            "destination_cidr"@ => crate::graph::props::PropView::Text(edge.destination_cidr),
            "target_vpc_id"@ => crate::graph::props::PropView::Text(target),
            "resolved"@ => crate::graph::props::PropView::Boolean(edge.resolved),
        ],
        None => row == map![
            "route_table_id"@ => crate::graph::props::PropView::Text(edge.route_table_id),
            "destination_cidr"@ => crate::graph::props::PropView::Text(edge.destination_cidr),
            "resolved"@ => crate::graph::props::PropView::Boolean(edge.resolved),
        ],
    }
}

proof fn lemma_route_rows(edges: Seq<crate::ports::RoutesToEdgeView>)
    ensures
        crate::graph::neo4j::resolved_route_rows(edges).len()
            + crate::graph::neo4j::unresolved_route_rows(edges).len() == edges.len(),
        forall|i: int|
            #![trigger edges[i]]
            0 <= i < edges.len() ==> if edges[i].target_vpc_id is Some {
                exists|j: int|
                    0 <= j < crate::graph::neo4j::resolved_route_rows(edges).len() && is_route_row(
                        #[trigger] crate::graph::neo4j::resolved_route_rows(edges)[j],
                        edges[i],
                    )
            } else {
                exists|j: int|
                    0 <= j < crate::graph::neo4j::unresolved_route_rows(edges).len()
                        && is_route_row(
                        #[trigger] crate::graph::neo4j::unresolved_route_rows(edges)[j],
                        edges[i],
                    )
            },
    decreases edges.len(),
{
    if edges.len() > 0 {
        let front = edges.drop_last();
        lemma_route_rows(front);
        let known = crate::graph::neo4j::resolved_route_rows(edges);
        let unknown = crate::graph::neo4j::unresolved_route_rows(edges);
        let known_before = crate::graph::neo4j::resolved_route_rows(front);
        let unknown_before = crate::graph::neo4j::unresolved_route_rows(front);
        assert forall|i: int| #![trigger edges[i]] 0 <= i < edges.len() implies if edges[i].target_vpc_id
            is Some {
            exists|j: int| 0 <= j < known.len() && is_route_row(#[trigger] known[j], edges[i])
        } else {
            exists|j: int| 0 <= j < unknown.len() && is_route_row(#[trigger] unknown[j], edges[i])
        } by {
            if i < front.len() {
                assert(front[i] == edges[i]);
                if edges[i].target_vpc_id is Some {
                    let j = choose|j: int|
                        0 <= j < known_before.len() && is_route_row(
                            #[trigger] known_before[j],
                            front[i],
                        );
                    assert(known[j] == known_before[j]);
                } else {
                    let j = choose|j: int|
                        0 <= j < unknown_before.len() && is_route_row(
                            #[trigger] unknown_before[j],
                            front[i],
                        );
                    assert(unknown[j] == unknown_before[j]);
                }
            } else if edges[i].target_vpc_id is Some {
                assert(is_route_row(known[known_before.len() as int], edges[i]));
            } else {
                assert(is_route_row(unknown[unknown_before.len() as int], edges[i]));
            }
        }
    }
}

/// Routes are written by two statements that merge `ROUTES_TO` edges: those
/// with a target are joined to its VPC, those without loop on their route
/// table. Every route has its row, and there are no more rows than routes.
pub proof fn law_route_writes(edges: Seq<crate::ports::RoutesToEdgeView>, i: int)
    requires
        0 <= i < edges.len(),
    ensures
        ({
            let made = crate::graph::upsert::upserts_of(
                crate::graph::plan::GraphWriteView::RoutesTo(edges),
            );
            let known = made[0]->Edges_0;
            let unknown = made[1]->Edges_0;
            &&& made.len() == 2 && made[0] is Edges && made[1] is Edges
            &&& known.edge_type == "ROUTES_TO"@ && unknown.edge_type == "ROUTES_TO"@
            &&& crate::laws::statements::holds_phrase(
                known.statement,
                "MERGE (a)-[r:ROUTES_TO {destination_cidr: row.destination_cidr}]->(b)"@,
            )
            &&& crate::laws::statements::holds_phrase(
                known.statement,
                "(b:VPC {id: row.target_vpc_id})"@,
            )
            &&& crate::laws::statements::holds_phrase(
                unknown.statement,
                "MERGE (a)-[r:ROUTES_TO {destination_cidr: row.destination_cidr}]->(a)"@,
            )
            &&& known.rows.len() + unknown.rows.len() == edges.len()
            &&& edges[i].target_vpc_id is Some ==> exists|j: int|
                0 <= j < known.rows.len() && is_route_row(#[trigger] known.rows[j], edges[i])
            &&& edges[i].target_vpc_id is None ==> exists|j: int|
                0 <= j < unknown.rows.len() && is_route_row(#[trigger] unknown.rows[j], edges[i])
        }),
{
    crate::laws::statements::law_resolved_route_statement();
    crate::laws::statements::law_unresolved_route_statement();
    lemma_route_rows(edges);
    let made = crate::graph::upsert::upserts_of(
        crate::graph::plan::GraphWriteView::RoutesTo(edges),
    );
    assert(made[0]->Edges_0.rows == crate::graph::neo4j::resolved_route_rows(edges));
    assert(made[1]->Edges_0.rows == crate::graph::neo4j::unresolved_route_rows(edges));
    if edges[i].target_vpc_id is Some {
        let j = choose|j: int|
            0 <= j < crate::graph::neo4j::resolved_route_rows(edges).len() && is_route_row(
                #[trigger] crate::graph::neo4j::resolved_route_rows(edges)[j],
                edges[i],
            );
        assert(is_route_row(made[0]->Edges_0.rows[j], edges[i]));
    } else {
        let j = choose|j: int|
            0 <= j < crate::graph::neo4j::unresolved_route_rows(edges).len() && is_route_row(
                #[trigger] crate::graph::neo4j::unresolved_route_rows(edges)[j],
                edges[i],
            );
        assert(is_route_row(made[1]->Edges_0.rows[j], edges[i]));
    }
}

/// A route can be written exactly where having a target and being resolved go
/// together; one route that cannot stops the whole write.
pub proof fn law_which_routes_can_be_written(edges: Seq<crate::ports::RoutesToEdgeView>)
    ensures
        crate::graph::upsert::is_writable(crate::graph::plan::GraphWriteView::RoutesTo(edges))
            <==> forall|i: int|
            0 <= i < edges.len() ==> (#[trigger] edges[i]).resolved == (edges[i].target_vpc_id
                is Some),
{
    let write = crate::graph::plan::GraphWriteView::RoutesTo(edges);
    if crate::graph::upsert::is_writable(write) {
        assert forall|i: int| 0 <= i < edges.len() implies (#[trigger] edges[i]).resolved == (
        edges[i].target_vpc_id is Some) by {
            assert(crate::graph::neo4j::route_consistent(write->RoutesTo_0[i]));
        }
    }
    if forall|i: int|
        0 <= i < edges.len() ==> (#[trigger] edges[i]).resolved == (edges[i].target_vpc_id
            is Some) {
        assert forall|i: int| 0 <= i < edges.len() implies crate::graph::neo4j::route_consistent(
            #[trigger] edges[i],
        ) by {
            assert(edges[i].resolved == (edges[i].target_vpc_id is Some));
        }
    }
}

/// The row of a network ACL rule: the ACL that owns it and all that it says,
/// with its direction and its action in words.
#[verifier::opaque]
pub open spec fn is_acl_rule_row(
    row: Map<Seq<char>, crate::graph::props::PropView>,
    network_acl_id: Seq<char>,
    rule: crate::domain::rule::NaclRuleView,
) -> bool {
    row == map![
        "network_acl_id"@ => crate::graph::props::PropView::Text(network_acl_id),
        "rule_number"@ => crate::graph::props::PropView::Integer(rule.rule_number as int),
        "direction"@ => crate::graph::props::PropView::Text(
            if rule.direction == crate::domain::rule::Direction::Ingress {
                "ingress"@
            } else {
                "egress"@
            },
        ),
        "protocol"@ => crate::graph::props::PropView::Text(rule.protocol),
        "from_port"@ => (match rule.port_range {
            Some(bounds) => crate::graph::props::PropView::Integer(bounds.0 as int),
            None => crate::graph::props::PropView::Null,
        }),
        "to_port"@ => (match rule.port_range {
            Some(bounds) => crate::graph::props::PropView::Integer(bounds.1 as int),
            None => crate::graph::props::PropView::Null,
        }),
        "cidr"@ => crate::graph::props::PropView::Text(rule.cidr),
        "action"@ => crate::graph::props::PropView::Text(
            if rule.action == crate::domain::rule::Action::Allow {
                "allow"@
            } else {
                "deny"@
            },
        ),
    ]
}

proof fn lemma_acl_rule_row(owner: Seq<char>, rule: crate::domain::rule::NaclRuleView)
    ensures
        is_acl_rule_row(crate::graph::neo4j::nacl_rule_row_of(owner, rule), owner, rule),
{
    reveal(is_acl_rule_row);
}

/// How many network ACL rules there are in all groups.
pub open spec fn acl_rule_count(
    groups: Seq<(Seq<char>, Seq<crate::domain::rule::NaclRuleView>)>,
) -> nat
    decreases groups.len(),
{
    if groups.len() == 0 {
        0
    } else {
        acl_rule_count(groups.drop_last()) + groups.last().1.len()
    }
}

/// Whether one of `rows` is the row of `rule`.
pub open spec fn hold_acl_rule(
    rows: Seq<Map<Seq<char>, crate::graph::props::PropView>>,
    network_acl_id: Seq<char>,
    rule: crate::domain::rule::NaclRuleView,
) -> bool {
    exists|j: int|
        0 <= j < rows.len() && is_acl_rule_row(#[trigger] rows[j], network_acl_id, rule)
}

proof fn lemma_acl_row_count(groups: Seq<(Seq<char>, Seq<crate::domain::rule::NaclRuleView>)>)
    ensures
        crate::graph::neo4j::nacl_batch_rows(crate::graph::upsert::nacl_batches(groups)).len()
            == acl_rule_count(groups),
    decreases groups.len(),
{
    if groups.len() > 0 {
        lemma_acl_row_count(groups.drop_last());
        assert(crate::graph::upsert::nacl_batches(groups).drop_last()
            =~= crate::graph::upsert::nacl_batches(groups.drop_last()));
    }
}

proof fn lemma_acl_rows(
    groups: Seq<(Seq<char>, Seq<crate::domain::rule::NaclRuleView>)>,
    i: int,
    k: int,
)
    requires
        0 <= i < groups.len(),
        0 <= k < groups[i].1.len(),
    ensures
        hold_acl_rule(
            crate::graph::neo4j::nacl_batch_rows(crate::graph::upsert::nacl_batches(groups)),
            groups[i].0,
            groups[i].1[k],
        ),
    decreases groups.len(),
{
    let front = groups.drop_last();
    let last = groups.last();
    let batches = crate::graph::upsert::nacl_batches(groups);
    assert(batches.drop_last() =~= crate::graph::upsert::nacl_batches(front));
    let before = crate::graph::neo4j::nacl_batch_rows(crate::graph::upsert::nacl_batches(front));
    let rows = crate::graph::neo4j::nacl_batch_rows(batches);
    if i < front.len() {
        lemma_acl_rows(front, i, k);
        let j = choose|j: int|
            0 <= j < before.len() && is_acl_rule_row(
                #[trigger] before[j],
                front[i].0,
                front[i].1[k],
            );
        assert(rows[j] == before[j]);
    } else {
        lemma_acl_rule_row(last.0, last.1[k]);
        assert(rows[before.len() + k] == crate::graph::neo4j::nacl_rule_row_of(
            last.0,
            last.1[k],
        ));
    }
}

/// Network ACL rules are written by one statement that merges `HAS_RULE` edges.
/// Every rule of every ACL has its row, and there are as many rows as rules.
pub proof fn law_acl_rule_writes(
    groups: Seq<(Seq<char>, Seq<crate::domain::rule::NaclRuleView>)>,
    i: int,
    k: int,
)
    ensures
        ({
            let made = crate::graph::upsert::upserts_of(
                crate::graph::plan::GraphWriteView::HasRules(groups),
            );
            &&& is_one_edge_upsert(
                made,
                "HAS_RULE"@,
                "MERGE (a)-[r:HAS_RULE {rule_number: row.rule_number}]->(a)"@,
                acl_rule_count(groups),
            )
            &&& 0 <= i < groups.len() && 0 <= k < groups[i].1.len() ==> hold_acl_rule(
                made[0]->Edges_0.rows,
                groups[i].0,
                groups[i].1[k],
            )
        }),
{
    crate::laws::statements::law_has_rule_statement();
    lemma_acl_row_count(groups);
    if 0 <= i < groups.len() && 0 <= k < groups[i].1.len() {
        lemma_acl_rows(groups, i, k);
    }
}

proof fn lemma_row_is_in_a_run<T>(rows: Seq<T>, size: nat, j: int) -> (at: (int, int))
    requires
        size > 0,
        0 <= j < rows.len(),
    ensures
        ({
            let runs = crate::graph::neo4j::chunks_of(rows, size);
            0 <= at.0 < runs.len() && 0 <= at.1 < runs[at.0].len() && runs[at.0][at.1] == rows[j]
        }),
    decreases rows.len(),
{
    if rows.len() <= size {
        (0, j)
    } else if j < size {
        assert(rows.take(size as int)[j] == rows[j]);
        (0, j)
    } else {
        let rest = rows.skip(size as int);
        let at = lemma_row_is_in_a_run(rest, size, j - size);
        assert(rest[j - size] == rows[j]);
        let runs = crate::graph::neo4j::chunks_of(rows, size);
        assert(runs[at.0 + 1] == crate::graph::neo4j::chunks_of(rest, size)[at.0]);
        (at.0 + 1, at.1)
    }
}

/// Whether one of the statements that carry out `write` has the edge type
/// `edge_type`, merges it, and holds the row of `rule`.
pub open spec fn is_sent(
    write: crate::graph::plan::GraphWriteView,
    edge_type: Seq<char>,
    merge: Seq<char>,
    security_group_id: Seq<char>,
    rule: crate::domain::rule::SgRuleView,
) -> bool {
    exists|u: int, t: int|
        #![trigger crate::graph::statement::sent_for(
            crate::graph::upsert::upserts_of(write)[u],
        )[t]]
        {
            let upserts = crate::graph::upsert::upserts_of(write);
            let sent = crate::graph::statement::sent_for(upserts[u]);
            &&& 0 <= u < upserts.len()
            &&& 0 <= t < sent.len()
            &&& crate::laws::statements::holds_phrase(sent[t].text, merge)
            &&& sent[t].rows is Edges
            &&& sent[t].rows->Edges_edge_type == edge_type
            &&& hold_rule(sent[t].rows->Edges_rows, security_group_id, rule)
        }
}

proof fn lemma_is_sent(
    write: crate::graph::plan::GraphWriteView,
    groups: Seq<(Seq<char>, Seq<crate::domain::rule::SgRuleView>)>,
    edge_type: Seq<char>,
    merge: Seq<char>,
    i: int,
    k: int,
)
    requires
        write_rules(crate::graph::upsert::upserts_of(write), groups, edge_type, merge),
        0 <= i < groups.len(),
        0 <= k < groups[i].1.len(),
    ensures
        is_sent(write, edge_type, merge, groups[i].0, groups[i].1[k]),
{
    let upserts = crate::graph::upsert::upserts_of(write);
    let rule = groups[i].1[k];
    let u = statement_place(rule);
    let edges = upserts[u]->Edges_0;
    assert(hold_rule(edges.rows, groups[i].0, rule));
    let j = choose|j: int|
        0 <= j < edges.rows.len() && is_rule_row(#[trigger] edges.rows[j], groups[i].0, rule);
    let at = lemma_row_is_in_a_run(edges.rows, 1000, j);
    let sent = crate::graph::statement::sent_for(upserts[u]);
    assert(upserts[u] == crate::graph::upsert::UpsertView::Edges(edges));
    law_what_is_sent(upserts[u], at.0);
    assert(is_rule_row(sent[at.0].rows->Edges_rows[at.1], groups[i].0, rule));
    assert(hold_rule(sent[at.0].rows->Edges_rows, groups[i].0, rule));
}

/// Every ingress edge of a batch is sent by a statement that merges
/// `ALLOWS_INGRESS`, and every egress edge by one that merges `ALLOWS_EGRESS`.
pub proof fn law_rule_edges_are_sent_as_what_they_are(
    batch: crate::graph::model::GraphBatchView,
    security_group_id: Seq<char>,
    rule: crate::domain::rule::SgRuleView,
)
    ensures
        batch.edges.contains(
            crate::graph::model::EdgeView::AllowsIngress { security_group_id, rule },
        ) ==> is_sent(
            crate::graph::plan::write_plan(batch)[11],
            "ALLOWS_INGRESS"@,
            "MERGE (a)-[r:ALLOWS_INGRESS {"@,
            security_group_id,
            rule,
        ),
        batch.edges.contains(
            crate::graph::model::EdgeView::AllowsEgress { security_group_id, rule },
        ) ==> is_sent(
            crate::graph::plan::write_plan(batch)[12],
            "ALLOWS_EGRESS"@,
            "MERGE (a)-[r:ALLOWS_EGRESS {"@,
            security_group_id,
            rule,
        ),
{
    let plan = crate::graph::plan::write_plan(batch);
    let ingress = plan[11]->AllowsIngress_0;
    let egress = plan[12]->AllowsEgress_0;
    law_rules_keep_their_direction_in_the_plan(batch, security_group_id, rule);
    law_ingress_rules_are_written_as_ingress(ingress);
    law_egress_rules_are_written_as_egress(egress);
    assert(plan[11] == crate::graph::plan::GraphWriteView::AllowsIngress(ingress));
    assert(plan[12] == crate::graph::plan::GraphWriteView::AllowsEgress(egress));
    if batch.edges.contains(
        crate::graph::model::EdgeView::AllowsIngress { security_group_id, rule },
    ) {
        let i = choose|i: int|
            0 <= i < ingress.len() && (#[trigger] ingress[i]).0 == security_group_id
                && ingress[i].1.contains(rule);
        let k = choose|k: int| 0 <= k < ingress[i].1.len() && ingress[i].1[k] == rule;
        lemma_is_sent(
            plan[11],
            ingress,
            "ALLOWS_INGRESS"@,
            "MERGE (a)-[r:ALLOWS_INGRESS {"@,
            i,
            k,
        );
    }
    if batch.edges.contains(
        crate::graph::model::EdgeView::AllowsEgress { security_group_id, rule },
    ) {
        let i = choose|i: int|
            0 <= i < egress.len() && (#[trigger] egress[i]).0 == security_group_id
                && egress[i].1.contains(rule);
        let k = choose|k: int| 0 <= k < egress[i].1.len() && egress[i].1[k] == rule;
        lemma_is_sent(
            plan[12],
            egress,
            "ALLOWS_EGRESS"@,
            "MERGE (a)-[r:ALLOWS_EGRESS {"@,
            i,
            k,
        );
    }
}

/// A regulated boundary is written as a node of its own, with the account, the
/// name, the regime and the description that it has.
pub proof fn law_boundary_row(record: crate::ports::RegulatedBoundaryRecordView)
    ensures
        ({
            let row = crate::graph::neo4j::regulated_boundary_row_of(record);
            &&& row.id == record.id
            &&& row.props == map![
                "account_id"@ => crate::graph::props::PropView::Text(record.account_id),
                "name"@ => crate::graph::props::PropView::Text(record.name),
                "regime"@ => crate::graph::props::PropView::Text(record.regime),
                "description"@ => (match record.description {
                    Some(text) => crate::graph::props::PropView::Text(text),
                    None => crate::graph::props::PropView::Null,
                }),
            ]
        }),
{
}

/// Where routes cannot be written, what is said names the route table and the
/// destination of the first edge at fault, and both things that do not agree.
pub proof fn law_inconsistent_route_is_named(
    edges: Seq<crate::ports::RoutesToEdgeView>,
    text: Seq<char>,
    i: int,
)
    requires
        crate::graph::neo4j::is_first_inconsistency(edges, text),
        0 <= i < edges.len(),
        edges[i].resolved != (edges[i].target_vpc_id is Some),
        forall|j: int|
            0 <= j < i ==> (#[trigger] edges[j]).resolved == (edges[j].target_vpc_id is Some),
    ensures
        edges[i].target_vpc_id matches Some(target) ==> text == "ROUTES_TO edge for route_table_id="@
            + edges[i].route_table_id + " destination_cidr="@ + edges[i].destination_cidr
            + " is inconsistent: target_vpc_id="@ + ("Some("@ + crate::text::debug_quoted(target)
            + ")"@) + " but resolved="@ + "false"@,
        edges[i].target_vpc_id is None ==> text == "ROUTES_TO edge for route_table_id="@
            + edges[i].route_table_id + " destination_cidr="@ + edges[i].destination_cidr
            + " is inconsistent: target_vpc_id="@ + "None"@ + " but resolved="@ + "true"@,
{
    let k = choose|k: int|
        0 <= k < edges.len() && !crate::graph::neo4j::route_consistent(#[trigger] edges[k]) && text
            == crate::graph::neo4j::inconsistency_text(edges[k]) && forall|j: int|
            0 <= j < k ==> crate::graph::neo4j::route_consistent(#[trigger] edges[j]);
    assert(edges[k].resolved != (edges[k].target_vpc_id is Some));
    assert(!crate::graph::neo4j::route_consistent(edges[i]));
    assert(k == i);
}

/// The items of an owner are those of its pairs, in the order of the pairs.
pub proof fn law_items_keep_their_order<R>(pairs: Seq<(Seq<char>, R)>, owner: Seq<char>)
    ensures
        crate::graph::groups::items_of(pairs, owner) == pairs.filter(
            |pair: (Seq<char>, R)| pair.0 == owner,
        ).map_values(|pair: (Seq<char>, R)| pair.1),
    decreases pairs.len(),
{
    reveal(Seq::filter);
    let owned = |pair: (Seq<char>, R)| pair.0 == owner;
    let item = |pair: (Seq<char>, R)| pair.1;
    if pairs.len() > 0 {
        let front = pairs.drop_last();
        law_items_keep_their_order(front, owner);
        assert(pairs.filter(owned).map_values(item) =~= if owned(pairs.last()) {
            front.filter(owned).map_values(item).push(item(pairs.last()))
        } else {
            front.filter(owned).map_values(item)
        });
    } else {
        assert(pairs.filter(owned).map_values(item) =~= Seq::empty());
    }
}

} // verus!
