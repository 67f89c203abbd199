//! Reading a graph back: what each property of a rule and each column of a row
//! stands for.
use vstd::prelude::*;

use crate::domain::rule::{Action, Direction};
use crate::evaluate::rows::EniRow;

verus! {

/// Whether `props` holds `value` under `key`.
pub open spec fn has_prop(
    props: Map<Seq<char>, crate::graph::props::PropView>,
    key: Seq<char>,
    value: crate::graph::props::PropView,
) -> bool {
    props.dom().contains(key) && props[key] == value
}

/// Whether `props` holds a port number under `key`.
pub open spec fn has_port(
    props: Map<Seq<char>, crate::graph::props::PropView>,
    key: Seq<char>,
) -> bool {
    props.dom().contains(key) && (props[key] matches crate::graph::props::PropView::Integer(value)
        && 0 <= value <= 65535)
}

/// Whether `range` is what `props` says of ports: both bounds where both are
/// port numbers, and else nothing.
pub open spec fn has_range(
    props: Map<Seq<char>, crate::graph::props::PropView>,
    range: Option<(u16, u16)>,
) -> bool {
    match range {
        Some(bounds) => bounds.0 <= bounds.1 && has_prop(
            props,
            "from_port"@,
            crate::graph::props::PropView::Integer(bounds.0 as int),
        ) && has_prop(
            props,
            "to_port"@,
            crate::graph::props::PropView::Integer(bounds.1 as int),
        ),
        None => !(has_port(props, "from_port"@) && has_port(props, "to_port"@)),
    }
}

/// Whether `rule` is what `props` on an edge of `direction` says.
pub open spec fn describes(
    props: Map<Seq<char>, crate::graph::props::PropView>,
    direction: Direction,
    rule: crate::domain::rule::SgRuleView,
) -> bool {
    &&& rule.direction == direction
    &&& has_prop(props, "protocol"@, crate::graph::props::PropView::Text(rule.protocol))
    &&& has_range(props, rule.port_range)
    &&& rule.resolved <==> has_prop(
        props,
        "resolved"@,
        crate::graph::props::PropView::Boolean(true),
    )
    &&& match rule.target {
        crate::domain::rule::RuleTargetView::Cidr { cidr } => has_prop(
            props,
            "target_kind"@,
            crate::graph::props::PropView::Text("cidr"@),
        ) && has_prop(props, "cidr"@, crate::graph::props::PropView::Text(cidr)),
        crate::domain::rule::RuleTargetView::SecurityGroupRef { security_group_id } => has_prop(
            props,
            "target_kind"@,
            crate::graph::props::PropView::Text("security_group_ref"@),
        ) && has_prop(
            props,
            "target_security_group_id"@,
            crate::graph::props::PropView::Text(security_group_id),
        ),
    }
}

proof fn lemma_kinds_differ()
    ensures
        "cidr"@ != "security_group_ref"@,
        "ingress"@ != "egress"@,
        "allow"@ != "deny"@,
{
    reveal_strlit("cidr");
    reveal_strlit("security_group_ref");
    reveal_strlit("ingress");
    reveal_strlit("egress");
    reveal_strlit("allow");
    reveal_strlit("deny");
    assert("cidr"@.len() == 4);
    assert("security_group_ref"@.len() == 18);
    assert("ingress"@.len() == 7);
    assert("egress"@.len() == 6);
    assert("allow"@.len() == 5);
    assert("deny"@.len() == 4);
}

/// A security group rule is read from an edge exactly where its properties
/// describe one, and it is the one that they describe.
pub proof fn law_rule_is_read_as_described(
    props: Map<Seq<char>, crate::graph::props::PropView>,
    direction: Direction,
    rule: crate::domain::rule::SgRuleView,
)
    ensures
        describes(props, direction, rule) <==> crate::evaluate::rows::sg_rule_at(props, direction)
            == Ok::<crate::domain::rule::SgRuleView, Seq<char>>(rule),
{
    lemma_kinds_differ();
    let ports = crate::evaluate::rows::ports_at(props);
    if describes(props, direction, rule) {
        assert(ports == Ok::<Option<(u16, u16)>, Seq<char>>(rule.port_range));
        assert(crate::evaluate::rows::target_at(props) == Ok::<
            crate::domain::rule::RuleTargetView,
            Seq<char>,
        >(rule.target));
    }
}

/// What is at fault in an edge that describes no security group rule: its
/// protocol, else its ports, else its target.
pub proof fn law_rule_faults(
    props: Map<Seq<char>, crate::graph::props::PropView>,
    direction: Direction,
)
    ensures
        ({
            let read = crate::evaluate::rows::sg_rule_at(props, direction);
            let no_protocol = !(props.dom().contains("protocol"@) && props["protocol"@] is Text);
            let inverted = has_port(props, "from_port"@) && has_port(props, "to_port"@)
                && props["from_port"@]->Integer_0 > props["to_port"@]->Integer_0;
            &&& no_protocol ==> read == Err::<crate::domain::rule::SgRuleView, Seq<char>>(
                "protocol"@,
            )
            &&& !no_protocol && inverted ==> read == Err::<
                crate::domain::rule::SgRuleView,
                Seq<char>,
            >("port_range"@)
            &&& !no_protocol && !inverted && read is Err ==> {
                ||| read->Err_0 == "target_kind"@
                ||| read->Err_0 == "cidr"@ && has_prop(
                    props,
                    "target_kind"@,
                    crate::graph::props::PropView::Text("cidr"@),
                )
                ||| read->Err_0 == "target_security_group_id"@ && has_prop(
                    props,
                    "target_kind"@,
                    crate::graph::props::PropView::Text("security_group_ref"@),
                )
            }
        }),
{
}

/// Whether `rule` is what `props` says of a network ACL rule. A number beyond
/// the range of rule numbers wraps around.
pub open spec fn describes_acl_rule(
    props: Map<Seq<char>, crate::graph::props::PropView>,
    rule: crate::domain::rule::NaclRuleView,
) -> bool {
    &&& props.dom().contains("rule_number"@)
    &&& props["rule_number"@] matches crate::graph::props::PropView::Integer(number)
    &&& rule.rule_number == number % 65536
    &&& has_prop(
        props,
        "direction"@,
        crate::graph::props::PropView::Text(
            match rule.direction {
                Direction::Ingress => "ingress"@,
                Direction::Egress => "egress"@,
            },
        ),
    )
    &&& has_prop(props, "protocol"@, crate::graph::props::PropView::Text(rule.protocol))
    &&& has_range(props, rule.port_range)
    &&& has_prop(props, "cidr"@, crate::graph::props::PropView::Text(rule.cidr))
    &&& has_prop(
        props,
        "action"@,
        crate::graph::props::PropView::Text(
            match rule.action {
                Action::Allow => "allow"@,
                Action::Deny => "deny"@,
            },
        ),
    )
}

/// A network ACL rule is read from an edge exactly where its properties
/// describe one, and it is the one that they describe.
pub proof fn law_acl_rule_is_read_as_described(
    props: Map<Seq<char>, crate::graph::props::PropView>,
    rule: crate::domain::rule::NaclRuleView,
)
    ensures
        describes_acl_rule(props, rule) <==> crate::evaluate::rows::nacl_rule_at(props) == Ok::<
            crate::domain::rule::NaclRuleView,
            Seq<char>,
        >(rule),
{
    lemma_kinds_differ();
    let ports = crate::evaluate::rows::ports_at(props);
    if describes_acl_rule(props, rule) {
        assert(ports == Ok::<Option<(u16, u16)>, Seq<char>>(rule.port_range));
    }
}

/// Whether `props` says nothing at all, which an absent edge does.
pub open spec fn is_blank(props: Map<Seq<char>, crate::graph::props::PropView>) -> bool {
    props == Map::<Seq<char>, crate::graph::props::PropView>::empty()
}

/// Whether some edge of `raw` describes `rule`.
pub open spec fn is_described(
    raw: Seq<Map<Seq<char>, crate::graph::props::PropView>>,
    direction: Direction,
    rule: crate::domain::rule::SgRuleView,
) -> bool {
    exists|i: int|
        0 <= i < raw.len() && !is_blank(#[trigger] raw[i]) && describes(raw[i], direction, rule)
}

/// How many edges of `raw` say anything.
pub open spec fn spoken_count(
    raw: Seq<Map<Seq<char>, crate::graph::props::PropView>>,
) -> nat
    decreases raw.len(),
{
    if raw.len() == 0 {
        0
    } else {
        spoken_count(raw.drop_last()) + if is_blank(raw.last()) {
            0nat
        } else {
            1nat
        }
    }
}

proof fn lemma_rules_read(
    raw: Seq<Map<Seq<char>, crate::graph::props::PropView>>,
    direction: Direction,
    rule: crate::domain::rule::SgRuleView,
)
    requires
        crate::evaluate::rows::sg_rules_at(raw, direction) is Ok,
    ensures
        ({
            let rules = crate::evaluate::rows::sg_rules_at(raw, direction)->Ok_0;
            &&& rules.len() == spoken_count(raw)
            &&& rules.contains(rule) <==> is_described(raw, direction, rule)
            &&& forall|k: int|
                0 <= k < rules.len() ==> (#[trigger] rules[k]).direction == direction
        }),
    decreases raw.len(),
{
    let rules = crate::evaluate::rows::sg_rules_at(raw, direction)->Ok_0;
    if raw.len() > 0 {
        let front = raw.drop_last();
        let before = crate::evaluate::rows::sg_rules_at(front, direction)->Ok_0;
        lemma_rules_read(front, direction, rule);
        law_rule_is_read_as_described(raw.last(), direction, rule);
        if rules.contains(rule) {
            let k = choose|k: int| 0 <= k < rules.len() && rules[k] == rule;
            if k < before.len() {
                assert(before[k] == rule);
                let i = choose|i: int|
                    0 <= i < front.len() && !is_blank(#[trigger] front[i]) && describes(
                        front[i],
                        direction,
                        rule,
                    );
                assert(raw[i] == front[i]);
            } else {
                assert(raw[raw.len() - 1] == raw.last());
            }
        }
        if is_described(raw, direction, rule) {
            let i = choose|i: int|
                0 <= i < raw.len() && !is_blank(#[trigger] raw[i]) && describes(
                    raw[i],
                    direction,
                    rule,
                );
            if i < front.len() {
                assert(front[i] == raw[i]);
                let k = choose|k: int| 0 <= k < before.len() && before[k] == rule;
                assert(rules[k] == rule);
            } else {
                assert(rules[before.len() as int] == rule);
            }
        }
    }
}

/// The rules of a column are those that its edges describe, each with the
/// direction of the column, one per edge that says anything.
pub proof fn law_rules_of_a_column(
    raw: Seq<Map<Seq<char>, crate::graph::props::PropView>>,
    direction: Direction,
    rule: crate::domain::rule::SgRuleView,
)
    requires
        crate::evaluate::rows::sg_rules_at(raw, direction) is Ok,
    ensures
        ({
            let rules = crate::evaluate::rows::sg_rules_at(raw, direction)->Ok_0;
            &&& rules.len() == spoken_count(raw)
            &&& rules.contains(rule) <==> is_described(raw, direction, rule)
            &&& forall|k: int|
                0 <= k < rules.len() ==> (#[trigger] rules[k]).direction == direction
        }),
{
    lemma_rules_read(raw, direction, rule);
}

/// Whether some edge of `raw` describes the network ACL rule `rule`.
pub open spec fn is_described_acl_rule(
    raw: Seq<Map<Seq<char>, crate::graph::props::PropView>>,
    rule: crate::domain::rule::NaclRuleView,
) -> bool {
    exists|i: int|
        0 <= i < raw.len() && !is_blank(#[trigger] raw[i]) && describes_acl_rule(raw[i], rule)
}

proof fn lemma_acl_rules_read(
    raw: Seq<Map<Seq<char>, crate::graph::props::PropView>>,
    rule: crate::domain::rule::NaclRuleView,
)
    requires
        crate::evaluate::rows::nacl_rules_at(raw) is Ok,
    ensures
        ({
            let rules = crate::evaluate::rows::nacl_rules_at(raw)->Ok_0;
            &&& rules.len() == spoken_count(raw)
            &&& rules.contains(rule) <==> is_described_acl_rule(raw, rule)
        }),
    decreases raw.len(),
{
    let rules = crate::evaluate::rows::nacl_rules_at(raw)->Ok_0;
    if raw.len() > 0 {
        let front = raw.drop_last();
        let before = crate::evaluate::rows::nacl_rules_at(front)->Ok_0;
        lemma_acl_rules_read(front, rule);
        law_acl_rule_is_read_as_described(raw.last(), rule);
        if rules.contains(rule) {
            let k = choose|k: int| 0 <= k < rules.len() && rules[k] == rule;
            if k < before.len() {
                assert(before[k] == rule);
                let i = choose|i: int|
                    0 <= i < front.len() && !is_blank(#[trigger] front[i]) && describes_acl_rule(
                        front[i],
                        rule,
                    );
                assert(raw[i] == front[i]);
            } else {
                assert(raw[raw.len() - 1] == raw.last());
            }
        }
        if is_described_acl_rule(raw, rule) {
            let i = choose|i: int|
                0 <= i < raw.len() && !is_blank(#[trigger] raw[i]) && describes_acl_rule(
                    raw[i],
                    rule,
                );
            if i < front.len() {
                assert(front[i] == raw[i]);
                let k = choose|k: int| 0 <= k < before.len() && before[k] == rule;
                assert(rules[k] == rule);
            } else {
                assert(rules[before.len() as int] == rule);
            }
        }
    }
}

/// An interface is read from a row column by column: its egress rules from the
/// column of egress edges, its ingress rules from the column of ingress edges,
/// and its network ACL rules in ascending order of their numbers.
pub proof fn law_interface_is_read_column_by_column(
    row: EniRow,
    rule: crate::domain::rule::SgRuleView,
    acl_rule: crate::domain::rule::NaclRuleView,
)
    requires
        crate::evaluate::rows::eni_row_fault(row) is None,
    ensures
        ({
            let eni = crate::evaluate::rows::eni_at(row);
            &&& row.eni_id matches Ok(id) && eni.id == id@
            &&& row.vpc_id matches Ok(id) && eni.vpc_id == id@
            &&& row.subnet_id matches Ok(id) && eni.subnet_id == id@
            &&& row.private_ip matches Ok(ip) && eni.private_ip == ip@
            &&& row.route_table_id.deep_view() == eni.route_table_id
            &&& row.security_group_ids matches Ok(ids) && eni.security_group_ids == ids.deep_view()
            &&& row.egress_rules matches Ok(raw) && (eni.egress_rules.contains(rule)
                <==> is_described(raw.deep_view(), Direction::Egress, rule))
            &&& row.ingress_rules matches Ok(raw) && (eni.ingress_rules.contains(rule)
                <==> is_described(raw.deep_view(), Direction::Ingress, rule))
            &&& row.nacl_rules matches Ok(raw) && (eni.nacl_rules.contains(acl_rule)
                <==> is_described_acl_rule(raw.deep_view(), acl_rule))
            &&& forall|i: int, j: int|
                0 <= i <= j < eni.nacl_rules.len() ==> (#[trigger] eni.nacl_rules[i]).rule_number
                    <= (#[trigger] eni.nacl_rules[j]).rule_number
            &&& forall|k: int|
                0 <= k < eni.egress_rules.len() ==> (#[trigger] eni.egress_rules[k]).direction
                    == Direction::Egress
            &&& forall|k: int|
                0 <= k < eni.ingress_rules.len() ==> (#[trigger] eni.ingress_rules[k]).direction
                    == Direction::Ingress
        }),
{
    broadcast use vstd::seq_lib::group_to_multiset_ensures;

    let egress = row.egress_rules->Ok_0.deep_view();
    let ingress = row.ingress_rules->Ok_0.deep_view();
    let acl = row.nacl_rules->Ok_0.deep_view();
    lemma_rules_read(egress, Direction::Egress, rule);
    lemma_rules_read(ingress, Direction::Ingress, rule);
    lemma_acl_rules_read(acl, acl_rule);
    let rules = crate::evaluate::rows::nacl_rules_at(acl)->Ok_0;
    let sorted = crate::domain::order::by_number(rules);
    crate::domain::order::law_by_number_is_ascending(rules);
    crate::domain::order::law_by_number_is_a_permutation(rules);
    assert(rules.contains(acl_rule) <==> rules.to_multiset().count(acl_rule) > 0);
    assert(sorted.contains(acl_rule) <==> sorted.to_multiset().count(acl_rule) > 0);
}

/// A row can be read exactly where every column arrived and every edge in it
/// that says anything describes a rule.
pub proof fn law_which_rows_can_be_read(row: EniRow)
    ensures
        crate::evaluate::rows::eni_row_fault(row) is None <==> {
            &&& row.eni_id is Ok && row.vpc_id is Ok && row.subnet_id is Ok && row.private_ip is Ok
            &&& row.security_group_ids is Ok
            &&& row.egress_rules matches Ok(raw) && crate::evaluate::rows::sg_rules_at(
                raw.deep_view(),
                Direction::Egress,
            ) is Ok
            &&& row.ingress_rules matches Ok(raw) && crate::evaluate::rows::sg_rules_at(
                raw.deep_view(),
                Direction::Ingress,
            ) is Ok
            &&& row.nacl_rules matches Ok(raw) && crate::evaluate::rows::nacl_rules_at(
                raw.deep_view(),
            ) is Ok
        },
{
}

/// A written rule is described by its row: what a rule was when it was written
/// it is when it is read on an edge of its direction.
pub proof fn law_rule_row_describes_its_rule(
    row: Map<Seq<char>, crate::graph::props::PropView>,
    security_group_id: Seq<char>,
    rule: crate::domain::rule::SgRuleView,
)
    requires
        rule.port_range matches Some(bounds) ==> bounds.0 <= bounds.1,
        crate::laws::writing::is_rule_row(row, security_group_id, rule),
    ensures
        describes(row, rule.direction, rule),
        !is_blank(row),
{
    reveal(crate::laws::writing::is_rule_row);
    crate::evaluate::rows::law_sg_rule_survives_the_graph(security_group_id, rule);
    assert(row == crate::graph::neo4j::sg_rule_row_of(security_group_id, rule));
    law_rule_is_read_as_described(row, rule.direction, rule);
    assert(row.dom().contains("protocol"@));
}

/// An ingress rule that was written is among the ingress rules of an interface
/// whose row holds the rule's row in the column of ingress edges.
pub proof fn law_written_ingress_rule_is_read_as_ingress(
    row: EniRow,
    i: int,
    security_group_id: Seq<char>,
    rule: crate::domain::rule::SgRuleView,
)
    requires
        crate::evaluate::rows::eni_row_fault(row) is None,
        rule.direction == Direction::Ingress,
        rule.port_range matches Some(bounds) ==> bounds.0 <= bounds.1,
        row.ingress_rules matches Ok(raw) && 0 <= i < raw.deep_view().len()
            && crate::laws::writing::is_rule_row(raw.deep_view()[i], security_group_id, rule),
    ensures
        crate::evaluate::rows::eni_at(row).ingress_rules.contains(rule),
        !crate::evaluate::rows::eni_at(row).egress_rules.contains(rule),
{
    let ingress = row.ingress_rules->Ok_0.deep_view();
    let egress = row.egress_rules->Ok_0.deep_view();
    law_rule_row_describes_its_rule(ingress[i], security_group_id, rule);
    lemma_rules_read(ingress, Direction::Ingress, rule);
    lemma_rules_read(egress, Direction::Egress, rule);
}

/// An egress rule that was written is among the egress rules of an interface
/// whose row holds the rule's row in the column of egress edges.
pub proof fn law_written_egress_rule_is_read_as_egress(
    row: EniRow,
    i: int,
    security_group_id: Seq<char>,
    rule: crate::domain::rule::SgRuleView,
)
    requires
        crate::evaluate::rows::eni_row_fault(row) is None,
        rule.direction == Direction::Egress,
        rule.port_range matches Some(bounds) ==> bounds.0 <= bounds.1,
        row.egress_rules matches Ok(raw) && 0 <= i < raw.deep_view().len()
            && crate::laws::writing::is_rule_row(raw.deep_view()[i], security_group_id, rule),
    ensures
        crate::evaluate::rows::eni_at(row).egress_rules.contains(rule),
        !crate::evaluate::rows::eni_at(row).ingress_rules.contains(rule),
{
    let ingress = row.ingress_rules->Ok_0.deep_view();
    let egress = row.egress_rules->Ok_0.deep_view();
    law_rule_row_describes_its_rule(egress[i], security_group_id, rule);
    lemma_rules_read(ingress, Direction::Ingress, rule);
    lemma_rules_read(egress, Direction::Egress, rule);
}

/// The first edge of a column that says something and describes no rule spoils
/// the column, whatever comes after it.
pub proof fn law_first_malformed_edge(
    raw: Seq<Map<Seq<char>, crate::graph::props::PropView>>,
    direction: Direction,
    i: int,
)
    requires
        0 <= i < raw.len(),
        !is_blank(raw[i]),
        crate::evaluate::rows::sg_rule_at(raw[i], direction) is Err,
        forall|j: int|
            0 <= j < i && !is_blank(#[trigger] raw[j]) ==> crate::evaluate::rows::sg_rule_at(
                raw[j],
                direction,
            ) is Ok,
    ensures
        crate::evaluate::rows::sg_rules_at(raw, direction) == Err::<
            Seq<crate::domain::rule::SgRuleView>,
            Seq<char>,
        >(crate::evaluate::rows::sg_rule_at(raw[i], direction)->Err_0),
    decreases raw.len(),
{
    let front = raw.drop_last();
    if i < front.len() {
        assert forall|j: int| 0 <= j < i && !is_blank(#[trigger] front[j]) implies
            crate::evaluate::rows::sg_rule_at(front[j], direction) is Ok by {
            assert(front[j] == raw[j]);
        }
        assert(front[i] == raw[i]);
        law_first_malformed_edge(front, direction, i);
    } else {
        assert forall|j: int| 0 <= j < front.len() && !is_blank(#[trigger] front[j]) implies
            crate::evaluate::rows::sg_rule_at(front[j], direction) is Ok by {
            assert(front[j] == raw[j]);
        }
        law_which_columns_can_be_read(front, direction);
    }
}

/// A column can be read where each of its edges says nothing or describes a
/// rule.
pub proof fn law_which_columns_can_be_read(
    raw: Seq<Map<Seq<char>, crate::graph::props::PropView>>,
    direction: Direction,
)
    requires
        forall|j: int|
            0 <= j < raw.len() && !is_blank(#[trigger] raw[j])
                ==> crate::evaluate::rows::sg_rule_at(raw[j], direction) is Ok,
    ensures
        crate::evaluate::rows::sg_rules_at(raw, direction) is Ok,
    decreases raw.len(),
{
    if raw.len() > 0 {
        let front = raw.drop_last();
        assert forall|j: int| 0 <= j < front.len() && !is_blank(#[trigger] front[j]) implies
            crate::evaluate::rows::sg_rule_at(front[j], direction) is Ok by {
            assert(front[j] == raw[j]);
        }
        law_which_columns_can_be_read(front, direction);
        assert(raw[raw.len() - 1] == raw.last());
        assert(is_blank(raw.last()) || crate::evaluate::rows::sg_rule_at(
            raw.last(),
            direction,
        ) is Ok);
    }
}

/// A column of network ACL rules can be read where each of its edges says
/// nothing or describes a rule.
pub proof fn law_which_acl_columns_can_be_read(
    raw: Seq<Map<Seq<char>, crate::graph::props::PropView>>,
)
    requires
        forall|j: int|
            0 <= j < raw.len() && !is_blank(#[trigger] raw[j])
                ==> crate::evaluate::rows::nacl_rule_at(raw[j]) is Ok,
    ensures
        crate::evaluate::rows::nacl_rules_at(raw) is Ok,
    decreases raw.len(),
{
    if raw.len() > 0 {
        let front = raw.drop_last();
        assert forall|j: int| 0 <= j < front.len() && !is_blank(#[trigger] front[j]) implies
            crate::evaluate::rows::nacl_rule_at(front[j]) is Ok by {
            assert(front[j] == raw[j]);
        }
        law_which_acl_columns_can_be_read(front);
        assert(raw[raw.len() - 1] == raw.last());
        assert(is_blank(raw.last()) || crate::evaluate::rows::nacl_rule_at(raw.last()) is Ok);
    }
}

/// The first edge of a column that says something and describes no network ACL
/// rule spoils the column, whatever comes after it.
pub proof fn law_first_malformed_acl_edge(
    raw: Seq<Map<Seq<char>, crate::graph::props::PropView>>,
    i: int,
)
    requires
        0 <= i < raw.len(),
        !is_blank(raw[i]),
        crate::evaluate::rows::nacl_rule_at(raw[i]) is Err,
        forall|j: int|
            0 <= j < i && !is_blank(#[trigger] raw[j]) ==> crate::evaluate::rows::nacl_rule_at(
                raw[j],
            ) is Ok,
    ensures
        crate::evaluate::rows::nacl_rules_at(raw) == Err::<
            Seq<crate::domain::rule::NaclRuleView>,
            Seq<char>,
        >(crate::evaluate::rows::nacl_rule_at(raw[i])->Err_0),
    decreases raw.len(),
{
    let front = raw.drop_last();
    assert forall|j: int|
        0 <= j < i && j < front.len() && !is_blank(#[trigger] front[j]) implies
        crate::evaluate::rows::nacl_rule_at(front[j]) is Ok by {
        assert(front[j] == raw[j]);
    }
    if i < front.len() {
        assert(front[i] == raw[i]);
        law_first_malformed_acl_edge(front, i);
    } else {
        law_which_acl_columns_can_be_read(front);
    }
}

/// What is said of a row that cannot be read: a column that did not arrive is
/// reported with its own error, and one with a malformed rule by the property
/// at fault. The groups come first, then the egress rules, the ingress rules
/// and the network ACL rules, and last the id, the VPC, the subnet and the
/// address.
pub proof fn law_first_faulty_column(row: EniRow)
    ensures
        ({
            let fault = crate::evaluate::rows::eni_row_fault(row);
            let groups = row.security_group_ids is Ok;
            let egress = groups && (row.egress_rules matches Ok(raw)
                && crate::evaluate::rows::sg_rules_at(raw.deep_view(), Direction::Egress) is Ok);
            let ingress = egress && (row.ingress_rules matches Ok(raw)
                && crate::evaluate::rows::sg_rules_at(raw.deep_view(), Direction::Ingress) is Ok);
            let acl = ingress && (row.nacl_rules matches Ok(raw)
                && crate::evaluate::rows::nacl_rules_at(raw.deep_view()) is Ok);
            &&& row.security_group_ids matches Err(error) ==> did_not_arrive(fault, error)
            &&& groups ==> (row.egress_rules matches Err(error) ==> did_not_arrive(fault, error))
            &&& groups ==> (row.egress_rules matches Ok(raw) ==> (
            crate::evaluate::rows::sg_rules_at(raw.deep_view(), Direction::Egress) matches Err(field)
                ==> is_malformed(fault, field)))
            &&& egress ==> (row.ingress_rules matches Err(error) ==> did_not_arrive(fault, error))
            &&& egress ==> (row.ingress_rules matches Ok(raw) ==> (
            crate::evaluate::rows::sg_rules_at(
                raw.deep_view(),
                Direction::Ingress,
            ) matches Err(field) ==> is_malformed(fault, field)))
            &&& ingress ==> (row.nacl_rules matches Err(error) ==> did_not_arrive(fault, error))
            &&& ingress ==> (row.nacl_rules matches Ok(raw) ==> (
            crate::evaluate::rows::nacl_rules_at(raw.deep_view()) matches Err(field)
                ==> is_malformed(fault, field)))
            &&& acl ==> (row.eni_id matches Err(error) ==> did_not_arrive(fault, error))
            &&& acl && row.eni_id is Ok ==> (row.vpc_id matches Err(error) ==> did_not_arrive(
                fault,
                error,
            ))
            &&& acl && row.eni_id is Ok && row.vpc_id is Ok ==> (row.subnet_id matches Err(error)
                ==> did_not_arrive(fault, error))
            &&& acl && row.eni_id is Ok && row.vpc_id is Ok && row.subnet_id is Ok ==> (
            row.private_ip matches Err(error) ==> did_not_arrive(fault, error))
        }),
{
}

/// Whether `fault` is that a column did not arrive.
pub open spec fn did_not_arrive(
    fault: Option<crate::error::CandidateAssemblyErrorView>,
    error: neo4rs::DeError,
) -> bool {
    fault == Some(crate::error::CandidateAssemblyErrorView::Deserialize { source: error })
}

/// Whether `fault` is that of a rule with a malformed property.
pub open spec fn is_malformed(
    fault: Option<crate::error::CandidateAssemblyErrorView>,
    field: Seq<char>,
) -> bool {
    fault == Some(crate::error::CandidateAssemblyErrorView::MalformedRow { field })
}

} // verus!
