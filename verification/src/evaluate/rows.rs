//! Reading rules and ENIs out of the rows that graph queries answer with.
use vstd::prelude::*;

use crate::domain::order::sort_by_number;
use crate::domain::rule::{Action, Direction, NaclRule, PortRange, RuleTarget, SgRule};
use crate::error::CandidateAssemblyError;
use crate::evaluate::candidates::EniNode;
use crate::graph::props::{Prop, Props};
use crate::text::same_text;

verus! {

/// Reads every interface with its subnet, its rules and its groups, one row
/// for each.
pub const ENI_QUERY: &'static str =
    "MATCH (eni:ENI)
OPTIONAL MATCH (eni)-[:IN_SUBNET]->(subnet:Subnet)
OPTIONAL MATCH (subnet)-[:USES_ROUTE_TABLE]->(rt:RouteTable)
OPTIONAL MATCH (subnet)-[:PROTECTED_BY]->(acl:NetworkACL)
OPTIONAL MATCH (acl)-[nacl_rule:HAS_RULE]->(acl)
OPTIONAL MATCH (eni)-[:HAS_SG]->(sg:SecurityGroup)
OPTIONAL MATCH (sg)-[egress:ALLOWS_EGRESS]->()
OPTIONAL MATCH (sg)-[ingress:ALLOWS_INGRESS]->()
RETURN
    eni.id AS eni_id,
    eni.vpc_id AS vpc_id,
    eni.subnet_id AS subnet_id,
    eni.private_ip AS private_ip,
    rt.id AS route_table_id,
    collect(DISTINCT sg.id) AS security_group_ids,
    collect(DISTINCT egress) AS egress_rules,
    collect(DISTINCT ingress) AS ingress_rules,
    collect(DISTINCT nacl_rule) AS nacl_rules";

/// Reads which VPCs each route table reaches by a resolved route.
pub const ROUTE_TABLE_TARGETS_QUERY: &'static str =
    "MATCH (rt:RouteTable)-[edge:ROUTES_TO {resolved: true}]->(vpc:VPC)
RETURN rt.id AS route_table_id, collect(DISTINCT vpc.id) AS target_vpc_ids";

/// The text that `props` holds under `key`.
pub open spec fn text_at(
    props: Map<Seq<char>, crate::graph::props::PropView>,
    key: Seq<char>,
) -> Option<Seq<char>> {
    if props.dom().contains(key) {
        match props[key] {
            crate::graph::props::PropView::Text(text) => Some(text),
            _ => None,
        }
    } else {
        None
    }
}

/// The integer that `props` holds under `key`.
pub open spec fn integer_at(
    props: Map<Seq<char>, crate::graph::props::PropView>,
    key: Seq<char>,
) -> Option<int> {
    if props.dom().contains(key) {
        match props[key] {
            crate::graph::props::PropView::Integer(value) => Some(value),
            _ => None,
        }
    } else {
        None
    }
}

/// The port number that `props` holds under `key`.
pub open spec fn port_at(
    props: Map<Seq<char>, crate::graph::props::PropView>,
    key: Seq<char>,
) -> Option<u16> {
    match integer_at(props, key) {
        Some(value) => if 0 <= value <= u16::MAX {
            Some(value as u16)
        } else {
            None
        },
        None => None,
    }
}

/// The port range that `props` holds: none unless both bounds are port
/// numbers, and an error where they are inverted.
pub open spec fn ports_at(props: Map<Seq<char>, crate::graph::props::PropView>) -> Result<
    Option<(u16, u16)>,
    Seq<char>,
> {
    match (port_at(props, "from_port"@), port_at(props, "to_port"@)) {
        (Some(from), Some(to)) => if from <= to {
            Ok(Some((from, to)))
        } else {
            Err("port_range"@)
        },
        _ => Ok(None),
    }
}

/// The target that `props` holds, or the property at fault.
pub open spec fn target_at(props: Map<Seq<char>, crate::graph::props::PropView>) -> Result<
    crate::domain::rule::RuleTargetView,
    Seq<char>,
> {
    match text_at(props, "target_kind"@) {
        None => Err("target_kind"@),
        Some(kind) => if kind == "cidr"@ {
            match text_at(props, "cidr"@) {
                Some(cidr) => Ok(crate::domain::rule::RuleTargetView::Cidr { cidr }),
                None => Err("cidr"@),
            }
        } else if kind == "security_group_ref"@ {
            match text_at(props, "target_security_group_id"@) {
                Some(security_group_id) => Ok(
                    crate::domain::rule::RuleTargetView::SecurityGroupRef { security_group_id },
                ),
                None => Err("target_security_group_id"@),
            }
        } else {
            Err("target_kind"@)
        },
    }
}

/// The security group rule that `props` holds, or the first property at fault.
/// The direction is not a property: it is that of the edge.
pub open spec fn sg_rule_at(
    props: Map<Seq<char>, crate::graph::props::PropView>,
    direction: Direction,
) -> Result<crate::domain::rule::SgRuleView, Seq<char>> {
    match text_at(props, "protocol"@) {
        None => Err("protocol"@),
        Some(protocol) => match ports_at(props) {
            Err(field) => Err(field),
            Ok(port_range) => match target_at(props) {
                Err(field) => Err(field),
                Ok(target) => Ok(
                    crate::domain::rule::SgRuleView {
                        direction,
                        protocol,
                        port_range,
                        target,
                        resolved: props.dom().contains("resolved"@) && props["resolved"@]
                            == crate::graph::props::PropView::Boolean(true),
                    },
                ),
            },
        },
    }
}

/// The network ACL rule that `props` holds, or the first property at fault. A
/// rule number is taken modulo the range of `u16`.
pub open spec fn nacl_rule_at(props: Map<Seq<char>, crate::graph::props::PropView>) -> Result<
    crate::domain::rule::NaclRuleView,
    Seq<char>,
> {
    match integer_at(props, "rule_number"@) {
        None => Err("rule_number"@),
        Some(number) => match text_at(props, "direction"@) {
            None => Err("direction"@),
            Some(direction_text) => if direction_text != "ingress"@ && direction_text
                != "egress"@ {
                Err("direction"@)
            } else {
                match text_at(props, "protocol"@) {
                    None => Err("protocol"@),
                    Some(protocol) => match ports_at(props) {
                        Err(field) => Err(field),
                        Ok(port_range) => match text_at(props, "cidr"@) {
                            None => Err("cidr"@),
                            Some(cidr) => match text_at(props, "action"@) {
                                None => Err("action"@),
                                Some(action_text) => if action_text != "allow"@ && action_text
                                    != "deny"@ {
                                    Err("action"@)
                                } else {
                                    Ok(
                                        crate::domain::rule::NaclRuleView {
                                            rule_number: (number % 0x1_0000) as u16,
                                            direction: if direction_text == "ingress"@ {
                                                Direction::Ingress
                                            } else {
                                                Direction::Egress
                                            },
                                            protocol,
                                            port_range,
                                            cidr,
                                            action: if action_text == "allow"@ {
                                                Action::Allow
                                            } else {
                                                Action::Deny
                                            },
                                        },
                                    )
                                },
                            },
                        },
                    },
                }
            },
        },
    }
}

fn bolt_string(props: &Props, field: &'static str) -> (text: Result<
    String,
    CandidateAssemblyError,
>)
    ensures
        text is Ok == text_at(props.deep_view(), field@) is Some,
        text matches Ok(found) ==> found@ == text_at(props.deep_view(), field@)->0,
        text matches Err(error) ==> error == (CandidateAssemblyError::MalformedRow { field }),
{
    match props.get(field) {
        Some(Prop::Text(text)) => Ok(text.clone()),
        _ => Err(CandidateAssemblyError::MalformedRow { field }),
    }
}

fn bolt_i64(props: &Props, field: &'static str) -> (value: Result<i64, CandidateAssemblyError>)
    ensures
        value is Ok == integer_at(props.deep_view(), field@) is Some,
        value matches Ok(found) ==> found == integer_at(props.deep_view(), field@)->0,
        value matches Err(error) ==> error == (CandidateAssemblyError::MalformedRow { field }),
{
    match props.get(field) {
        Some(Prop::Integer(value)) => Ok(*value),
        _ => Err(CandidateAssemblyError::MalformedRow { field }),
    }
}

fn bolt_opt_u16(props: &Props, field: &'static str) -> (port: Option<u16>)
    ensures
        port == port_at(props.deep_view(), field@),
{
    match props.get(field) {
        Some(Prop::Integer(value)) => {
            if 0 <= *value && *value <= 0xffff {
                Some(*value as u16)
            } else {
                None
            }
        },
        _ => None,
    }
}

fn port_range_from_props(props: &Props) -> (range: Result<
    Option<PortRange>,
    CandidateAssemblyError,
>)
    ensures
        range is Ok == ports_at(props.deep_view()) is Ok,
        range matches Ok(found) ==> found.deep_view() == ports_at(props.deep_view())->Ok_0,
        range matches Err(error) ==> error.deep_view()
            == (crate::error::CandidateAssemblyErrorView::MalformedRow {
            field: ports_at(props.deep_view())->Err_0,
        }),
{
    match (bolt_opt_u16(props, "from_port"), bolt_opt_u16(props, "to_port")) {
        (Some(from), Some(to)) => match PortRange::new(from, to) {
            Ok(range) => Ok(Some(range)),
            Err(_) => Err(CandidateAssemblyError::MalformedRow { field: "port_range" }),
        },
        _ => Ok(None),
    }
}

fn target_from_props(props: &Props) -> (target: Result<RuleTarget, CandidateAssemblyError>)
    ensures
        target is Ok == target_at(props.deep_view()) is Ok,
        target matches Ok(found) ==> found.deep_view() == target_at(props.deep_view())->Ok_0,
        target matches Err(error) ==> error.deep_view()
            == (crate::error::CandidateAssemblyErrorView::MalformedRow {
            field: target_at(props.deep_view())->Err_0,
        }),
{
    let kind = match bolt_string(props, "target_kind") {
        Ok(kind) => kind,
        Err(error) => return Err(error),
    };
    if same_text(kind.as_str(), "cidr") {
        match bolt_string(props, "cidr") {
            Ok(cidr) => Ok(RuleTarget::Cidr { cidr }),
            Err(error) => Err(error),
        }
    } else if same_text(kind.as_str(), "security_group_ref") {
        match bolt_string(props, "target_security_group_id") {
            Ok(security_group_id) => Ok(RuleTarget::SecurityGroupRef { security_group_id }),
            Err(error) => Err(error),
        }
    } else {
        Err(CandidateAssemblyError::MalformedRow { field: "target_kind" })
    }
}

/// Reads a security group rule from the properties of an edge of `direction`.
pub fn sg_rule_from_props(props: &Props, direction: Direction) -> (rule: Result<
    SgRule,
    CandidateAssemblyError,
>)
    ensures
        rule is Ok == sg_rule_at(props.deep_view(), direction) is Ok,
        rule matches Ok(found) ==> found.deep_view() == sg_rule_at(
            props.deep_view(),
            direction,
        )->Ok_0,
        rule matches Err(error) ==> error.deep_view()
            == (crate::error::CandidateAssemblyErrorView::MalformedRow {
            field: sg_rule_at(props.deep_view(), direction)->Err_0,
        }),
{
    let protocol = match bolt_string(props, "protocol") {
        Ok(protocol) => protocol,
        Err(error) => return Err(error),
    };
    let port_range = match port_range_from_props(props) {
        Ok(port_range) => port_range,
        Err(error) => return Err(error),
    };
    let target = match target_from_props(props) {
        Ok(target) => target,
        Err(error) => return Err(error),
    };
    let resolved = matches!(props.get("resolved"), Some(Prop::Boolean(true)));
    Ok(SgRule { direction, protocol, port_range, target, resolved })
}

/// The low sixteen bits of `value`.
fn low_u16(value: i64) -> (low: u16)
    ensures
        low as int == value as int % 0x1_0000,
{
    if value >= 0 {
        (value % 0x1_0000) as u16
    } else {
        let below: i64 = -(value + 1);
        (0xffff - below % 0x1_0000) as u16
    }
}

/// Reads a network ACL rule from the properties of its edge.
pub fn nacl_rule_from_props(props: &Props) -> (rule: Result<NaclRule, CandidateAssemblyError>)
    ensures
        rule is Ok == nacl_rule_at(props.deep_view()) is Ok,
        rule matches Ok(found) ==> found.deep_view() == nacl_rule_at(props.deep_view())->Ok_0,
        rule matches Err(error) ==> error.deep_view()
            == (crate::error::CandidateAssemblyErrorView::MalformedRow {
            field: nacl_rule_at(props.deep_view())->Err_0,
        }),
{
    let rule_number: u16 = match bolt_i64(props, "rule_number") {
        Ok(value) => low_u16(value),
        Err(error) => return Err(error),
    };
    let direction = match bolt_string(props, "direction") {
        Ok(text) => {
            if same_text(text.as_str(), "ingress") {
                Direction::Ingress
            } else if same_text(text.as_str(), "egress") {
                Direction::Egress
            } else {
                return Err(CandidateAssemblyError::MalformedRow { field: "direction" });
            }
        },
        Err(error) => return Err(error),
    };
    let protocol = match bolt_string(props, "protocol") {
        Ok(protocol) => protocol,
        Err(error) => return Err(error),
    };
    let port_range = match port_range_from_props(props) {
        Ok(port_range) => port_range,
        Err(error) => return Err(error),
    };
    let cidr = match bolt_string(props, "cidr") {
        Ok(cidr) => cidr,
        Err(error) => return Err(error),
    };
    let action = match bolt_string(props, "action") {
        Ok(text) => {
            if same_text(text.as_str(), "allow") {
                Action::Allow
            } else if same_text(text.as_str(), "deny") {
                Action::Deny
            } else {
                return Err(CandidateAssemblyError::MalformedRow { field: "action" });
            }
        },
        Err(error) => return Err(error),
    };
    Ok(NaclRule { rule_number, direction, protocol, port_range, cidr, action })
}

/// The security group rules that a list of property maps holds, in order, or
/// the first property at fault. An empty map stands for no rule.
pub open spec fn sg_rules_at(
    raw: Seq<Map<Seq<char>, crate::graph::props::PropView>>,
    direction: Direction,
) -> Result<Seq<crate::domain::rule::SgRuleView>, Seq<char>>
    decreases raw.len(),
{
    if raw.len() == 0 {
        Ok(Seq::empty())
    } else {
        match sg_rules_at(raw.drop_last(), direction) {
            Err(field) => Err(field),
            Ok(rules) => if raw.last() == Map::<
                Seq<char>,
                crate::graph::props::PropView,
            >::empty() {
                Ok(rules)
            } else {
                match sg_rule_at(raw.last(), direction) {
                    Ok(rule) => Ok(rules.push(rule)),
                    Err(field) => Err(field),
                }
            },
        }
    }
}

/// The network ACL rules that a list of property maps holds, in order, or the
/// first property at fault. An empty map stands for no rule.
pub open spec fn nacl_rules_at(
    raw: Seq<Map<Seq<char>, crate::graph::props::PropView>>,
) -> Result<Seq<crate::domain::rule::NaclRuleView>, Seq<char>>
    decreases raw.len(),
{
    if raw.len() == 0 {
        Ok(Seq::empty())
    } else {
        match nacl_rules_at(raw.drop_last()) {
            Err(field) => Err(field),
            Ok(rules) => if raw.last() == Map::<
                Seq<char>,
                crate::graph::props::PropView,
            >::empty() {
                Ok(rules)
            } else {
                match nacl_rule_at(raw.last()) {
                    Ok(rule) => Ok(rules.push(rule)),
                    Err(field) => Err(field),
                }
            },
        }
    }
}

proof fn lemma_first_fault_stays(
    raw: Seq<Map<Seq<char>, crate::graph::props::PropView>>,
    direction: Direction,
    i: int,
)
    requires
        0 <= i <= raw.len(),
        sg_rules_at(raw.take(i), direction) is Err,
    ensures
        sg_rules_at(raw, direction) == sg_rules_at(raw.take(i), direction),
    decreases raw.len() - i,
{
    if i < raw.len() {
        assert(raw.take(i + 1).drop_last() =~= raw.take(i));
        lemma_first_fault_stays(raw, direction, i + 1);
    } else {
        assert(raw.take(i) =~= raw);
    }
}

proof fn lemma_first_nacl_fault_stays(
    raw: Seq<Map<Seq<char>, crate::graph::props::PropView>>,
    i: int,
)
    requires
        0 <= i <= raw.len(),
        nacl_rules_at(raw.take(i)) is Err,
    ensures
        nacl_rules_at(raw) == nacl_rules_at(raw.take(i)),
    decreases raw.len() - i,
{
    if i < raw.len() {
        assert(raw.take(i + 1).drop_last() =~= raw.take(i));
        lemma_first_nacl_fault_stays(raw, i + 1);
    } else {
        assert(raw.take(i) =~= raw);
    }
}

/// Reads the security group rules of a list of edges of `direction`.
pub fn sg_rules_from_props(raw: &Vec<Props>, direction: Direction) -> (rules: Result<
    Vec<SgRule>,
    CandidateAssemblyError,
>)
    ensures
        rules is Ok == sg_rules_at(raw.deep_view(), direction) is Ok,
        rules matches Ok(found) ==> found.deep_view() == sg_rules_at(
            raw.deep_view(),
            direction,
        )->Ok_0,
        rules matches Err(error) ==> error.deep_view()
            == (crate::error::CandidateAssemblyErrorView::MalformedRow {
            field: sg_rules_at(raw.deep_view(), direction)->Err_0,
        }),
{
    let ghost model = raw.deep_view();
    let mut rules: Vec<SgRule> = Vec::new();
    let mut i: usize = 0;
    assert(rules.deep_view() =~= Seq::empty());
    assert(model.take(0) =~= Seq::empty());
    while i < raw.len()
        invariant
            0 <= i <= raw@.len(),
            model == raw.deep_view(),
            sg_rules_at(model.take(i as int), direction) == Ok::<
                Seq<crate::domain::rule::SgRuleView>,
                Seq<char>,
            >(rules.deep_view()),
        decreases raw@.len() - i,
    {
        assert(model.take(i + 1).drop_last() =~= model.take(i as int));
        assert(model.take(i + 1).last() == raw@[i as int].deep_view());
        if !raw[i].is_empty() {
            match sg_rule_from_props(&raw[i], direction) {
                Ok(rule) => {
                    let ghost before = rules.deep_view();
                    rules.push(rule);
                    assert(rules.deep_view() =~= before.push(rule.deep_view()));
                },
                Err(error) => {
                    proof {
                        lemma_first_fault_stays(model, direction, i + 1);
                    }
                    return Err(error);
                },
            }
        }
        i = i + 1;
    }
    assert(model.take(i as int) =~= model);
    Ok(rules)
}

/// Reads the network ACL rules of a list of edges.
pub fn nacl_rules_from_props(raw: &Vec<Props>) -> (rules: Result<
    Vec<NaclRule>,
    CandidateAssemblyError,
>)
    ensures
        rules is Ok == nacl_rules_at(raw.deep_view()) is Ok,
        rules matches Ok(found) ==> found.deep_view() == nacl_rules_at(raw.deep_view())->Ok_0,
        rules matches Err(error) ==> error.deep_view()
            == (crate::error::CandidateAssemblyErrorView::MalformedRow {
            field: nacl_rules_at(raw.deep_view())->Err_0,
        }),
{
    let ghost model = raw.deep_view();
    let mut rules: Vec<NaclRule> = Vec::new();
    let mut i: usize = 0;
    assert(rules.deep_view() =~= Seq::empty());
    assert(model.take(0) =~= Seq::empty());
    while i < raw.len()
        invariant
            0 <= i <= raw@.len(),
            model == raw.deep_view(),
            nacl_rules_at(model.take(i as int)) == Ok::<
                Seq<crate::domain::rule::NaclRuleView>,
                Seq<char>,
            >(rules.deep_view()),
        decreases raw@.len() - i,
    {
        assert(model.take(i + 1).drop_last() =~= model.take(i as int));
        assert(model.take(i + 1).last() == raw@[i as int].deep_view());
        if !raw[i].is_empty() {
            match nacl_rule_from_props(&raw[i]) {
                Ok(rule) => {
                    let ghost before = rules.deep_view();
                    rules.push(rule);
                    assert(rules.deep_view() =~= before.push(rule.deep_view()));
                },
                Err(error) => {
                    proof {
                        lemma_first_nacl_fault_stays(model, i + 1);
                    }
                    return Err(error);
                },
            }
        }
        i = i + 1;
    }
    assert(model.take(i as int) =~= model);
    Ok(rules)
}

/// One row of the query for ENIs: each column's value, or the driver's error
/// where the value could not be deserialized. A route table that is absent or
/// unreadable is `None`.
#[derive(Debug)]
pub struct EniRow {
    pub eni_id: Result<String, neo4rs::DeError>,
    pub vpc_id: Result<String, neo4rs::DeError>,
    pub subnet_id: Result<String, neo4rs::DeError>,
    pub private_ip: Result<String, neo4rs::DeError>,
    pub route_table_id: Option<String>,
    pub security_group_ids: Result<Vec<String>, neo4rs::DeError>,
    pub egress_rules: Result<Vec<Props>, neo4rs::DeError>,
    pub ingress_rules: Result<Vec<Props>, neo4rs::DeError>,
    pub nacl_rules: Result<Vec<Props>, neo4rs::DeError>,
}

/// What is wrong with `row`, if anything is: the first column that could not
/// be deserialized or that holds a malformed rule, where the columns of the
/// groups and rules come before those of the ENI itself.
pub open spec fn eni_row_fault(row: EniRow) -> Option<crate::error::CandidateAssemblyErrorView> {
    match row.security_group_ids {
        Err(source) => deserialize_fault(source),
        Ok(_) => match row.egress_rules {
            Err(source) => deserialize_fault(source),
            Ok(egress) => match sg_rules_at(egress.deep_view(), Direction::Egress) {
                Err(field) => malformed_fault(field),
                Ok(_) => match row.ingress_rules {
                    Err(source) => deserialize_fault(source),
                    Ok(ingress) => match sg_rules_at(ingress.deep_view(), Direction::Ingress) {
                        Err(field) => malformed_fault(field),
                        Ok(_) => match row.nacl_rules {
                            Err(source) => deserialize_fault(source),
                            Ok(nacl) => match nacl_rules_at(nacl.deep_view()) {
                                Err(field) => malformed_fault(field),
                                Ok(_) => column_fault(row),
                            },
                        },
                    },
                },
            },
        },
    }
}

/// A column that could not be deserialized.
pub open spec fn deserialize_fault(source: neo4rs::DeError) -> Option<
    crate::error::CandidateAssemblyErrorView,
> {
    Some(crate::error::CandidateAssemblyErrorView::Deserialize { source })
}

/// A rule with a property at fault.
pub open spec fn malformed_fault(field: Seq<char>) -> Option<
    crate::error::CandidateAssemblyErrorView,
> {
    Some(crate::error::CandidateAssemblyErrorView::MalformedRow { field })
}

/// The first of the ENI's own columns that could not be deserialized.
pub open spec fn column_fault(row: EniRow) -> Option<crate::error::CandidateAssemblyErrorView> {
    match (row.eni_id, row.vpc_id, row.subnet_id, row.private_ip) {
        (Err(source), _, _, _) => deserialize_fault(source),
        (Ok(_), Err(source), _, _) => deserialize_fault(source),
        (Ok(_), Ok(_), Err(source), _) => deserialize_fault(source),
        (Ok(_), Ok(_), Ok(_), Err(source)) => deserialize_fault(source),
        _ => None,
    }
}

/// The ENI that a row without fault holds.
pub open spec fn eni_at(row: EniRow) -> crate::evaluate::candidates::EniNodeView {
    crate::evaluate::candidates::EniNodeView {
        id: row.eni_id->Ok_0@,
        vpc_id: row.vpc_id->Ok_0@,
        subnet_id: row.subnet_id->Ok_0@,
        private_ip: row.private_ip->Ok_0@,
        security_group_ids: row.security_group_ids->Ok_0.deep_view(),
        egress_rules: sg_rules_at(
            row.egress_rules->Ok_0.deep_view(),
            Direction::Egress,
        )->Ok_0,
        ingress_rules: sg_rules_at(
            row.ingress_rules->Ok_0.deep_view(),
            Direction::Ingress,
        )->Ok_0,
        nacl_rules: crate::domain::order::by_number(
            nacl_rules_at(row.nacl_rules->Ok_0.deep_view())->Ok_0,
        ),
        route_table_id: row.route_table_id.deep_view(),
    }
}

/// Reads one ENI from a row, with its network ACL rules in evaluation order.
pub fn eni_from_row(row: EniRow) -> (eni: Result<EniNode, CandidateAssemblyError>)
    ensures
        eni is Ok <==> eni_row_fault(row) is None,
        eni matches Ok(found) ==> found.deep_view() == eni_at(row),
        eni matches Err(error) ==> Some(error.deep_view()) == eni_row_fault(row),
{
    let security_group_ids = match row.security_group_ids {
        Ok(security_group_ids) => security_group_ids,
        Err(source) => return Err(CandidateAssemblyError::Deserialize { source }),
    };
    let egress_rules = match row.egress_rules {
        Ok(raw) => match sg_rules_from_props(&raw, Direction::Egress) {
            Ok(rules) => rules,
            Err(error) => return Err(error),
        },
        Err(source) => return Err(CandidateAssemblyError::Deserialize { source }),
    };
    let ingress_rules = match row.ingress_rules {
        Ok(raw) => match sg_rules_from_props(&raw, Direction::Ingress) {
            Ok(rules) => rules,
            Err(error) => return Err(error),
        },
        Err(source) => return Err(CandidateAssemblyError::Deserialize { source }),
    };
    let nacl_rules = match row.nacl_rules {
        Ok(raw) => match nacl_rules_from_props(&raw) {
            Ok(rules) => sort_by_number(&rules),
            Err(error) => return Err(error),
        },
        Err(source) => return Err(CandidateAssemblyError::Deserialize { source }),
    };
    let id = match row.eni_id {
        Ok(id) => id,
        Err(source) => return Err(CandidateAssemblyError::Deserialize { source }),
    };
    let vpc_id = match row.vpc_id {
        Ok(vpc_id) => vpc_id,
        Err(source) => return Err(CandidateAssemblyError::Deserialize { source }),
    };
    let subnet_id = match row.subnet_id {
        Ok(subnet_id) => subnet_id,
        Err(source) => return Err(CandidateAssemblyError::Deserialize { source }),
    };
    let private_ip = match row.private_ip {
        Ok(private_ip) => private_ip,
        Err(source) => return Err(CandidateAssemblyError::Deserialize { source }),
    };
    Ok(
        EniNode {
            id,
            vpc_id,
            subnet_id,
            private_ip,
            security_group_ids,
            egress_rules,
            ingress_rules,
            nacl_rules,
            route_table_id: row.route_table_id,
        },
    )
}

/// The property keys of a security group rule's row are all different.
proof fn lemma_sg_keys_differ()
    ensures
        "security_group_id"@ != "protocol"@,
        "security_group_id"@ != "from_port"@,
        "security_group_id"@ != "to_port"@,
        "security_group_id"@ != "target_kind"@,
        "security_group_id"@ != "cidr"@,
        "security_group_id"@ != "target_security_group_id"@,
        "security_group_id"@ != "resolved"@,
        "protocol"@ != "from_port"@,
        "protocol"@ != "to_port"@,
        "protocol"@ != "target_kind"@,
        "protocol"@ != "cidr"@,
        "protocol"@ != "target_security_group_id"@,
        "protocol"@ != "resolved"@,
        "from_port"@ != "to_port"@,
        "from_port"@ != "target_kind"@,
        "from_port"@ != "cidr"@,
        "from_port"@ != "target_security_group_id"@,
        "from_port"@ != "resolved"@,
        "to_port"@ != "target_kind"@,
        "to_port"@ != "cidr"@,
        "to_port"@ != "target_security_group_id"@,
        "to_port"@ != "resolved"@,
        "target_kind"@ != "cidr"@,
        "target_kind"@ != "target_security_group_id"@,
        "target_kind"@ != "resolved"@,
        "cidr"@ != "resolved"@,
        "target_security_group_id"@ != "resolved"@,
        "cidr"@ != "security_group_ref"@,
{
    reveal_strlit("security_group_id");
    reveal_strlit("protocol");
    reveal_strlit("from_port");
    reveal_strlit("to_port");
    reveal_strlit("target_kind");
    reveal_strlit("cidr");
    reveal_strlit("target_security_group_id");
    reveal_strlit("resolved");
    reveal_strlit("security_group_ref");
    assert("security_group_id"@.len() == 17);
    assert("protocol"@.len() == 8);
    assert("from_port"@.len() == 9);
    assert("to_port"@.len() == 7);
    assert("target_kind"@.len() == 11);
    assert("cidr"@.len() == 4);
    assert("target_security_group_id"@.len() == 24);
    assert("resolved"@.len() == 8);
    assert("security_group_ref"@.len() == 18);
    assert("protocol"@[0] != "resolved"@[0]);
}

/// What is written of a security group rule is read back as that rule, on an
/// edge of its direction. In particular an unresolved rule stays unresolved.
pub proof fn law_sg_rule_survives_the_graph(
    security_group_id: Seq<char>,
    rule: crate::domain::rule::SgRuleView,
)
    requires
        rule.port_range matches Some(bounds) ==> bounds.0 <= bounds.1,
    ensures
        sg_rule_at(
            crate::graph::neo4j::sg_rule_row_of(security_group_id, rule),
            rule.direction,
        ) == Ok::<crate::domain::rule::SgRuleView, Seq<char>>(rule),
{
    lemma_sg_keys_differ();
    let row = crate::graph::neo4j::sg_rule_row_of(security_group_id, rule);
    assert(text_at(row, "protocol"@) == Some(rule.protocol));
    assert(ports_at(row) == Ok::<Option<(u16, u16)>, Seq<char>>(rule.port_range));
    assert(target_at(row) == Ok::<crate::domain::rule::RuleTargetView, Seq<char>>(rule.target));
}

/// The property keys of a network ACL rule's row are all different.
proof fn lemma_nacl_keys_differ()
    ensures
        "rule_number"@ != "direction"@,
        "rule_number"@ != "protocol"@,
        "rule_number"@ != "from_port"@,
        "rule_number"@ != "to_port"@,
        "rule_number"@ != "cidr"@,
        "rule_number"@ != "action"@,
        "direction"@ != "protocol"@,
        "direction"@ != "from_port"@,
        "direction"@ != "to_port"@,
        "direction"@ != "cidr"@,
        "direction"@ != "action"@,
        "protocol"@ != "from_port"@,
        "protocol"@ != "to_port"@,
        "protocol"@ != "cidr"@,
        "protocol"@ != "action"@,
        "from_port"@ != "to_port"@,
        "from_port"@ != "cidr"@,
        "from_port"@ != "action"@,
        "to_port"@ != "cidr"@,
        "to_port"@ != "action"@,
        "cidr"@ != "action"@,
        "ingress"@ != "egress"@,
        "allow"@ != "deny"@,
{
    reveal_strlit("rule_number");
    reveal_strlit("direction");
    reveal_strlit("protocol");
    reveal_strlit("from_port");
    reveal_strlit("to_port");
    reveal_strlit("cidr");
    reveal_strlit("action");
    reveal_strlit("ingress");
    reveal_strlit("egress");
    reveal_strlit("allow");
    reveal_strlit("deny");
    assert("rule_number"@.len() == 11);
    assert("direction"@.len() == 9);
    assert("protocol"@.len() == 8);
    assert("from_port"@.len() == 9);
    assert("to_port"@.len() == 7);
    assert("cidr"@.len() == 4);
    assert("action"@.len() == 6);
    assert("ingress"@.len() == 7);
    assert("egress"@.len() == 6);
    assert("allow"@.len() == 5);
    assert("deny"@.len() == 4);
    assert("direction"@[0] != "from_port"@[0]);
}

/// What is written of a network ACL rule is read back as that rule.
pub proof fn law_nacl_rule_survives_the_graph(
    network_acl_id: Seq<char>,
    rule: crate::domain::rule::NaclRuleView,
)
    requires
        rule.port_range matches Some(bounds) ==> bounds.0 <= bounds.1,
    ensures
        nacl_rule_at(crate::graph::neo4j::nacl_rule_row_of(network_acl_id, rule)) == Ok::<
            crate::domain::rule::NaclRuleView,
            Seq<char>,
        >(rule),
{
    lemma_nacl_keys_differ();
    let row = crate::graph::neo4j::nacl_rule_row_of(network_acl_id, rule);
    assert(integer_at(row, "rule_number"@) == Some(rule.rule_number as int));
    assert(text_at(row, "direction"@) == Some(
        crate::graph::neo4j::direction_text(rule.direction),
    ));
    assert(text_at(row, "protocol"@) == Some(rule.protocol));
    assert(ports_at(row) == Ok::<Option<(u16, u16)>, Seq<char>>(rule.port_range));
    assert(text_at(row, "cidr"@) == Some(rule.cidr));
    assert(text_at(row, "action"@) == Some(crate::graph::neo4j::action_text(rule.action)));
}

} // verus!
