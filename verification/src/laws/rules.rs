//! Rules as AWS lists them: what becomes of a security group's permissions and
//! of a network ACL's entries.
use vstd::prelude::*;

use crate::domain::rule::{Action, Direction};
use crate::ingest::aws::{
    IpPermission, NetworkAcl, NetworkAclEntry, RuleAction, SecurityGroup,
};

verus! {

/// The ports of a rule. There are none for every protocol, where an end is
/// missing, or where both ends are negative. One negative end gives way to the
/// other. Else they are the two ends, which must be ports and in order.
pub proof fn law_ports(
    resource_id: Seq<char>,
    field: Seq<char>,
    protocol: Seq<char>,
    from_port: Option<i32>,
    to_port: Option<i32>,
)
    ensures
        ({
            let ports = crate::ingest::map::port_span(
                resource_id,
                field,
                protocol,
                from_port,
                to_port,
            );
            let from = from_port->0;
            let to = to_port->0;
            let open = protocol == "-1"@ || from_port is None || to_port is None || from < 0 && to
                < 0;
            &&& open ==> (ports matches Ok(range) && range is None)
            &&& !open && 0 <= from <= to <= 65535 ==> (ports matches Ok(range) && range == Some(
                (from as u16, to as u16),
            ))
            &&& !open && from < 0 && 0 <= to <= 65535 ==> (ports matches Ok(range) && range == Some(
                (to as u16, to as u16),
            ))
            &&& !open && to < 0 && 0 <= from <= 65535 ==> (ports matches Ok(range) && range == Some(
                (from as u16, from as u16),
            ))
            &&& !open && 0 <= to < from ==> ports is Err
            &&& !open && (from > 65535 || to > 65535) ==> ports is Err
            &&& ports matches Err(error)
                ==> error matches crate::error::MappingErrorView::InvalidField {
                resource_id: id,
                field: name,
                ..
            } && id == resource_id && name == field
        }),
{
}

/// Whether `rule` is one that `permission` lists: for one of its IPv4 or IPv6
/// ranges, or for one of the groups that it refers to. A group is resolved
/// where the account owns it, or no owner is given.
pub open spec fn lists(
    permission: IpPermission,
    account_id: Seq<char>,
    rule: crate::domain::rule::SgRuleView,
) -> bool {
    match rule.target {
        crate::domain::rule::RuleTargetView::Cidr { cidr } => rule.resolved && {
            ||| exists|i: int|
                0 <= i < permission.ip_ranges@.len() && (
                #[trigger] permission.ip_ranges@[i]).cidr_ip.deep_view() == Some(cidr)
            ||| exists|i: int|
                0 <= i < permission.ipv6_ranges@.len() && (
                #[trigger] permission.ipv6_ranges@[i]).cidr_ipv6.deep_view() == Some(cidr)
        },
        crate::domain::rule::RuleTargetView::SecurityGroupRef { security_group_id } => exists|
            i: int,
        |
            0 <= i < permission.user_id_group_pairs@.len() && (
            #[trigger] permission.user_id_group_pairs@[i]).group_id.deep_view() == Some(
                security_group_id,
            ) && rule.resolved == (permission.user_id_group_pairs@[i].user_id.deep_view() is None
                || permission.user_id_group_pairs@[i].user_id.deep_view() == Some(account_id)),
    }
}

/// Whether `rule` has the protocol and the ports of `permission`. Without a
/// protocol, every protocol is meant.
pub open spec fn keeps_protocol_and_ports(
    permission: IpPermission,
    group_id: Seq<char>,
    rule: crate::domain::rule::SgRuleView,
) -> bool {
    &&& permission.ip_protocol matches Some(protocol) ==> rule.protocol == protocol@
    &&& permission.ip_protocol is None ==> rule.protocol == "-1"@
    &&& crate::ingest::map::port_span(
        group_id,
        "port_range"@,
        rule.protocol,
        permission.from_port,
        permission.to_port,
    ) == Ok::<Option<(u16, u16)>, crate::error::MappingErrorView>(rule.port_range)
}

/// How many targets `permissions` list.
pub open spec fn target_count(permissions: Seq<IpPermission>) -> nat
    decreases permissions.len(),
{
    if permissions.len() == 0 {
        0
    } else {
        target_count(permissions.drop_last()) + permissions.last().ip_ranges@.len()
            + permissions.last().ipv6_ranges@.len()
            + permissions.last().user_id_group_pairs@.len()
    }
}

/// What one permission gives: a rule for each IPv4 range, then for each IPv6
/// range, then for each group, all with the direction asked for.
pub proof fn law_permission(
    group_id: Seq<char>,
    permission: IpPermission,
    direction: Direction,
    account_id: Seq<char>,
)
    requires
        crate::ingest::map::sg::permission_rules(
            group_id,
            permission,
            direction,
            account_id,
        ) is Ok,
    ensures
        ({
            let rules = crate::ingest::map::sg::permission_rules(
                group_id,
                permission,
                direction,
                account_id,
            )->Ok_0;
            let n4 = permission.ip_ranges@.len() as int;
            let n6 = permission.ipv6_ranges@.len() as int;
            let ng = permission.user_id_group_pairs@.len() as int;
            &&& rules.len() == n4 + n6 + ng
            &&& forall|k: int|
                #![trigger rules[k]]
                0 <= k < rules.len() ==> rules[k].direction == direction
                    && keeps_protocol_and_ports(permission, group_id, rules[k])
            &&& forall|k: int|
                #![trigger permission.ip_ranges@[k]]
                0 <= k < n4 ==> rules[k].resolved && rules[k].target
                    == (crate::domain::rule::RuleTargetView::Cidr {
                    cidr: permission.ip_ranges@[k].cidr_ip.deep_view()->0,
                }) && permission.ip_ranges@[k].cidr_ip is Some
            &&& forall|k: int|
                #![trigger permission.ipv6_ranges@[k]]
                0 <= k < n6 ==> rules[n4 + k].resolved && rules[n4 + k].target
                    == (crate::domain::rule::RuleTargetView::Cidr {
                    cidr: permission.ipv6_ranges@[k].cidr_ipv6.deep_view()->0,
                }) && permission.ipv6_ranges@[k].cidr_ipv6 is Some
            &&& forall|k: int|
                #![trigger permission.user_id_group_pairs@[k]]
                0 <= k < ng ==> {
                    let pair = permission.user_id_group_pairs@[k];
                    let rule = rules[n4 + n6 + k];
                    &&& pair.group_id is Some
                    &&& rule.target == (crate::domain::rule::RuleTargetView::SecurityGroupRef {
                        security_group_id: pair.group_id.deep_view()->0,
                    })
                    &&& rule.resolved == (pair.user_id is None || pair.user_id.deep_view() == Some(
                        account_id,
                    ))
                }
        }),
{
    let protocol = crate::ingest::map::sg::protocol_or_all(permission.ip_protocol);
    let port_range = crate::ingest::map::port_span(
        group_id,
        "port_range"@,
        protocol,
        permission.from_port,
        permission.to_port,
    )->Ok_0;
    let frame = crate::ingest::map::sg::RuleFrame { direction, protocol, port_range };
    let f4 = crate::ingest::map::sg::v4_rule(group_id, frame);
    let f6 = crate::ingest::map::sg::v6_rule(group_id, frame);
    let fg = crate::ingest::map::sg::reference_rule(group_id, frame, account_id);
    crate::ingest::map::lemma_map_all_ok(permission.ip_ranges@, f4);
    crate::ingest::map::lemma_map_all_ok(permission.ipv6_ranges@, f6);
    crate::ingest::map::lemma_map_all_ok(permission.user_id_group_pairs@, fg);
    let v4 = crate::ingest::map::map_all(permission.ip_ranges@, f4)->Ok_0;
    let v6 = crate::ingest::map::map_all(permission.ipv6_ranges@, f6)->Ok_0;
    let groups = crate::ingest::map::map_all(permission.user_id_group_pairs@, fg)->Ok_0;
    let rules = v4 + v6 + groups;
    assert forall|k: int| #![trigger rules[k]] 0 <= k < rules.len() implies rules[k].direction
        == direction && keeps_protocol_and_ports(permission, group_id, rules[k]) by {
        if k < v4.len() {
            assert(rules[k] == v4[k]);
        } else if k < v4.len() + v6.len() {
            assert(rules[k] == v6[k - v4.len()]);
        } else {
            assert(rules[k] == groups[k - v4.len() - v6.len()]);
        }
    }
    assert forall|k: int| #![trigger permission.ip_ranges@[k]] 0 <= k < v4.len() implies rules[k]
        == v4[k] by {}
    assert forall|k: int|
        #![trigger permission.ipv6_ranges@[k]]
        0 <= k < v6.len() implies rules[v4.len() + k] == v6[k] by {}
    assert forall|k: int|
        #![trigger permission.user_id_group_pairs@[k]]
        0 <= k < groups.len() implies rules[v4.len() + v6.len() + k] == groups[k] by {}
}

/// What a list of permissions gives with one direction: the rules of each in
/// turn.
proof fn lemma_permissions(
    group_id: Seq<char>,
    permissions: Seq<IpPermission>,
    direction: Direction,
    account_id: Seq<char>,
)
    requires
        crate::ingest::map::map_all(
            permissions,
            crate::ingest::map::sg::permission_mapping(group_id, direction, account_id),
        ) is Ok,
    ensures
        ({
            let rules = crate::ingest::map::joined(
                crate::ingest::map::map_all(
                    permissions,
                    crate::ingest::map::sg::permission_mapping(group_id, direction, account_id),
                )->Ok_0,
            );
            &&& rules.len() == target_count(permissions)
            &&& forall|k: int|
                #![trigger rules[k]]
                0 <= k < rules.len() ==> rules[k].direction == direction && exists|i: int|
                    0 <= i < permissions.len() && lists(
                        #[trigger] permissions[i],
                        account_id,
                        rules[k],
                    ) && keeps_protocol_and_ports(permissions[i], group_id, rules[k])
            &&& forall|i: int, rule: crate::domain::rule::SgRuleView|
                #![trigger lists(permissions[i], account_id, rule)]
                0 <= i < permissions.len() && rule.direction == direction && lists(
                    permissions[i],
                    account_id,
                    rule,
                ) && keeps_protocol_and_ports(permissions[i], group_id, rule) ==> rules.contains(
                    rule,
                )
        }),
    decreases permissions.len(),
{
    let f = crate::ingest::map::sg::permission_mapping(group_id, direction, account_id);
    let parts = crate::ingest::map::map_all(permissions, f)->Ok_0;
    let rules = crate::ingest::map::joined(parts);
    if permissions.len() > 0 {
        let front = permissions.drop_last();
        let permission = permissions.last();
        lemma_permissions(group_id, front, direction, account_id);
        law_permission(group_id, permission, direction, account_id);
        let before_parts = crate::ingest::map::map_all(front, f)->Ok_0;
        let before = crate::ingest::map::joined(before_parts);
        let last = crate::ingest::map::sg::permission_rules(
            group_id,
            permission,
            direction,
            account_id,
        )->Ok_0;
        assert(parts.drop_last() =~= before_parts);
        assert(rules == before + last);
        assert forall|k: int| #![trigger rules[k]] 0 <= k < rules.len() implies rules[k].direction
            == direction && exists|i: int|
            0 <= i < permissions.len() && lists(#[trigger] permissions[i], account_id, rules[k])
                && keeps_protocol_and_ports(permissions[i], group_id, rules[k]) by {
            if k < before.len() {
                assert(before[k] == rules[k]);
                let i = choose|i: int|
                    0 <= i < front.len() && lists(#[trigger] front[i], account_id, before[k])
                        && keeps_protocol_and_ports(front[i], group_id, before[k]);
                assert(permissions[i] == front[i]);
            } else {
                let at = k - before.len();
                assert(last[at] == rules[k]);
                lemma_listed(group_id, permission, direction, account_id, at);
                assert(permissions[permissions.len() - 1] == permission);
            }
        }
        assert forall|i: int, rule: crate::domain::rule::SgRuleView|
            #![trigger lists(permissions[i], account_id, rule)]
            0 <= i < permissions.len() && rule.direction == direction && lists(
                permissions[i],
                account_id,
                rule,
            ) && keeps_protocol_and_ports(permissions[i], group_id, rule) implies rules.contains(
            rule,
        ) by {
            if i < front.len() {
                assert(front[i] == permissions[i]);
                assert(lists(front[i], account_id, rule));
                assert(before.contains(rule));
                let k = choose|k: int| 0 <= k < before.len() && before[k] == rule;
                assert(rules[k] == rule);
            } else {
                let at = lemma_listed_is_there(group_id, permission, direction, account_id, rule);
                assert(rules[before.len() + at] == rule);
            }
        }
    }
}

proof fn lemma_listed(
    group_id: Seq<char>,
    permission: IpPermission,
    direction: Direction,
    account_id: Seq<char>,
    k: int,
)
    requires
        crate::ingest::map::sg::permission_rules(group_id, permission, direction, account_id)
            matches Ok(rules) && 0 <= k < rules.len(),
    ensures
        lists(
            permission,
            account_id,
            crate::ingest::map::sg::permission_rules(
                group_id,
                permission,
                direction,
                account_id,
            )->Ok_0[k],
        ),
{
    law_permission(group_id, permission, direction, account_id);
    let n4 = permission.ip_ranges@.len() as int;
    let n6 = permission.ipv6_ranges@.len() as int;
    if k < n4 {
        let range = permission.ip_ranges@[k];
    } else if k < n4 + n6 {
        let range = permission.ipv6_ranges@[k - n4];
    } else {
        let pair = permission.user_id_group_pairs@[k - n4 - n6];
    }
}

proof fn lemma_listed_is_there(
    group_id: Seq<char>,
    permission: IpPermission,
    direction: Direction,
    account_id: Seq<char>,
    rule: crate::domain::rule::SgRuleView,
) -> (k: int)
    requires
        crate::ingest::map::sg::permission_rules(group_id, permission, direction, account_id) is Ok,
        rule.direction == direction,
        lists(permission, account_id, rule),
        keeps_protocol_and_ports(permission, group_id, rule),
    ensures
        crate::ingest::map::sg::permission_rules(group_id, permission, direction, account_id)
            matches Ok(rules) && 0 <= k < rules.len() && rules[k] == rule,
{
    law_permission(group_id, permission, direction, account_id);
    let rules = crate::ingest::map::sg::permission_rules(
        group_id,
        permission,
        direction,
        account_id,
    )->Ok_0;
    let n4 = permission.ip_ranges@.len() as int;
    let n6 = permission.ipv6_ranges@.len() as int;
    let k = match rule.target {
        crate::domain::rule::RuleTargetView::Cidr { cidr } => if exists|i: int|
            0 <= i < n4 && (#[trigger] permission.ip_ranges@[i]).cidr_ip.deep_view() == Some(cidr) {
            choose|i: int|
                0 <= i < n4 && (#[trigger] permission.ip_ranges@[i]).cidr_ip.deep_view() == Some(
                    cidr,
                )
        } else {
            n4 + choose|i: int|
                0 <= i < n6 && (#[trigger] permission.ipv6_ranges@[i]).cidr_ipv6.deep_view()
                    == Some(cidr)
        },
        crate::domain::rule::RuleTargetView::SecurityGroupRef { security_group_id } => n4 + n6
            + choose|i: int|
            0 <= i < permission.user_id_group_pairs@.len() && (
            #[trigger] permission.user_id_group_pairs@[i]).group_id.deep_view() == Some(
                security_group_id,
            ) && rule.resolved == (permission.user_id_group_pairs@[i].user_id.deep_view() is None
                || permission.user_id_group_pairs@[i].user_id.deep_view() == Some(account_id)),
    };
    assert(rules[k].target == rule.target);
    assert(rules[k].resolved == rule.resolved);
    assert(rules[k].protocol == rule.protocol);
    assert(rules[k].port_range == rule.port_range);
    k
}

/// The ingress rules of a security group are exactly those that its
/// `ip_permissions` list, and its egress rules exactly those that its
/// `ip_permissions_egress` list. They come in that order, one per target.
pub proof fn law_group_rules(
    sg: SecurityGroup,
    account_id: Seq<char>,
    rule: crate::domain::rule::SgRuleView,
)
    requires
        crate::ingest::map::sg::security_group_rules(sg, account_id) is Ok,
    ensures
        ({
            let rules = crate::ingest::map::sg::security_group_rules(sg, account_id)->Ok_0;
            let group_id = sg.group_id.deep_view()->0;
            let ingress = target_count(sg.ip_permissions@) as int;
            let egress = target_count(sg.ip_permissions_egress@) as int;
            &&& sg.group_id is Some
            &&& rules.len() == ingress + egress
            &&& forall|k: int|
                #![trigger rules[k]]
                0 <= k < ingress ==> rules[k].direction == Direction::Ingress
            &&& forall|k: int|
                #![trigger rules[k]]
                ingress <= k < rules.len() ==> rules[k].direction == Direction::Egress
            &&& rule.direction == Direction::Ingress ==> (rules.contains(rule) <==> exists|i: int|
                0 <= i < sg.ip_permissions@.len() && lists(
                    #[trigger] sg.ip_permissions@[i],
                    account_id,
                    rule,
                ) && keeps_protocol_and_ports(sg.ip_permissions@[i], group_id, rule))
            &&& rule.direction == Direction::Egress ==> (rules.contains(rule) <==> exists|i: int|
                0 <= i < sg.ip_permissions_egress@.len() && lists(
                    #[trigger] sg.ip_permissions_egress@[i],
                    account_id,
                    rule,
                ) && keeps_protocol_and_ports(sg.ip_permissions_egress@[i], group_id, rule))
        }),
{
    let rules = crate::ingest::map::sg::security_group_rules(sg, account_id)->Ok_0;
    let group_id = sg.group_id.deep_view()->0;
    lemma_permissions(group_id, sg.ip_permissions@, Direction::Ingress, account_id);
    lemma_permissions(group_id, sg.ip_permissions_egress@, Direction::Egress, account_id);
    let ingress = crate::ingest::map::joined(
        crate::ingest::map::map_all(
            sg.ip_permissions@,
            crate::ingest::map::sg::permission_mapping(group_id, Direction::Ingress, account_id),
        )->Ok_0,
    );
    let egress = crate::ingest::map::joined(
        crate::ingest::map::map_all(
            sg.ip_permissions_egress@,
            crate::ingest::map::sg::permission_mapping(group_id, Direction::Egress, account_id),
        )->Ok_0,
    );
    assert(rules == ingress + egress);
    assert forall|k: int| #![trigger rules[k]] 0 <= k < rules.len() implies rules[k] == (if k
        < ingress.len() {
        ingress[k]
    } else {
        egress[k - ingress.len()]
    }) by {}
    if rules.contains(rule) {
        let k = choose|k: int| 0 <= k < rules.len() && rules[k] == rule;
        if k < ingress.len() {
            assert(ingress[k] == rule);
        } else {
            assert(egress[k - ingress.len()] == rule);
        }
    }
    if ingress.contains(rule) {
        let k = choose|k: int| 0 <= k < ingress.len() && ingress[k] == rule;
        assert(rules[k] == rule);
    }
    if egress.contains(rule) {
        let k = choose|k: int| 0 <= k < egress.len() && egress[k] == rule;
        assert(rules[ingress.len() + k] == rule);
    }
}

/// A group that lists only ingress permissions has no egress rule, and one that
/// lists only egress permissions has no ingress rule.
pub proof fn law_no_rule_without_a_permission(sg: SecurityGroup, account_id: Seq<char>, k: int)
    requires
        crate::ingest::map::sg::security_group_rules(sg, account_id) matches Ok(rules) && 0 <= k
            < rules.len(),
    ensures
        crate::ingest::map::sg::security_group_rules(sg, account_id) matches Ok(rules) && {
            &&& sg.ip_permissions_egress@.len() == 0 ==> rules[k].direction == Direction::Ingress
            &&& sg.ip_permissions@.len() == 0 ==> rules[k].direction == Direction::Egress
        },
{
    let rules = crate::ingest::map::sg::security_group_rules(sg, account_id)->Ok_0;
    law_group_rules(sg, account_id, rules[k]);
}

/// A security group can be mapped exactly where it has an id, every range has a
/// CIDR, every reference names a group, and every permission's ports can be
/// read.
pub proof fn law_which_groups_can_be_mapped(sg: SecurityGroup, account_id: Seq<char>)
    ensures
        crate::ingest::map::sg::security_group_rules(sg, account_id) is Ok <==> {
            &&& sg.group_id is Some
            &&& forall|i: int|
                0 <= i < sg.ip_permissions@.len() ==> is_complete(
                    #[trigger] sg.ip_permissions@[i],
                    sg.group_id.deep_view()->0,
                )
            &&& forall|i: int|
                0 <= i < sg.ip_permissions_egress@.len() ==> is_complete(
                    #[trigger] sg.ip_permissions_egress@[i],
                    sg.group_id.deep_view()->0,
                )
        },
{
    if sg.group_id is Some {
        let group_id = sg.group_id.deep_view()->0;
        lemma_complete_permissions(
            group_id,
            sg.ip_permissions@,
            Direction::Ingress,
            account_id,
        );
        lemma_complete_permissions(
            group_id,
            sg.ip_permissions_egress@,
            Direction::Egress,
            account_id,
        );
    }
}

/// Whether nothing is missing in `permission`.
pub open spec fn is_complete(permission: IpPermission, group_id: Seq<char>) -> bool {
    &&& forall|i: int|
        0 <= i < permission.ip_ranges@.len() ==> (
        #[trigger] permission.ip_ranges@[i]).cidr_ip is Some
    &&& forall|i: int|
        0 <= i < permission.ipv6_ranges@.len() ==> (
        #[trigger] permission.ipv6_ranges@[i]).cidr_ipv6 is Some
    &&& forall|i: int|
        0 <= i < permission.user_id_group_pairs@.len() ==> (
        #[trigger] permission.user_id_group_pairs@[i]).group_id is Some
    &&& crate::ingest::map::port_span(
        group_id,
        "port_range"@,
        match permission.ip_protocol {
            Some(protocol) => protocol@,
            None => "-1"@,
        },
        permission.from_port,
        permission.to_port,
    ) is Ok
}

proof fn lemma_complete_permissions(
    group_id: Seq<char>,
    permissions: Seq<IpPermission>,
    direction: Direction,
    account_id: Seq<char>,
)
    ensures
        crate::ingest::map::map_all(
            permissions,
            crate::ingest::map::sg::permission_mapping(group_id, direction, account_id),
        ) is Ok <==> forall|i: int|
            0 <= i < permissions.len() ==> is_complete(#[trigger] permissions[i], group_id),
{
    let f = crate::ingest::map::sg::permission_mapping(group_id, direction, account_id);
    crate::ingest::map::lemma_map_all_ok(permissions, f);
    assert forall|i: int| 0 <= i < permissions.len() implies is_complete(
        #[trigger] permissions[i],
        group_id,
    ) == (f(permissions[i]) is Ok) by {
        let permission = permissions[i];
        let protocol = crate::ingest::map::sg::protocol_or_all(permission.ip_protocol);
        let ports = crate::ingest::map::port_span(
            group_id,
            "port_range"@,
            protocol,
            permission.from_port,
            permission.to_port,
        );
        if ports is Ok {
            let frame = crate::ingest::map::sg::RuleFrame {
                direction,
                protocol,
                port_range: ports->Ok_0,
            };
            let f4 = crate::ingest::map::sg::v4_rule(group_id, frame);
            let f6 = crate::ingest::map::sg::v6_rule(group_id, frame);
            let fg = crate::ingest::map::sg::reference_rule(group_id, frame, account_id);
            crate::ingest::map::lemma_map_all_ok(permission.ip_ranges@, f4);
            crate::ingest::map::lemma_map_all_ok(permission.ipv6_ranges@, f6);
            crate::ingest::map::lemma_map_all_ok(permission.user_id_group_pairs@, fg);
            assert forall|j: int| 0 <= j < permission.ip_ranges@.len() implies (f4(
                #[trigger] permission.ip_ranges@[j],
            ) is Ok) == (permission.ip_ranges@[j].cidr_ip is Some) by {}
            assert forall|j: int| 0 <= j < permission.ipv6_ranges@.len() implies (f6(
                #[trigger] permission.ipv6_ranges@[j],
            ) is Ok) == (permission.ipv6_ranges@[j].cidr_ipv6 is Some) by {}
            assert forall|j: int| 0 <= j < permission.user_id_group_pairs@.len() implies (fg(
                #[trigger] permission.user_id_group_pairs@[j],
            ) is Ok) == (permission.user_id_group_pairs@[j].group_id is Some) by {}
        }
    }
}

/// Whether `rule` is what a network ACL entry says: its number, its protocol or
/// else every protocol, its ports, its IPv4 block or else its IPv6 block, its
/// action, and egress where it is marked so.
pub open spec fn says(
    entry: NetworkAclEntry,
    network_acl_id: Seq<char>,
    rule: crate::domain::rule::NaclRuleView,
) -> bool {
    &&& entry.rule_number matches Some(number) && rule.rule_number == number
    &&& rule.direction == Direction::Egress <==> entry.egress == Some(true)
    &&& entry.protocol matches Some(protocol) ==> rule.protocol == protocol@
    &&& entry.protocol is None ==> rule.protocol == "-1"@
    &&& entry.cidr_block matches Some(cidr) ==> rule.cidr == cidr@
    &&& entry.cidr_block is None ==> entry.ipv6_cidr_block.deep_view() == Some(rule.cidr)
    &&& rule.action == Action::Allow ==> entry.rule_action == Some(RuleAction::Allow)
    &&& rule.action == Action::Deny ==> entry.rule_action == Some(RuleAction::Deny)
    &&& entry.port_range is None ==> rule.port_range is None
    &&& entry.port_range matches Some(range) ==> crate::ingest::map::port_span(
        network_acl_id,
        "port_range"@,
        rule.protocol,
        range.from,
        range.to,
    ) == Ok::<Option<(u16, u16)>, crate::error::MappingErrorView>(rule.port_range)
}

/// Whether nothing is missing in `entry`, and its number and ports can be read.
pub open spec fn is_readable(entry: NetworkAclEntry, network_acl_id: Seq<char>) -> bool {
    &&& entry.rule_number matches Some(number) && 0 <= number <= 65535
    &&& entry.cidr_block is Some || entry.ipv6_cidr_block is Some
    &&& entry.rule_action == Some(RuleAction::Allow) || entry.rule_action == Some(RuleAction::Deny)
    &&& entry.port_range matches Some(range) ==> crate::ingest::map::port_span(
        network_acl_id,
        "port_range"@,
        match entry.protocol {
            Some(protocol) => protocol@,
            None => "-1"@,
        },
        range.from,
        range.to,
    ) is Ok
}

/// What one entry of a network ACL gives.
proof fn lemma_entry(network_acl_id: Seq<char>, entry: NetworkAclEntry)
    ensures
        ({
            let made = crate::ingest::map::nacl::entry_rule(network_acl_id)(entry);
            &&& made is Ok <==> is_readable(entry, network_acl_id)
            &&& made is Ok ==> says(entry, network_acl_id, made->Ok_0)
        }),
{
}

/// Two rules that say what one entry says are the same rule.
proof fn lemma_says_one_thing(
    network_acl_id: Seq<char>,
    entry: NetworkAclEntry,
    a: crate::domain::rule::NaclRuleView,
    b: crate::domain::rule::NaclRuleView,
)
    requires
        says(entry, network_acl_id, a),
        says(entry, network_acl_id, b),
    ensures
        a == b,
{
}

/// The rules of a network ACL are what its entries say, one per entry, in
/// ascending order of their numbers. The ACL can be mapped exactly where it has
/// an id and every entry can be read.
pub proof fn law_acl_rules(acl: NetworkAcl, rule: crate::domain::rule::NaclRuleView)
    ensures
        ({
            let made = crate::ingest::map::nacl::network_acl_rules(acl);
            let id = acl.network_acl_id.deep_view()->0;
            &&& made is Ok <==> acl.network_acl_id is Some && forall|i: int|
                0 <= i < acl.entries@.len() ==> is_readable(#[trigger] acl.entries@[i], id)
            &&& made matches Ok(rules) ==> {
                &&& rules.len() == acl.entries@.len()
                &&& forall|i: int, j: int|
                    0 <= i <= j < rules.len() ==> (#[trigger] rules[i]).rule_number <= (
                    #[trigger] rules[j]).rule_number
                &&& rules.contains(rule) <==> exists|i: int|
                    0 <= i < acl.entries@.len() && says(#[trigger] acl.entries@[i], id, rule)
            }
        }),
{
    broadcast use vstd::seq_lib::group_to_multiset_ensures;

    let id = acl.network_acl_id.deep_view()->0;
    let f = crate::ingest::map::nacl::entry_rule(id);
    crate::ingest::map::lemma_map_all_ok(acl.entries@, f);
    assert forall|i: int| 0 <= i < acl.entries@.len() implies (f(#[trigger] acl.entries@[i]) is Ok)
        == is_readable(acl.entries@[i], id) && (f(acl.entries@[i]) is Ok ==> says(
        acl.entries@[i],
        id,
        f(acl.entries@[i])->Ok_0,
    )) by {
        lemma_entry(id, acl.entries@[i]);
    }
    if crate::ingest::map::nacl::network_acl_rules(acl) is Ok {
        let mapped = crate::ingest::map::map_all(acl.entries@, f)->Ok_0;
        let rules = crate::domain::order::by_number(mapped);
        crate::domain::order::law_by_number_is_ascending(mapped);
        crate::domain::order::law_by_number_is_a_permutation(mapped);
        assert(rules.len() == rules.to_multiset().len());
        assert(mapped.len() == mapped.to_multiset().len());
        assert(rules.contains(rule) <==> rules.to_multiset().count(rule) > 0);
        assert(mapped.contains(rule) <==> mapped.to_multiset().count(rule) > 0);
        if mapped.contains(rule) {
            let i = choose|i: int| 0 <= i < mapped.len() && mapped[i] == rule;
            assert(says(acl.entries@[i], id, rule));
        }
        if exists|i: int|
            0 <= i < acl.entries@.len() && says(#[trigger] acl.entries@[i], id, rule) {
            let i = choose|i: int|
                0 <= i < acl.entries@.len() && says(#[trigger] acl.entries@[i], id, rule);
            assert(f(acl.entries@[i]) == Ok::<
                crate::domain::rule::NaclRuleView,
                crate::error::MappingErrorView,
            >(mapped[i]));
            lemma_says_one_thing(id, acl.entries@[i], rule, mapped[i]);
            assert(mapped.contains(rule));
        }
    }
}

} // verus!
