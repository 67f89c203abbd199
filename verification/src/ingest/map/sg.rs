//! Mapping of security groups into security group rules.
use vstd::prelude::*;
use vstd::string::*;

use crate::domain::rule::{Direction, PortRange, RuleTarget, SgRule};
use crate::error::MappingError;
use crate::ingest::aws::{IpPermission, IpRange, Ipv6Range, SecurityGroup, UserIdGroupPair};
use crate::ingest::map::{append_items, build_port_range, push_item, require_str};
use crate::text::same_text;

verus! {

/// A protocol, where an absent one stands for all.
pub open spec fn protocol_or_all(protocol: Option<String>) -> Seq<char> {
    match protocol {
        Some(text) => text@,
        None => "-1"@,
    }
}

/// What of `permission` all its rules share.
pub ghost struct RuleFrame {
    pub direction: Direction,
    pub protocol: Seq<char>,
    pub port_range: Option<(u16, u16)>,
}

impl RuleFrame {
    /// The rule of this frame for `target`.
    pub open spec fn rule(
        self,
        target: crate::domain::rule::RuleTargetView,
        resolved: bool,
    ) -> crate::domain::rule::SgRuleView {
        crate::domain::rule::SgRuleView {
            direction: self.direction,
            protocol: self.protocol,
            port_range: self.port_range,
            target,
            resolved,
        }
    }
}

/// The rule for a CIDR in `field` of security group `group_id`.
pub open spec fn cidr_rule(
    group_id: Seq<char>,
    frame: RuleFrame,
    field: Seq<char>,
    cidr: Option<String>,
) -> Result<crate::domain::rule::SgRuleView, crate::error::MappingErrorView> {
    match crate::ingest::map::required(group_id, field, cidr) {
        Ok(cidr) => Ok(frame.rule(crate::domain::rule::RuleTargetView::Cidr { cidr }, true)),
        Err(error) => Err(error),
    }
}

/// The rule for an IPv4 range.
pub open spec fn v4_rule(group_id: Seq<char>, frame: RuleFrame) -> spec_fn(IpRange) -> Result<
    crate::domain::rule::SgRuleView,
    crate::error::MappingErrorView,
> {
    |range: IpRange| cidr_rule(group_id, frame, "ip_ranges[].cidr_ip"@, range.cidr_ip)
}

/// The rule for an IPv6 range.
pub open spec fn v6_rule(group_id: Seq<char>, frame: RuleFrame) -> spec_fn(Ipv6Range) -> Result<
    crate::domain::rule::SgRuleView,
    crate::error::MappingErrorView,
> {
    |range: Ipv6Range| cidr_rule(group_id, frame, "ipv6_ranges[].cidr_ipv6"@, range.cidr_ipv6)
}

/// Whether a reference points into the audited account. One without an owner
/// is taken to.
pub open spec fn same_account(owner: Option<String>, account_id: Seq<char>) -> bool {
    match owner {
        Some(owner) => owner@ == account_id,
        None => true,
    }
}

/// The rule for a reference, which is resolved where it points into the
/// audited account.
pub open spec fn reference_rule(
    group_id: Seq<char>,
    frame: RuleFrame,
    account_id: Seq<char>,
) -> spec_fn(UserIdGroupPair) -> Result<
    crate::domain::rule::SgRuleView,
    crate::error::MappingErrorView,
> {
    |pair: UserIdGroupPair|
        match crate::ingest::map::required(
            group_id,
            "user_id_group_pairs[].group_id"@,
            pair.group_id,
        ) {
            Ok(security_group_id) => Ok(
                frame.rule(
                    crate::domain::rule::RuleTargetView::SecurityGroupRef { security_group_id },
                    same_account(pair.user_id, account_id),
                ),
            ),
            Err(error) => Err(error),
        }
}

/// The rules of one permission: one per IPv4 range, then one per IPv6 range,
/// then one per reference.
pub open spec fn permission_rules(
    group_id: Seq<char>,
    permission: IpPermission,
    direction: Direction,
    account_id: Seq<char>,
) -> Result<Seq<crate::domain::rule::SgRuleView>, crate::error::MappingErrorView> {
    let protocol = protocol_or_all(permission.ip_protocol);
    match crate::ingest::map::port_span(
        group_id,
        "port_range"@,
        protocol,
        permission.from_port,
        permission.to_port,
    ) {
        Err(error) => Err(error),
        Ok(port_range) => {
            let frame = RuleFrame { direction, protocol, port_range };
            match crate::ingest::map::map_all(permission.ip_ranges@, v4_rule(group_id, frame)) {
                Err(error) => Err(error),
                Ok(v4) => match crate::ingest::map::map_all(
                    permission.ipv6_ranges@,
                    v6_rule(group_id, frame),
                ) {
                    Err(error) => Err(error),
                    Ok(v6) => match crate::ingest::map::map_all(
                        permission.user_id_group_pairs@,
                        reference_rule(group_id, frame, account_id),
                    ) {
                        Err(error) => Err(error),
                        Ok(references) => Ok(v4 + v6 + references),
                    },
                },
            }
        },
    }
}

/// The mapping of the permissions of one direction.
pub open spec fn permission_mapping(
    group_id: Seq<char>,
    direction: Direction,
    account_id: Seq<char>,
) -> spec_fn(IpPermission) -> Result<
    Seq<crate::domain::rule::SgRuleView>,
    crate::error::MappingErrorView,
> {
    |permission: IpPermission| permission_rules(group_id, permission, direction, account_id)
}

/// The rules of a security group: those of its ingress permissions, then those
/// of its egress permissions.
pub open spec fn security_group_rules(sg: SecurityGroup, account_id: Seq<char>) -> Result<
    Seq<crate::domain::rule::SgRuleView>,
    crate::error::MappingErrorView,
> {
    match crate::ingest::map::required("<unknown security group>"@, "group_id"@, sg.group_id) {
        Err(error) => Err(error),
        Ok(group_id) => match crate::ingest::map::map_all(
            sg.ip_permissions@,
            permission_mapping(group_id, Direction::Ingress, account_id),
        ) {
            Err(error) => Err(error),
            Ok(ingress) => match crate::ingest::map::map_all(
                sg.ip_permissions_egress@,
                permission_mapping(group_id, Direction::Egress, account_id),
            ) {
                Err(error) => Err(error),
                Ok(egress) => Ok(
                    crate::ingest::map::joined(ingress) + crate::ingest::map::joined(egress),
                ),
            },
        },
    }
}

fn cidr_sg_rule(
    group_id: &str,
    direction: Direction,
    protocol: &String,
    port_range: Option<PortRange>,
    field: &'static str,
    cidr: &Option<String>,
) -> (rule: Result<SgRule, MappingError>)
    ensures
        crate::ingest::map::agrees(
            rule,
            cidr_rule(
                group_id@,
                (RuleFrame {
                    direction,
                    protocol: protocol@,
                    port_range: port_range.deep_view(),
                }),
                field@,
                *cidr,
            ),
        ),
{
    match require_str(group_id, field, cidr) {
        Ok(cidr) => Ok(
            SgRule {
                direction,
                protocol: protocol.clone(),
                port_range,
                target: RuleTarget::Cidr { cidr },
                resolved: true,
            },
        ),
        Err(error) => Err(error),
    }
}

fn reference_sg_rule(
    group_id: &str,
    direction: Direction,
    protocol: &String,
    port_range: Option<PortRange>,
    pair: &UserIdGroupPair,
    current_account_id: &str,
) -> (rule: Result<SgRule, MappingError>)
    ensures
        crate::ingest::map::agrees(
            rule,
            reference_rule(
                group_id@,
                (RuleFrame {
                    direction,
                    protocol: protocol@,
                    port_range: port_range.deep_view(),
                }),
                current_account_id@,
            )(*pair),
        ),
{
    let security_group_id = match require_str(
        group_id,
        "user_id_group_pairs[].group_id",
        &pair.group_id,
    ) {
        Ok(security_group_id) => security_group_id,
        Err(error) => return Err(error),
    };
    let resolved = match &pair.user_id {
        Some(owner_id) => same_text(owner_id.as_str(), current_account_id),
        None => true,
    };
    Ok(
        SgRule {
            direction,
            protocol: protocol.clone(),
            port_range,
            target: RuleTarget::SecurityGroupRef { security_group_id },
            resolved,
        },
    )
}

fn map_v4_ranges(
    group_id: &str,
    direction: Direction,
    protocol: &String,
    port_range: Option<PortRange>,
    ranges: &Vec<IpRange>,
) -> (rules: Result<Vec<SgRule>, MappingError>)
    ensures
        crate::ingest::map::agrees(
            rules,
            crate::ingest::map::map_all(
                ranges@,
                v4_rule(
                    group_id@,
                    (RuleFrame {
                        direction,
                        protocol: protocol@,
                        port_range: port_range.deep_view(),
                    }),
                ),
            ),
        ),
{
    let ghost f = v4_rule(
        group_id@,
        RuleFrame { direction, protocol: protocol@, port_range: port_range.deep_view() },
    );
    let mut rules: Vec<SgRule> = Vec::new();
    let mut i: usize = 0;
    assert(rules.deep_view() =~= Seq::empty());
    assert(ranges@.take(0) =~= Seq::empty());
    while i < ranges.len()
        invariant
            0 <= i <= ranges@.len(),
            f == v4_rule(
                group_id@,
                (RuleFrame {
                    direction,
                    protocol: protocol@,
                    port_range: port_range.deep_view(),
                }),
            ),
            crate::ingest::map::map_all(ranges@.take(i as int), f) == Ok::<
                Seq<crate::domain::rule::SgRuleView>,
                crate::error::MappingErrorView,
            >(rules.deep_view()),
        decreases ranges@.len() - i,
    {
        proof {
            crate::ingest::map::lemma_map_all_step(ranges@, f, i as int);
        }
        match cidr_sg_rule(
            group_id,
            direction,
            protocol,
            port_range,
            "ip_ranges[].cidr_ip",
            &ranges[i].cidr_ip,
        ) {
            Ok(rule) => push_item(&mut rules, rule),
            Err(error) => {
                proof {
                    crate::ingest::map::lemma_map_all_fault(ranges@, f, i + 1);
                }
                return Err(error);
            },
        }
        i = i + 1;
    }
    assert(ranges@.take(i as int) =~= ranges@);
    Ok(rules)
}

fn map_v6_ranges(
    group_id: &str,
    direction: Direction,
    protocol: &String,
    port_range: Option<PortRange>,
    ranges: &Vec<Ipv6Range>,
) -> (rules: Result<Vec<SgRule>, MappingError>)
    ensures
        crate::ingest::map::agrees(
            rules,
            crate::ingest::map::map_all(
                ranges@,
                v6_rule(
                    group_id@,
                    (RuleFrame {
                        direction,
                        protocol: protocol@,
                        port_range: port_range.deep_view(),
                    }),
                ),
            ),
        ),
{
    let ghost f = v6_rule(
        group_id@,
        RuleFrame { direction, protocol: protocol@, port_range: port_range.deep_view() },
    );
    let mut rules: Vec<SgRule> = Vec::new();
    let mut i: usize = 0;
    assert(rules.deep_view() =~= Seq::empty());
    assert(ranges@.take(0) =~= Seq::empty());
    while i < ranges.len()
        invariant
            0 <= i <= ranges@.len(),
            f == v6_rule(
                group_id@,
                (RuleFrame {
                    direction,
                    protocol: protocol@,
                    port_range: port_range.deep_view(),
                }),
            ),
            crate::ingest::map::map_all(ranges@.take(i as int), f) == Ok::<
                Seq<crate::domain::rule::SgRuleView>,
                crate::error::MappingErrorView,
            >(rules.deep_view()),
        decreases ranges@.len() - i,
    {
        proof {
            crate::ingest::map::lemma_map_all_step(ranges@, f, i as int);
        }
        match cidr_sg_rule(
            group_id,
            direction,
            protocol,
            port_range,
            "ipv6_ranges[].cidr_ipv6",
            &ranges[i].cidr_ipv6,
        ) {
            Ok(rule) => push_item(&mut rules, rule),
            Err(error) => {
                proof {
                    crate::ingest::map::lemma_map_all_fault(ranges@, f, i + 1);
                }
                return Err(error);
            },
        }
        i = i + 1;
    }
    assert(ranges@.take(i as int) =~= ranges@);
    Ok(rules)
}

fn map_references(
    group_id: &str,
    direction: Direction,
    protocol: &String,
    port_range: Option<PortRange>,
    pairs: &Vec<UserIdGroupPair>,
    current_account_id: &str,
) -> (rules: Result<Vec<SgRule>, MappingError>)
    ensures
        crate::ingest::map::agrees(
            rules,
            crate::ingest::map::map_all(
                pairs@,
                reference_rule(
                    group_id@,
                    (RuleFrame {
                        direction,
                        protocol: protocol@,
                        port_range: port_range.deep_view(),
                    }),
                    current_account_id@,
                ),
            ),
        ),
{
    let ghost f = reference_rule(
        group_id@,
        RuleFrame { direction, protocol: protocol@, port_range: port_range.deep_view() },
        current_account_id@,
    );
    let mut rules: Vec<SgRule> = Vec::new();
    let mut i: usize = 0;
    assert(rules.deep_view() =~= Seq::empty());
    assert(pairs@.take(0) =~= Seq::empty());
    while i < pairs.len()
        invariant
            0 <= i <= pairs@.len(),
            f == reference_rule(
                group_id@,
                (RuleFrame {
                    direction,
                    protocol: protocol@,
                    port_range: port_range.deep_view(),
                }),
                current_account_id@,
            ),
            crate::ingest::map::map_all(pairs@.take(i as int), f) == Ok::<
                Seq<crate::domain::rule::SgRuleView>,
                crate::error::MappingErrorView,
            >(rules.deep_view()),
        decreases pairs@.len() - i,
    {
        proof {
            crate::ingest::map::lemma_map_all_step(pairs@, f, i as int);
        }
        match reference_sg_rule(
            group_id,
            direction,
            protocol,
            port_range,
            &pairs[i],
            current_account_id,
        ) {
            Ok(rule) => push_item(&mut rules, rule),
            Err(error) => {
                proof {
                    crate::ingest::map::lemma_map_all_fault(pairs@, f, i + 1);
                }
                return Err(error);
            },
        }
        i = i + 1;
    }
    assert(pairs@.take(i as int) =~= pairs@);
    Ok(rules)
}

/// Maps one permission into one rule per target.
pub fn map_permission(
    group_id: &str,
    permission: &IpPermission,
    direction: Direction,
    current_account_id: &str,
) -> (rules: Result<Vec<SgRule>, MappingError>)
    ensures
        crate::ingest::map::agrees(
            rules,
            permission_rules(group_id@, *permission, direction, current_account_id@),
        ),
{
    let protocol = match &permission.ip_protocol {
        Some(protocol) => protocol.clone(),
        None => String::from_str("-1"),
    };
    let port_range = match build_port_range(
        group_id,
        "port_range",
        protocol.as_str(),
        permission.from_port,
        permission.to_port,
    ) {
        Ok(port_range) => port_range,
        Err(error) => return Err(error),
    };
    let mut rules = match map_v4_ranges(
        group_id,
        direction,
        &protocol,
        port_range,
        &permission.ip_ranges,
    ) {
        Ok(rules) => rules,
        Err(error) => return Err(error),
    };
    match map_v6_ranges(group_id, direction, &protocol, port_range, &permission.ipv6_ranges) {
        Ok(more) => append_items(&mut rules, more),
        Err(error) => return Err(error),
    }
    match map_references(
        group_id,
        direction,
        &protocol,
        port_range,
        &permission.user_id_group_pairs,
        current_account_id,
    ) {
        Ok(more) => append_items(&mut rules, more),
        Err(error) => return Err(error),
    }
    Ok(rules)
}

fn map_permissions(
    group_id: &str,
    permissions: &Vec<IpPermission>,
    direction: Direction,
    current_account_id: &str,
) -> (rules: Result<Vec<SgRule>, MappingError>)
    ensures
        crate::ingest::map::agrees(
            rules,
            (match crate::ingest::map::map_all(
                permissions@,
                permission_mapping(group_id@, direction, current_account_id@),
            ) {
                Ok(parts) => Ok(crate::ingest::map::joined(parts)),
                Err(error) => Err(error),
            }),
        ),
{
    let ghost f = permission_mapping(group_id@, direction, current_account_id@);
    let ghost mut parts: Seq<Seq<crate::domain::rule::SgRuleView>> = Seq::empty();
    let mut rules: Vec<SgRule> = Vec::new();
    let mut i: usize = 0;
    assert(rules.deep_view() =~= Seq::empty());
    assert(permissions@.take(0) =~= Seq::empty());
    while i < permissions.len()
        invariant
            0 <= i <= permissions@.len(),
            f == permission_mapping(group_id@, direction, current_account_id@),
            crate::ingest::map::map_all(permissions@.take(i as int), f) == Ok::<
                Seq<Seq<crate::domain::rule::SgRuleView>>,
                crate::error::MappingErrorView,
            >(parts),
            rules.deep_view() == crate::ingest::map::joined(parts),
        decreases permissions@.len() - i,
    {
        proof {
            crate::ingest::map::lemma_map_all_step(permissions@, f, i as int);
        }
        match map_permission(group_id, &permissions[i], direction, current_account_id) {
            Ok(more) => {
                proof {
                    crate::ingest::map::lemma_joined_push(parts, more.deep_view());
                    parts = parts.push(more.deep_view());
                }
                append_items(&mut rules, more);
            },
            Err(error) => {
                proof {
                    crate::ingest::map::lemma_map_all_fault(permissions@, f, i + 1);
                }
                return Err(error);
            },
        }
        i = i + 1;
    }
    assert(permissions@.take(i as int) =~= permissions@);
    Ok(rules)
}

/// Maps a security group's permissions into rules.
pub fn map_security_group_rules(sg: &SecurityGroup, current_account_id: &str) -> (rules: Result<
    Vec<SgRule>,
    MappingError,
>)
    ensures
        crate::ingest::map::agrees(rules, security_group_rules(*sg, current_account_id@)),
        sg.ip_permissions@.len() == 0 ==> (rules matches Ok(made) ==> forall|i: int|
            0 <= i < made@.len() ==> (#[trigger] made@[i]).direction == Direction::Egress),
        sg.ip_permissions_egress@.len() == 0 ==> (rules matches Ok(made) ==> forall|i: int|
            0 <= i < made@.len() ==> (#[trigger] made@[i]).direction == Direction::Ingress),
{
    let group_id = match require_str("<unknown security group>", "group_id", &sg.group_id) {
        Ok(group_id) => group_id,
        Err(error) => return Err(error),
    };
    let mut rules = match map_permissions(
        group_id.as_str(),
        &sg.ip_permissions,
        Direction::Ingress,
        current_account_id,
    ) {
        Ok(rules) => rules,
        Err(error) => return Err(error),
    };
    match map_permissions(
        group_id.as_str(),
        &sg.ip_permissions_egress,
        Direction::Egress,
        current_account_id,
    ) {
        Ok(more) => append_items(&mut rules, more),
        Err(error) => return Err(error),
    }
    proof {
        let model = security_group_rules(*sg, current_account_id@)->Ok_0;
        assert(rules.deep_view() =~= model);
        assert forall|i: int| 0 <= i < rules@.len() implies {
            &&& sg.ip_permissions@.len() == 0 ==> (#[trigger] rules@[i]).direction
                == Direction::Egress
            &&& sg.ip_permissions_egress@.len() == 0 ==> rules@[i].direction == Direction::Ingress
        } by {
            assert(model[i] == rules@[i].deep_view());
            crate::laws::rules::law_no_rule_without_a_permission(*sg, current_account_id@, i);
        }
    }
    Ok(rules)
}

/// A reference into another account is mapped, as unresolved; it is neither
/// dropped nor an error.
pub proof fn law_cross_account_reference_is_unresolved(
    group_id: Seq<char>,
    frame: RuleFrame,
    account_id: Seq<char>,
    pair: UserIdGroupPair,
)
    requires
        pair.group_id is Some,
        pair.user_id matches Some(owner) && owner@ != account_id,
    ensures
        reference_rule(group_id, frame, account_id)(pair) == Ok::<
            crate::domain::rule::SgRuleView,
            crate::error::MappingErrorView,
        >(
            frame.rule(
                crate::domain::rule::RuleTargetView::SecurityGroupRef {
                    security_group_id: pair.group_id->0@,
                },
                false,
            ),
        ),
{
}

/// A permission that can be mapped gives exactly one rule per target, each for
/// the permission's direction; those with a CIDR target are resolved.
pub proof fn law_one_rule_per_target(
    group_id: Seq<char>,
    permission: IpPermission,
    direction: Direction,
    account_id: Seq<char>,
)
    requires
        permission_rules(group_id, permission, direction, account_id) is Ok,
    ensures
        ({
            let rules = permission_rules(group_id, permission, direction, account_id)->Ok_0;
            &&& rules.len() == permission.ip_ranges@.len() + permission.ipv6_ranges@.len()
                + permission.user_id_group_pairs@.len()
            &&& forall|i: int|
                0 <= i < rules.len() ==> (#[trigger] rules[i]).direction == direction && (
                rules[i].target is Cidr ==> rules[i].resolved)
        }),
{
    let protocol = protocol_or_all(permission.ip_protocol);
    let port_range = crate::ingest::map::port_span(
        group_id,
        "port_range"@,
        protocol,
        permission.from_port,
        permission.to_port,
    )->Ok_0;
    let frame = RuleFrame { direction, protocol, port_range };
    let f4 = v4_rule(group_id, frame);
    let f6 = v6_rule(group_id, frame);
    let fr = reference_rule(group_id, frame, account_id);
    crate::ingest::map::lemma_map_all_ok(permission.ip_ranges@, f4);
    crate::ingest::map::lemma_map_all_ok(permission.ipv6_ranges@, f6);
    crate::ingest::map::lemma_map_all_ok(permission.user_id_group_pairs@, fr);
    let v4 = crate::ingest::map::map_all(permission.ip_ranges@, f4)->Ok_0;
    let v6 = crate::ingest::map::map_all(permission.ipv6_ranges@, f6)->Ok_0;
    let references = crate::ingest::map::map_all(permission.user_id_group_pairs@, fr)->Ok_0;
    let rules = v4 + v6 + references;
    assert forall|i: int| 0 <= i < rules.len() implies (#[trigger] rules[i]).direction == direction
        && (rules[i].target is Cidr ==> rules[i].resolved) by {
        if i < v4.len() {
            assert(rules[i] == v4[i]);
        } else if i < v4.len() + v6.len() {
            assert(rules[i] == v6[i - v4.len()]);
        } else {
            assert(rules[i] == references[i - v4.len() - v6.len()]);
        }
    }
}

} // verus!
