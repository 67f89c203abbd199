//! Mapping of network ACLs into network ACL rules.
use vstd::prelude::*;
use vstd::string::*;

use crate::domain::order::sort_by_number;
use crate::domain::rule::{Action, Direction, NaclRule};
use crate::error::MappingError;
use crate::ingest::aws::{NetworkAcl, NetworkAclEntry, RuleAction};
use crate::ingest::map::{absent_field, build_port_range, push_item, require_str};
use crate::text::push_signed_decimal;

verus! {

/// What is said of a rule number outside the range of rule numbers.
pub open spec fn rule_number_out_of_range(value: int) -> Seq<char> {
    "rule_number "@ + crate::text::signed_decimal(value) + " exceeds u16 range"@
}

/// The rule number of an entry.
pub open spec fn entry_number(network_acl_id: Seq<char>, entry: NetworkAclEntry) -> Result<
    u16,
    crate::error::MappingErrorView,
> {
    match entry.rule_number {
        None => Err(crate::ingest::map::absent(network_acl_id, "rule_number"@)),
        Some(number) => if 0 <= number <= u16::MAX {
            Ok(number as u16)
        } else {
            Err(
                crate::ingest::map::invalid(
                    network_acl_id,
                    "rule_number"@,
                    rule_number_out_of_range(number as int),
                ),
            )
        },
    }
}

/// The ports of an entry.
pub open spec fn entry_ports(network_acl_id: Seq<char>, entry: NetworkAclEntry) -> Result<
    Option<(u16, u16)>,
    crate::error::MappingErrorView,
> {
    match entry.port_range {
        Some(range) => crate::ingest::map::port_span(
            network_acl_id,
            "port_range"@,
            crate::ingest::map::sg::protocol_or_all(entry.protocol),
            range.from,
            range.to,
        ),
        None => Ok(None),
    }
}

/// The CIDR of an entry: its IPv4 block, or else its IPv6 block.
pub open spec fn entry_cidr(network_acl_id: Seq<char>, entry: NetworkAclEntry) -> Result<
    Seq<char>,
    crate::error::MappingErrorView,
> {
    match entry.cidr_block {
        Some(cidr) => Ok(cidr@),
        None => crate::ingest::map::required(
            network_acl_id,
            "cidr_block"@,
            entry.ipv6_cidr_block,
        ),
    }
}

/// The action of an entry, which must be to allow or to deny.
pub open spec fn entry_action(network_acl_id: Seq<char>, entry: NetworkAclEntry) -> Result<
    Action,
    crate::error::MappingErrorView,
> {
    match entry.rule_action {
        Some(RuleAction::Allow) => Ok(Action::Allow),
        Some(RuleAction::Deny) => Ok(Action::Deny),
        _ => Err(
            crate::ingest::map::invalid(
                network_acl_id,
                "rule_action"@,
                "field is required and must be allow or deny"@,
            ),
        ),
    }
}

/// The rule that an entry stands for, or the first of its fields that cannot
/// be mapped.
pub open spec fn entry_rule(network_acl_id: Seq<char>) -> spec_fn(NetworkAclEntry) -> Result<
    crate::domain::rule::NaclRuleView,
    crate::error::MappingErrorView,
> {
    |entry: NetworkAclEntry|
        match entry_number(network_acl_id, entry) {
            Err(error) => Err(error),
            Ok(rule_number) => match entry_ports(network_acl_id, entry) {
                Err(error) => Err(error),
                Ok(port_range) => match entry_cidr(network_acl_id, entry) {
                    Err(error) => Err(error),
                    Ok(cidr) => match entry_action(network_acl_id, entry) {
                        Err(error) => Err(error),
                        Ok(action) => Ok(
                            crate::domain::rule::NaclRuleView {
                                rule_number,
                                direction: if entry.egress == Some(true) {
                                    Direction::Egress
                                } else {
                                    Direction::Ingress
                                },
                                protocol: crate::ingest::map::sg::protocol_or_all(entry.protocol),
                                port_range,
                                cidr,
                                action,
                            },
                        ),
                    },
                },
            },
        }
}

/// The rules of a network ACL, in evaluation order.
pub open spec fn network_acl_rules(acl: NetworkAcl) -> Result<
    Seq<crate::domain::rule::NaclRuleView>,
    crate::error::MappingErrorView,
> {
    match crate::ingest::map::required(
        "<unknown network acl>"@,
        "network_acl_id"@,
        acl.network_acl_id,
    ) {
        Err(error) => Err(error),
        Ok(network_acl_id) => match crate::ingest::map::map_all(
            acl.entries@,
            entry_rule(network_acl_id),
        ) {
            Err(error) => Err(error),
            Ok(rules) => Ok(crate::domain::order::by_number(rules)),
        },
    }
}

fn map_entry(network_acl_id: &str, entry: &NetworkAclEntry) -> (rule: Result<
    NaclRule,
    MappingError,
>)
    ensures
        crate::ingest::map::agrees(rule, entry_rule(network_acl_id@)(*entry)),
{
    let rule_number: u16 = match entry.rule_number {
        Some(number) => {
            if 0 <= number && number <= 0xffff {
                number as u16
            } else {
                let mut reason = String::from_str("rule_number ");
                push_signed_decimal(&mut reason, number as i64);
                reason.append(" exceeds u16 range");
                return Err(
                    MappingError::InvalidField {
                        resource_id: network_acl_id.to_owned(),
                        field: "rule_number",
                        reason,
                    },
                );
            }
        },
        None => return Err(absent_field(network_acl_id, "rule_number")),
    };
    let protocol = match &entry.protocol {
        Some(protocol) => protocol.clone(),
        None => String::from_str("-1"),
    };
    let port_range = match entry.port_range {
        Some(range) => match build_port_range(
            network_acl_id,
            "port_range",
            protocol.as_str(),
            range.from,
            range.to,
        ) {
            Ok(port_range) => port_range,
            Err(error) => return Err(error),
        },
        None => None,
    };
    let cidr = match &entry.cidr_block {
        Some(cidr) => cidr.clone(),
        None => match require_str(network_acl_id, "cidr_block", &entry.ipv6_cidr_block) {
            Ok(cidr) => cidr,
            Err(error) => return Err(error),
        },
    };
    let direction = match entry.egress {
        Some(true) => Direction::Egress,
        _ => Direction::Ingress,
    };
    let action = match entry.rule_action {
        Some(RuleAction::Allow) => Action::Allow,
        Some(RuleAction::Deny) => Action::Deny,
        _ => return Err(
            MappingError::InvalidField {
                resource_id: network_acl_id.to_owned(),
                field: "rule_action",
                reason: String::from_str("field is required and must be allow or deny"),
            },
        ),
    };
    Ok(NaclRule { rule_number, direction, protocol, port_range, cidr, action })
}

/// Maps a network ACL's entries into rules, in evaluation order whatever the
/// order of the entries.
pub fn map_network_acl_rules(acl: &NetworkAcl) -> (rules: Result<Vec<NaclRule>, MappingError>)
    ensures
        crate::ingest::map::agrees(rules, network_acl_rules(*acl)),
{
    let network_acl_id = match require_str(
        "<unknown network acl>",
        "network_acl_id",
        &acl.network_acl_id,
    ) {
        Ok(network_acl_id) => network_acl_id,
        Err(error) => return Err(error),
    };
    let ghost f = entry_rule(network_acl_id@);
    let ghost entries = acl.entries@;
    let mut rules: Vec<NaclRule> = Vec::new();
    let mut i: usize = 0;
    assert(rules.deep_view() =~= Seq::empty());
    assert(entries.take(0) =~= Seq::empty());
    while i < acl.entries.len()
        invariant
            0 <= i <= entries.len(),
            entries == acl.entries@,
            f == entry_rule(network_acl_id@),
            crate::ingest::map::map_all(entries.take(i as int), f) == Ok::<
                Seq<crate::domain::rule::NaclRuleView>,
                crate::error::MappingErrorView,
            >(rules.deep_view()),
            acl.network_acl_id matches Some(id) && id@ == network_acl_id@,
        decreases entries.len() - i,
    {
        proof {
            crate::ingest::map::lemma_map_all_step(entries, f, i as int);
        }
        match map_entry(network_acl_id.as_str(), &acl.entries[i]) {
            Ok(rule) => push_item(&mut rules, rule),
            Err(error) => {
                proof {
                    crate::ingest::map::lemma_map_all_fault(entries, f, i + 1);
                }
                return Err(error);
            },
        }
        i = i + 1;
    }
    assert(entries.take(i as int) =~= entries);
    Ok(sort_by_number(&rules))
}

/// Mapped rules come in ascending order of their numbers.
pub proof fn law_mapped_rules_are_ascending(acl: NetworkAcl)
    ensures
        network_acl_rules(acl) matches Ok(rules) ==> crate::domain::order::ascending(rules),
{
    if network_acl_rules(acl) is Ok {
        crate::domain::order::law_by_number_is_ascending(
            crate::ingest::map::map_all(acl.entries@, entry_rule(acl.network_acl_id->0@))->Ok_0,
        );
    }
}

} // verus!
