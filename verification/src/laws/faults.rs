//! What is said of resources that cannot be mapped, and how errors read.
use vstd::prelude::*;

use crate::audit::config::ConfigError;
use crate::audit::preflight::{PreflightError, ServiceHealth};
use crate::domain::rule::{Direction, RuleError};
use crate::error::{EvaluationError, MappingError, MigrationError};
use crate::ingest::aws::{
    IpPermission, NetworkAcl, NetworkAclEntry, NetworkInterface, RouteTable, SecurityGroup,
};

verus! {

/// A field that is required and is not there.
pub open spec fn lacks(resource_id: Seq<char>, field: Seq<char>) -> crate::error::MappingErrorView {
    crate::error::MappingErrorView::InvalidField {
        resource_id,
        field,
        reason: "field is required but absent"@,
    }
}

/// What is missing in a network interface: its id, else its VPC, else its
/// subnet, else its address.
pub proof fn law_missing_in_an_interface(account_id: Seq<char>, eni: NetworkInterface)
    ensures
        ({
            let made = crate::ingest::map::topology::eni_node(account_id)(eni);
            let id = eni.network_interface_id.deep_view()->0;
            if eni.network_interface_id is None {
                made is Err && made->Err_0 == lacks("<unknown ENI>"@, "network_interface_id"@)
            } else if eni.vpc_id is None {
                made is Err && made->Err_0 == lacks(id, "vpc_id"@)
            } else if eni.subnet_id is None {
                made is Err && made->Err_0 == lacks(id, "subnet_id"@)
            } else if eni.private_ip_address is None {
                made is Err && made->Err_0 == lacks(id, "private_ip_address"@)
            } else {
                made is Ok
            }
        }),
{
}

/// What is missing in a security group: its id, else its VPC, else its name.
pub proof fn law_missing_in_a_group(account_id: Seq<char>, sg: SecurityGroup)
    ensures
        ({
            let made = crate::ingest::map::topology::security_group_node(account_id)(sg);
            let id = sg.group_id.deep_view()->0;
            if sg.group_id is None {
                made is Err && made->Err_0 == lacks("<unknown security group>"@, "group_id"@)
            } else if sg.vpc_id is None {
                made is Err && made->Err_0 == lacks(id, "vpc_id"@)
            } else if sg.group_name is None {
                made is Err && made->Err_0 == lacks(id, "group_name"@)
            } else {
                made is Ok
            }
        }),
{
}

/// What is missing in a network ACL: its id, else its VPC, else whether it is a
/// default one.
pub proof fn law_missing_in_an_acl(account_id: Seq<char>, acl: NetworkAcl)
    ensures
        ({
            let made = crate::ingest::map::topology::network_acl_node(account_id)(acl);
            let id = acl.network_acl_id.deep_view()->0;
            if acl.network_acl_id is None {
                made is Err && made->Err_0 == lacks("<unknown network acl>"@, "network_acl_id"@)
            } else if acl.vpc_id is None {
                made is Err && made->Err_0 == lacks(id, "vpc_id"@)
            } else if acl.is_default is None {
                made is Err && made->Err_0 == lacks(id, "is_default"@)
            } else {
                made is Ok
            }
        }),
{
}

/// What is missing in a route table: its id, else its VPC.
pub proof fn law_missing_in_a_table(account_id: Seq<char>, table: RouteTable)
    ensures
        ({
            let made = crate::ingest::map::topology::route_table_node(account_id)(table);
            let id = table.route_table_id.deep_view()->0;
            if table.route_table_id is None {
                made is Err && made->Err_0 == lacks("<unknown route table>"@, "route_table_id"@)
            } else if table.vpc_id is None {
                made is Err && made->Err_0 == lacks(id, "vpc_id"@)
            } else {
                made is Ok
            }
        }),
{
}

/// What is wrong with an entry of a network ACL: its number, else its ports,
/// else its block, else its action.
pub proof fn law_faults_of_an_entry(network_acl_id: Seq<char>, entry: NetworkAclEntry)
    ensures
        ({
            let made = crate::ingest::map::nacl::entry_rule(network_acl_id)(entry);
            let error = made->Err_0;
            let number_ok = entry.rule_number is Some && 0 <= entry.rule_number->0 <= 65535;
            let ports_ok = entry.port_range is Some ==> crate::ingest::map::port_span(
                network_acl_id,
                "port_range"@,
                match entry.protocol {
                    Some(protocol) => protocol@,
                    None => "-1"@,
                },
                entry.port_range->0.from,
                entry.port_range->0.to,
            ) is Ok;
            &&& made is Err ==> error->resource_id == network_acl_id
            &&& entry.rule_number is None ==> made is Err && error == lacks(
                network_acl_id,
                "rule_number"@,
            )
            &&& entry.rule_number is Some && !number_ok ==> made is Err && error->field
                == "rule_number"@ && error->reason == "rule_number "@ + crate::text::signed_decimal(
                entry.rule_number->0 as int,
            ) + " exceeds u16 range"@
            &&& number_ok && !ports_ok ==> made is Err && error->field == "port_range"@
            &&& number_ok && ports_ok && entry.cidr_block is None && entry.ipv6_cidr_block is None
                ==> made is Err && error == lacks(network_acl_id, "cidr_block"@)
            &&& number_ok && ports_ok && (entry.cidr_block is Some || entry.ipv6_cidr_block is Some)
                && made is Err ==> error->field == "rule_action"@ && error->reason
                == "field is required and must be allow or deny"@
        }),
{
}

/// What is wrong with a permission: its ports, else an IPv4 range without a
/// CIDR, else an IPv6 range without one, else a reference without a group.
pub proof fn law_faults_of_a_permission(
    group_id: Seq<char>,
    permission: IpPermission,
    direction: Direction,
    account_id: Seq<char>,
)
    requires
        crate::ingest::map::sg::permission_rules(
            group_id,
            permission,
            direction,
            account_id,
        ) is Err,
    ensures
        ({
            let error = crate::ingest::map::sg::permission_rules(
                group_id,
                permission,
                direction,
                account_id,
            )->Err_0;
            let ports = crate::ingest::map::port_span(
                group_id,
                "port_range"@,
                match permission.ip_protocol {
                    Some(protocol) => protocol@,
                    None => "-1"@,
                },
                permission.from_port,
                permission.to_port,
            );
            let bare4 = exists|i: int|
                0 <= i < permission.ip_ranges@.len() && (
                #[trigger] permission.ip_ranges@[i]).cidr_ip is None;
            let bare6 = exists|i: int|
                0 <= i < permission.ipv6_ranges@.len() && (
                #[trigger] permission.ipv6_ranges@[i]).cidr_ipv6 is None;
            if ports is Err {
                error == ports->Err_0
            } else if bare4 {
                error == lacks(group_id, "ip_ranges[].cidr_ip"@)
            } else if bare6 {
                error == lacks(group_id, "ipv6_ranges[].cidr_ipv6"@)
            } else {
                error == lacks(group_id, "user_id_group_pairs[].group_id"@)
            }
        }),
{
    let protocol = crate::ingest::map::sg::protocol_or_all(permission.ip_protocol);
    let ports = crate::ingest::map::port_span(
        group_id,
        "port_range"@,
        protocol,
        permission.from_port,
        permission.to_port,
    );
    if ports is Ok {
        let frame = crate::ingest::map::sg::RuleFrame {
            direction,
            protocol,
            port_range: ports->Ok_0,
        };
        let f4 = crate::ingest::map::sg::v4_rule(group_id, frame);
        let f6 = crate::ingest::map::sg::v6_rule(group_id, frame);
        let fg = crate::ingest::map::sg::reference_rule(group_id, frame, account_id);
        crate::ingest::map::lemma_map_all_ok(permission.ip_ranges@, f4);
        crate::ingest::map::lemma_map_all_ok(permission.ipv6_ranges@, f6);
        crate::ingest::map::lemma_map_all_ok(permission.user_id_group_pairs@, fg);
        lemma_only_error(permission.ip_ranges@, f4, lacks(group_id, "ip_ranges[].cidr_ip"@));
        lemma_only_error(
            permission.ipv6_ranges@,
            f6,
            lacks(group_id, "ipv6_ranges[].cidr_ipv6"@),
        );
        lemma_only_error(
            permission.user_id_group_pairs@,
            fg,
            lacks(group_id, "user_id_group_pairs[].group_id"@),
        );
        assert forall|i: int| 0 <= i < permission.ip_ranges@.len() implies (f4(
            #[trigger] permission.ip_ranges@[i],
        ) is Ok) == (permission.ip_ranges@[i].cidr_ip is Some) by {}
        assert forall|i: int| 0 <= i < permission.ipv6_ranges@.len() implies (f6(
            #[trigger] permission.ipv6_ranges@[i],
        ) is Ok) == (permission.ipv6_ranges@[i].cidr_ipv6 is Some) by {}
    }
}

/// Where every failure of `f` is the same, so is that of mapping all.
proof fn lemma_only_error<A, B>(
    items: Seq<A>,
    f: spec_fn(A) -> Result<B, crate::error::MappingErrorView>,
    error: crate::error::MappingErrorView,
)
    requires
        forall|item: A| (#[trigger] f(item)) is Err ==> f(item)->Err_0 == error,
    ensures
        crate::ingest::map::map_all(items, f) is Err ==> crate::ingest::map::map_all(
            items,
            f,
        )->Err_0 == error,
    decreases items.len(),
{
    if items.len() > 0 {
        lemma_only_error(items.drop_last(), f, error);
    }
}

/// A member of a group that could not be mapped is left out, with a reason that
/// names the group.
pub proof fn law_membership_of_a_missing_group(
    eni_id: Seq<char>,
    gone: spec_fn(Seq<char>) -> bool,
    group: crate::ingest::aws::GroupIdentifier,
)
    requires
        group.group_id is Some,
    ensures
        ({
            let id = group.group_id.deep_view()->0;
            let member = crate::ingest::settle::membership(eni_id, gone)(group);
            &&& !gone(id) ==> member is Ok
            &&& gone(id) ==> member is Err && member->Err_0
                == (crate::error::MappingErrorView::InvalidField {
                resource_id: eni_id,
                field: "groups[].group_id"@,
                reason: "security group "@ + id + " could not be mapped"@,
            })
        }),
{
}

/// How errors with something to tell read.
pub proof fn law_error_sentences(
    from_port: u16,
    to_port: u16,
    value: i32,
    error: MappingError,
    edge_type: Seq<char>,
    sent: nat,
    merged: nat,
)
    requires
        merged <= sent,
    ensures
        (RuleError::InvertedPortRange { from_port, to_port }).text()
            == "invalid port range: from_port ("@ + crate::text::decimal(from_port as nat)
            + ") is greater than to_port ("@ + crate::text::decimal(to_port as nat) + ")"@,
        (EvaluationError::UnsupportedProtocol { value }).text() == "unsupported protocol number "@
            + crate::text::signed_decimal(value as int),
        error matches MappingError::InvalidField { resource_id, field, reason } ==> error.text()
            == "resource "@ + resource_id@ + ": field `"@ + field@ + "` is invalid: "@ + reason@,
        crate::graph::neo4j::unresolved_endpoints_text(edge_type, sent, merged) == edge_type
            + " upsert: "@ + crate::text::decimal((sent - merged) as nat) + " of "@
            + crate::text::decimal(sent) + " rows had an unresolved endpoint"@,
{
}

/// Whether the item at `i` is the first of `items` that cannot be mapped.
pub open spec fn is_first_fault<A, B>(
    items: Seq<A>,
    f: spec_fn(A) -> Result<B, crate::error::MappingErrorView>,
    i: int,
) -> bool {
    &&& 0 <= i < items.len()
    &&& f(items[i]) is Err
    &&& forall|j: int| 0 <= j < i ==> f(#[trigger] items[j]) is Ok
}

/// Of several items that cannot be mapped the first is reported.
pub proof fn law_first_fault_is_reported<A, B>(
    items: Seq<A>,
    f: spec_fn(A) -> Result<B, crate::error::MappingErrorView>,
    i: int,
)
    requires
        is_first_fault(items, f, i),
    ensures
        crate::ingest::map::map_all(items, f) == Err::<Seq<B>, crate::error::MappingErrorView>(
            f(items[i])->Err_0,
        ),
    decreases items.len(),
{
    let front = items.drop_last();
    assert forall|j: int| 0 <= j < i && j < front.len() implies f(#[trigger] front[j]) is Ok by {
        assert(front[j] == items[j]);
    }
    if i < front.len() {
        assert(front[i] == items[i]);
        law_first_fault_is_reported(front, f, i);
    } else {
        law_all_items_are_mapped(front, f);
    }
}

/// Where every item can be mapped, each gives what mapping it gives, in order.
pub proof fn law_all_items_are_mapped<A, B>(
    items: Seq<A>,
    f: spec_fn(A) -> Result<B, crate::error::MappingErrorView>,
)
    requires
        forall|j: int| 0 <= j < items.len() ==> f(#[trigger] items[j]) is Ok,
    ensures
        crate::ingest::map::map_all(items, f) is Ok,
        crate::ingest::map::map_all(items, f)->Ok_0 == items.map_values(|item: A| f(item)->Ok_0),
    decreases items.len(),
{
    let values = items.map_values(|item: A| f(item)->Ok_0);
    if items.len() > 0 {
        let front = items.drop_last();
        assert forall|j: int| 0 <= j < front.len() implies f(#[trigger] front[j]) is Ok by {
            assert(front[j] == items[j]);
        }
        law_all_items_are_mapped(front, f);
        assert(items[items.len() - 1] == items.last());
        assert(values =~= front.map_values(|item: A| f(item)->Ok_0).push(f(items.last())->Ok_0));
    } else {
        assert(values =~= Seq::empty());
    }
}

/// Which of several faults is reported: the first interface that cannot be
/// mapped, else the first security group, else the first network ACL, else the
/// first route table; then the first interface with a membership at fault, the
/// first group with a rule at fault, and the first ACL with a rule at fault.
pub proof fn law_order_of_faults(
    account_id: Seq<char>,
    groups: Seq<SecurityGroup>,
    acls: Seq<NetworkAcl>,
    tables: Seq<RouteTable>,
    enis: Seq<NetworkInterface>,
    peerings: Seq<crate::ingest::aws::VpcPeeringConnection>,
    i: int,
)
    ensures
        ({
            let batch = crate::ingest::map::topology::graph_batch(
                account_id,
                groups,
                acls,
                tables,
                enis,
                peerings,
            );
            let eni = crate::ingest::map::topology::eni_node(account_id);
            let group = crate::ingest::map::topology::security_group_node(account_id);
            let acl = crate::ingest::map::topology::network_acl_node(account_id);
            let table = crate::ingest::map::topology::route_table_node(account_id);
            let member = crate::ingest::map::topology::eni_has_sg();
            let rules = crate::ingest::map::topology::group_allows(account_id);
            let entries = crate::ingest::map::topology::acl_has_rules();
            &&& is_first_fault(enis, eni, i) ==> fails_with(batch, eni(enis[i]))
            &&& can_be_mapped(enis, eni) ==> {
                &&& is_first_fault(groups, group, i) ==> fails_with(batch, group(groups[i]))
                &&& can_be_mapped(groups, group) ==> {
                    &&& is_first_fault(acls, acl, i) ==> fails_with(batch, acl(acls[i]))
                    &&& can_be_mapped(acls, acl) ==> {
                        &&& is_first_fault(tables, table, i) ==> fails_with(
                            batch,
                            table(tables[i]),
                        )
                        &&& can_be_mapped(tables, table) ==> {
                            &&& is_first_fault(enis, member, i) ==> fails_with(
                                batch,
                                member(enis[i]),
                            )
                            &&& can_be_mapped(enis, member) ==> {
                                &&& is_first_fault(groups, rules, i) ==> fails_with(
                                    batch,
                                    rules(groups[i]),
                                )
                                &&& can_be_mapped(groups, rules) && is_first_fault(
                                    acls,
                                    entries,
                                    i,
                                ) ==> fails_with(batch, entries(acls[i]))
                                &&& can_be_mapped(groups, rules) && can_be_mapped(acls, entries)
                                    ==> batch is Ok
                            }
                        }
                    }
                }
            }
        }),
{
    lemma_fault_or_not(enis, crate::ingest::map::topology::eni_node(account_id), i);
    lemma_fault_or_not(groups, crate::ingest::map::topology::security_group_node(account_id), i);
    lemma_fault_or_not(acls, crate::ingest::map::topology::network_acl_node(account_id), i);
    lemma_fault_or_not(tables, crate::ingest::map::topology::route_table_node(account_id), i);
    lemma_fault_or_not(enis, crate::ingest::map::topology::eni_has_sg(), i);
    lemma_fault_or_not(groups, crate::ingest::map::topology::group_allows(account_id), i);
    lemma_fault_or_not(acls, crate::ingest::map::topology::acl_has_rules(), i);
}

/// Whether each of `items` can be mapped.
pub open spec fn can_be_mapped<A, B>(
    items: Seq<A>,
    f: spec_fn(A) -> Result<B, crate::error::MappingErrorView>,
) -> bool {
    forall|j: int| 0 <= j < items.len() ==> f(#[trigger] items[j]) is Ok
}

/// Whether `whole` fails as `part` does.
pub open spec fn fails_with<A, B>(
    whole: Result<A, crate::error::MappingErrorView>,
    part: Result<B, crate::error::MappingErrorView>,
) -> bool {
    whole is Err && part is Err && whole->Err_0 == part->Err_0
}

proof fn lemma_fault_or_not<A, B>(
    items: Seq<A>,
    f: spec_fn(A) -> Result<B, crate::error::MappingErrorView>,
    i: int,
)
    ensures
        can_be_mapped(items, f) ==> crate::ingest::map::map_all(items, f) is Ok,
        is_first_fault(items, f, i) ==> fails_with(
            crate::ingest::map::map_all(items, f),
            f(items[i]),
        ),
{
    if can_be_mapped(items, f) {
        law_all_items_are_mapped(items, f);
    }
    if is_first_fault(items, f, i) {
        law_first_fault_is_reported(items, f, i);
    }
}

/// What the operator is told of each class of AWS failure.
pub proof fn law_operator_sentences(
    profile: Seq<char>,
    operation: Seq<char>,
    iam_action: Seq<char>,
)
    ensures
        crate::audit::aws_error::operator_message(
            Some(crate::audit::aws_error::ClassView::ProfileNotFound { profile }),
        ) == "AWS profile "@ + crate::text::debug_quoted(profile)
            + " not found — check ~/.aws/config and ~/.aws/credentials"@,
        crate::audit::aws_error::operator_message(
            Some(crate::audit::aws_error::ClassView::AccessDenied { operation, iam_action }),
        ) == "access denied calling "@ + operation + " — the caller's IAM identity needs the "@
            + iam_action + " permission"@,
        crate::audit::aws_error::operator_message(
            Some(crate::audit::aws_error::ClassView::ExpiredCredentials),
        )
            == "AWS credentials expired — refresh your SSO session (e.g. `aws sso login`) and retry"@,
        crate::audit::aws_error::operator_message(
            Some(crate::audit::aws_error::ClassView::Throttled),
        )
            == "AWS request throttled after retries were exhausted — retry later or reduce concurrency"@,
        crate::audit::aws_error::operator_message(None) == "unclassified AWS ingestion failure"@,
{
}

/// How the errors of a migration read: each names the version, and a statement
/// its place.
pub proof fn law_migration_sentences(error: MigrationError)
    ensures
        error matches MigrationError::MalformedFilename { filename } ==> error.text()
            == "migration file name `"@ + filename@
            + "` does not start with a numeric version prefix"@,
        error matches MigrationError::StartTransaction { version, .. } ==> error.text()
            == "failed to start a transaction for migration version "@ + crate::text::decimal(
            version as nat,
        ),
        error matches MigrationError::StatementFailed { version, statement_index, .. }
            ==> error.text() == "migration version "@ + crate::text::decimal(version as nat)
            + " failed at statement "@ + crate::text::decimal(statement_index as nat),
        error matches MigrationError::RecordVersion { version, .. } ==> error.text()
            == "failed to record migration version "@ + crate::text::decimal(version as nat)
            + " as applied"@,
        error matches MigrationError::Commit { version, .. } ==> error.text()
            == "failed to commit migration version "@ + crate::text::decimal(version as nat),
{
}

/// How the errors before a run read: what Docker, the listing or a line said,
/// how long was waited and in which state, and which region is none.
pub proof fn law_preparation_sentences(error: PreflightError, config: ConfigError)
    ensures
        error matches PreflightError::DockerUnavailable { reason } ==> error.text()
            == "Docker is not available ("@ + reason@
            + "). Start Docker Desktop (or the Docker daemon) and retry."@,
        error matches PreflightError::ComposePsFailed { stderr } ==> error.text()
            == "`docker compose ps` failed: "@ + stderr@
            + ". If this mentions NEO4J_PASSWORD, set it (see .env.example) and retry."@,
        error matches PreflightError::UnexpectedOutput { line } ==> error.text()
            == "unrecognized `docker compose ps` output line: "@ + crate::text::debug_quoted(line@),
        error matches PreflightError::NotHealthy { waited, last_state } ==> error.text()
            == "neo4j did not become healthy within "@ + crate::audit::preflight::debug_duration(
            waited,
        ) + " (last state: "@ + (match last_state {
            ServiceHealth::Healthy => "Healthy"@,
            ServiceHealth::Starting => "Starting"@,
            ServiceHealth::Unhealthy => "Unhealthy"@,
            ServiceHealth::Absent => "Absent"@,
        }) + ")"@,
        config matches ConfigError::InvalidRegion { region } ==> config.text()
            == "invalid region "@ + crate::text::debug_quoted(region@)
            + ": expected a lowercase region string containing '-'"@,
{
}

} // verus!
