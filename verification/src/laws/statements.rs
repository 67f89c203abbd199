//! The texts of statements: which nodes they match, which edges they merge, and
//! what each column of a query holds.
use vstd::prelude::*;

verus! {

/// Whether `phrase` stands somewhere in `text`.
pub open spec fn holds_phrase(text: Seq<char>, phrase: Seq<char>) -> bool {
    exists|at: int|
        0 <= at && at + phrase.len() <= text.len() && #[trigger] text.subrange(
            at,
            at + phrase.len(),
        ) == phrase
}

proof fn lemma_phrase_at(text: Seq<char>, phrase: Seq<char>, at: int)
    requires
        0 <= at,
        at + phrase.len() <= text.len(),
        forall|i: int| 0 <= i < phrase.len() ==> #[trigger] phrase[i] == text[at + i],
    ensures
        holds_phrase(text, phrase),
{
    assert(text.subrange(at, at + phrase.len()) =~= phrase);
}

/// Memberships join the interface and the group that a row names.
pub proof fn law_has_sg_statement()
    ensures
        holds_phrase(crate::graph::neo4j::HAS_SG_UPSERT@, "MATCH (a:ENI {id: row.eni_id})"@),
        holds_phrase(crate::graph::neo4j::HAS_SG_UPSERT@, "(b:SecurityGroup {id: row.security_group_id})"@),
        holds_phrase(crate::graph::neo4j::HAS_SG_UPSERT@, "MERGE (a)-[r:HAS_SG]->(b)"@),
{
    let text = crate::graph::neo4j::HAS_SG_UPSERT@;
    reveal_strlit(
        "UNWIND $rows AS row
MATCH (a:ENI {id: row.eni_id}), (b:SecurityGroup {id: row.security_group_id})
MERGE (a)-[r:HAS_SG]->(b)
RETURN count(r) AS merged",
    );
    reveal_strlit("MATCH (a:ENI {id: row.eni_id})");
    lemma_phrase_at(text, "MATCH (a:ENI {id: row.eni_id})"@, 20);
    reveal_strlit("(b:SecurityGroup {id: row.security_group_id})");
    lemma_phrase_at(text, "(b:SecurityGroup {id: row.security_group_id})"@, 52);
    reveal_strlit("MERGE (a)-[r:HAS_SG]->(b)");
    lemma_phrase_at(text, "MERGE (a)-[r:HAS_SG]->(b)"@, 98);
}

/// An interface is joined to the subnet that its row names.
pub proof fn law_in_subnet_statement()
    ensures
        holds_phrase(crate::graph::neo4j::IN_SUBNET_UPSERT@, "MATCH (a:ENI {id: row.eni_id})"@),
        holds_phrase(crate::graph::neo4j::IN_SUBNET_UPSERT@, "(b:Subnet {id: row.subnet_id})"@),
        holds_phrase(crate::graph::neo4j::IN_SUBNET_UPSERT@, "MERGE (a)-[r:IN_SUBNET]->(b)"@),
{
    let text = crate::graph::neo4j::IN_SUBNET_UPSERT@;
    reveal_strlit(
        "UNWIND $rows AS row
MATCH (a:ENI {id: row.eni_id}), (b:Subnet {id: row.subnet_id})
MERGE (a)-[r:IN_SUBNET]->(b)
RETURN count(r) AS merged",
    );
    reveal_strlit("MATCH (a:ENI {id: row.eni_id})");
    lemma_phrase_at(text, "MATCH (a:ENI {id: row.eni_id})"@, 20);
    reveal_strlit("(b:Subnet {id: row.subnet_id})");
    lemma_phrase_at(text, "(b:Subnet {id: row.subnet_id})"@, 52);
    reveal_strlit("MERGE (a)-[r:IN_SUBNET]->(b)");
    lemma_phrase_at(text, "MERGE (a)-[r:IN_SUBNET]->(b)"@, 83);
}

/// A subnet is joined to the network ACL that its row names.
pub proof fn law_protected_by_statement()
    ensures
        holds_phrase(crate::graph::neo4j::PROTECTED_BY_UPSERT@, "MATCH (a:Subnet {id: row.subnet_id})"@),
        holds_phrase(crate::graph::neo4j::PROTECTED_BY_UPSERT@, "(b:NetworkACL {id: row.network_acl_id})"@),
        holds_phrase(crate::graph::neo4j::PROTECTED_BY_UPSERT@, "MERGE (a)-[r:PROTECTED_BY]->(b)"@),
{
    let text = crate::graph::neo4j::PROTECTED_BY_UPSERT@;
    reveal_strlit(
        "UNWIND $rows AS row
MATCH (a:Subnet {id: row.subnet_id}), (b:NetworkACL {id: row.network_acl_id})
MERGE (a)-[r:PROTECTED_BY]->(b)
RETURN count(r) AS merged",
    );
    reveal_strlit("MATCH (a:Subnet {id: row.subnet_id})");
    lemma_phrase_at(text, "MATCH (a:Subnet {id: row.subnet_id})"@, 20);
    reveal_strlit("(b:NetworkACL {id: row.network_acl_id})");
    lemma_phrase_at(text, "(b:NetworkACL {id: row.network_acl_id})"@, 58);
    reveal_strlit("MERGE (a)-[r:PROTECTED_BY]->(b)");
    lemma_phrase_at(text, "MERGE (a)-[r:PROTECTED_BY]->(b)"@, 98);
}

/// A subnet is joined to the route table that its row names.
pub proof fn law_uses_route_table_statement()
    ensures
        holds_phrase(crate::graph::neo4j::USES_ROUTE_TABLE_UPSERT@, "MATCH (a:Subnet {id: row.subnet_id})"@),
        holds_phrase(crate::graph::neo4j::USES_ROUTE_TABLE_UPSERT@, "(b:RouteTable {id: row.route_table_id})"@),
        holds_phrase(crate::graph::neo4j::USES_ROUTE_TABLE_UPSERT@, "MERGE (a)-[r:USES_ROUTE_TABLE]->(b)"@),
{
    let text = crate::graph::neo4j::USES_ROUTE_TABLE_UPSERT@;
    reveal_strlit(
        "UNWIND $rows AS row
MATCH (a:Subnet {id: row.subnet_id}), (b:RouteTable {id: row.route_table_id})
MERGE (a)-[r:USES_ROUTE_TABLE]->(b)
RETURN count(r) AS merged",
    );
    reveal_strlit("MATCH (a:Subnet {id: row.subnet_id})");
    lemma_phrase_at(text, "MATCH (a:Subnet {id: row.subnet_id})"@, 20);
    reveal_strlit("(b:RouteTable {id: row.route_table_id})");
    lemma_phrase_at(text, "(b:RouteTable {id: row.route_table_id})"@, 58);
    reveal_strlit("MERGE (a)-[r:USES_ROUTE_TABLE]->(b)");
    lemma_phrase_at(text, "MERGE (a)-[r:USES_ROUTE_TABLE]->(b)"@, 98);
}

/// A resolved route joins its route table to the VPC that its row names.
pub proof fn law_resolved_route_statement()
    ensures
        holds_phrase(crate::graph::neo4j::ROUTES_TO_RESOLVED_UPSERT@, "MATCH (a:RouteTable {id: row.route_table_id})"@),
        holds_phrase(crate::graph::neo4j::ROUTES_TO_RESOLVED_UPSERT@, "(b:VPC {id: row.target_vpc_id})"@),
        holds_phrase(crate::graph::neo4j::ROUTES_TO_RESOLVED_UPSERT@, "MERGE (a)-[r:ROUTES_TO {destination_cidr: row.destination_cidr}]->(b)"@),
        holds_phrase(crate::graph::neo4j::ROUTES_TO_RESOLVED_UPSERT@, "SET r.resolved = row.resolved"@),
{
    let text = crate::graph::neo4j::ROUTES_TO_RESOLVED_UPSERT@;
    reveal_strlit(
        "UNWIND $rows AS row
MATCH (a:RouteTable {id: row.route_table_id}), (b:VPC {id: row.target_vpc_id})
MERGE (a)-[r:ROUTES_TO {destination_cidr: row.destination_cidr}]->(b)
SET r.resolved = row.resolved
RETURN count(r) AS merged",
    );
    reveal_strlit("MATCH (a:RouteTable {id: row.route_table_id})");
    lemma_phrase_at(text, "MATCH (a:RouteTable {id: row.route_table_id})"@, 20);
    reveal_strlit("(b:VPC {id: row.target_vpc_id})");
    lemma_phrase_at(text, "(b:VPC {id: row.target_vpc_id})"@, 67);
    reveal_strlit("MERGE (a)-[r:ROUTES_TO {destination_cidr: row.destination_cidr}]->(b)");
    lemma_phrase_at(text, "MERGE (a)-[r:ROUTES_TO {destination_cidr: row.destination_cidr}]->(b)"@, 99);
    reveal_strlit("SET r.resolved = row.resolved");
    lemma_phrase_at(text, "SET r.resolved = row.resolved"@, 169);
}

/// An unresolved route loops on its route table.
pub proof fn law_unresolved_route_statement()
    ensures
        holds_phrase(crate::graph::neo4j::ROUTES_TO_UNRESOLVED_UPSERT@, "MATCH (a:RouteTable {id: row.route_table_id})"@),
        holds_phrase(crate::graph::neo4j::ROUTES_TO_UNRESOLVED_UPSERT@, "MERGE (a)-[r:ROUTES_TO {destination_cidr: row.destination_cidr}]->(a)"@),
        holds_phrase(crate::graph::neo4j::ROUTES_TO_UNRESOLVED_UPSERT@, "SET r.resolved = row.resolved"@),
{
    let text = crate::graph::neo4j::ROUTES_TO_UNRESOLVED_UPSERT@;
    reveal_strlit(
        "UNWIND $rows AS row
MATCH (a:RouteTable {id: row.route_table_id})
MERGE (a)-[r:ROUTES_TO {destination_cidr: row.destination_cidr}]->(a)
SET r.resolved = row.resolved
RETURN count(r) AS merged",
    );
    reveal_strlit("MATCH (a:RouteTable {id: row.route_table_id})");
    lemma_phrase_at(text, "MATCH (a:RouteTable {id: row.route_table_id})"@, 20);
    reveal_strlit("MERGE (a)-[r:ROUTES_TO {destination_cidr: row.destination_cidr}]->(a)");
    lemma_phrase_at(text, "MERGE (a)-[r:ROUTES_TO {destination_cidr: row.destination_cidr}]->(a)"@, 66);
    reveal_strlit("SET r.resolved = row.resolved");
    lemma_phrase_at(text, "SET r.resolved = row.resolved"@, 136);
}

/// An egress rule for a block is an egress edge that loops on its group.
pub proof fn law_egress_block_statement()
    ensures
        holds_phrase(crate::graph::neo4j::ALLOWS_EGRESS_CIDR_UPSERT@, "MATCH (a:SecurityGroup {id: row.security_group_id})"@),
        holds_phrase(crate::graph::neo4j::ALLOWS_EGRESS_CIDR_UPSERT@, "MERGE (a)-[r:ALLOWS_EGRESS {"@),
        holds_phrase(crate::graph::neo4j::ALLOWS_EGRESS_CIDR_UPSERT@, "protocol: row.protocol,"@),
        holds_phrase(crate::graph::neo4j::ALLOWS_EGRESS_CIDR_UPSERT@, "from_port: row.from_port,"@),
        holds_phrase(crate::graph::neo4j::ALLOWS_EGRESS_CIDR_UPSERT@, "to_port: row.to_port,"@),
        holds_phrase(crate::graph::neo4j::ALLOWS_EGRESS_CIDR_UPSERT@, "target_kind: row.target_kind,"@),
        holds_phrase(crate::graph::neo4j::ALLOWS_EGRESS_CIDR_UPSERT@, "cidr: row.cidr"@),
        holds_phrase(crate::graph::neo4j::ALLOWS_EGRESS_CIDR_UPSERT@, "}]->(a)"@),
        holds_phrase(crate::graph::neo4j::ALLOWS_EGRESS_CIDR_UPSERT@, "SET r.resolved = row.resolved"@),
{
    let text = crate::graph::neo4j::ALLOWS_EGRESS_CIDR_UPSERT@;
    reveal_strlit(
        "UNWIND $rows AS row
MATCH (a:SecurityGroup {id: row.security_group_id})
MERGE (a)-[r:ALLOWS_EGRESS {
    protocol: row.protocol,
    from_port: row.from_port,
    to_port: row.to_port,
    target_kind: row.target_kind,
    cidr: row.cidr
}]->(a)
SET r.resolved = row.resolved
RETURN count(r) AS merged",
    );
    reveal_strlit("MATCH (a:SecurityGroup {id: row.security_group_id})");
    lemma_phrase_at(text, "MATCH (a:SecurityGroup {id: row.security_group_id})"@, 20);
    reveal_strlit("MERGE (a)-[r:ALLOWS_EGRESS {");
    lemma_phrase_at(text, "MERGE (a)-[r:ALLOWS_EGRESS {"@, 72);
    reveal_strlit("protocol: row.protocol,");
    lemma_phrase_at(text, "protocol: row.protocol,"@, 105);
    reveal_strlit("from_port: row.from_port,");
    lemma_phrase_at(text, "from_port: row.from_port,"@, 133);
    reveal_strlit("to_port: row.to_port,");
    lemma_phrase_at(text, "to_port: row.to_port,"@, 163);
    reveal_strlit("target_kind: row.target_kind,");
    lemma_phrase_at(text, "target_kind: row.target_kind,"@, 189);
    reveal_strlit("cidr: row.cidr");
    lemma_phrase_at(text, "cidr: row.cidr"@, 223);
    reveal_strlit("}]->(a)");
    lemma_phrase_at(text, "}]->(a)"@, 238);
    reveal_strlit("SET r.resolved = row.resolved");
    lemma_phrase_at(text, "SET r.resolved = row.resolved"@, 246);
}

/// An egress rule for a known group is an egress edge to that group.
pub proof fn law_egress_group_statement()
    ensures
        holds_phrase(crate::graph::neo4j::ALLOWS_EGRESS_SG_REF_RESOLVED_UPSERT@, "MATCH (a:SecurityGroup {id: row.security_group_id})"@),
        holds_phrase(crate::graph::neo4j::ALLOWS_EGRESS_SG_REF_RESOLVED_UPSERT@, "MATCH (b:SecurityGroup {id: row.target_security_group_id})"@),
        holds_phrase(crate::graph::neo4j::ALLOWS_EGRESS_SG_REF_RESOLVED_UPSERT@, "MERGE (a)-[r:ALLOWS_EGRESS {"@),
        holds_phrase(crate::graph::neo4j::ALLOWS_EGRESS_SG_REF_RESOLVED_UPSERT@, "protocol: row.protocol,"@),
        holds_phrase(crate::graph::neo4j::ALLOWS_EGRESS_SG_REF_RESOLVED_UPSERT@, "from_port: row.from_port,"@),
        holds_phrase(crate::graph::neo4j::ALLOWS_EGRESS_SG_REF_RESOLVED_UPSERT@, "to_port: row.to_port,"@),
        holds_phrase(crate::graph::neo4j::ALLOWS_EGRESS_SG_REF_RESOLVED_UPSERT@, "target_kind: row.target_kind,"@),
        holds_phrase(crate::graph::neo4j::ALLOWS_EGRESS_SG_REF_RESOLVED_UPSERT@, "target_security_group_id: row.target_security_group_id"@),
        holds_phrase(crate::graph::neo4j::ALLOWS_EGRESS_SG_REF_RESOLVED_UPSERT@, "}]->(b)"@),
        holds_phrase(crate::graph::neo4j::ALLOWS_EGRESS_SG_REF_RESOLVED_UPSERT@, "SET r.resolved = row.resolved"@),
{
    let text = crate::graph::neo4j::ALLOWS_EGRESS_SG_REF_RESOLVED_UPSERT@;
    reveal_strlit(
        "UNWIND $rows AS row
MATCH (a:SecurityGroup {id: row.security_group_id})
MATCH (b:SecurityGroup {id: row.target_security_group_id})
MERGE (a)-[r:ALLOWS_EGRESS {
    protocol: row.protocol,
    from_port: row.from_port,
    to_port: row.to_port,
    target_kind: row.target_kind,
    target_security_group_id: row.target_security_group_id
}]->(b)
SET r.resolved = row.resolved
RETURN count(r) AS merged",
    );
    reveal_strlit("MATCH (a:SecurityGroup {id: row.security_group_id})");
    lemma_phrase_at(text, "MATCH (a:SecurityGroup {id: row.security_group_id})"@, 20);
    reveal_strlit("MATCH (b:SecurityGroup {id: row.target_security_group_id})");
    lemma_phrase_at(text, "MATCH (b:SecurityGroup {id: row.target_security_group_id})"@, 72);
    reveal_strlit("MERGE (a)-[r:ALLOWS_EGRESS {");
    lemma_phrase_at(text, "MERGE (a)-[r:ALLOWS_EGRESS {"@, 131);
    reveal_strlit("protocol: row.protocol,");
    lemma_phrase_at(text, "protocol: row.protocol,"@, 164);
    reveal_strlit("from_port: row.from_port,");
    lemma_phrase_at(text, "from_port: row.from_port,"@, 192);
    reveal_strlit("to_port: row.to_port,");
    lemma_phrase_at(text, "to_port: row.to_port,"@, 222);
    reveal_strlit("target_kind: row.target_kind,");
    lemma_phrase_at(text, "target_kind: row.target_kind,"@, 248);
    reveal_strlit("target_security_group_id: row.target_security_group_id");
    lemma_phrase_at(text, "target_security_group_id: row.target_security_group_id"@, 282);
    reveal_strlit("}]->(b)");
    lemma_phrase_at(text, "}]->(b)"@, 337);
    reveal_strlit("SET r.resolved = row.resolved");
    lemma_phrase_at(text, "SET r.resolved = row.resolved"@, 345);
}

/// An egress rule for an unknown group is an egress edge that loops on its own.
pub proof fn law_egress_unknown_group_statement()
    ensures
        holds_phrase(crate::graph::neo4j::ALLOWS_EGRESS_SG_REF_UNRESOLVED_UPSERT@, "MATCH (a:SecurityGroup {id: row.security_group_id})"@),
        holds_phrase(crate::graph::neo4j::ALLOWS_EGRESS_SG_REF_UNRESOLVED_UPSERT@, "MERGE (a)-[r:ALLOWS_EGRESS {"@),
        holds_phrase(crate::graph::neo4j::ALLOWS_EGRESS_SG_REF_UNRESOLVED_UPSERT@, "protocol: row.protocol,"@),
        holds_phrase(crate::graph::neo4j::ALLOWS_EGRESS_SG_REF_UNRESOLVED_UPSERT@, "from_port: row.from_port,"@),
        holds_phrase(crate::graph::neo4j::ALLOWS_EGRESS_SG_REF_UNRESOLVED_UPSERT@, "to_port: row.to_port,"@),
        holds_phrase(crate::graph::neo4j::ALLOWS_EGRESS_SG_REF_UNRESOLVED_UPSERT@, "target_kind: row.target_kind,"@),
        holds_phrase(crate::graph::neo4j::ALLOWS_EGRESS_SG_REF_UNRESOLVED_UPSERT@, "target_security_group_id: row.target_security_group_id"@),
        holds_phrase(crate::graph::neo4j::ALLOWS_EGRESS_SG_REF_UNRESOLVED_UPSERT@, "}]->(a)"@),
        holds_phrase(crate::graph::neo4j::ALLOWS_EGRESS_SG_REF_UNRESOLVED_UPSERT@, "SET r.resolved = row.resolved"@),
{
    let text = crate::graph::neo4j::ALLOWS_EGRESS_SG_REF_UNRESOLVED_UPSERT@;
    reveal_strlit(
        "UNWIND $rows AS row
MATCH (a:SecurityGroup {id: row.security_group_id})
MERGE (a)-[r:ALLOWS_EGRESS {
    protocol: row.protocol,
    from_port: row.from_port,
    to_port: row.to_port,
    target_kind: row.target_kind,
    target_security_group_id: row.target_security_group_id
}]->(a)
SET r.resolved = row.resolved
RETURN count(r) AS merged",
    );
    reveal_strlit("MATCH (a:SecurityGroup {id: row.security_group_id})");
    lemma_phrase_at(text, "MATCH (a:SecurityGroup {id: row.security_group_id})"@, 20);
    reveal_strlit("MERGE (a)-[r:ALLOWS_EGRESS {");
    lemma_phrase_at(text, "MERGE (a)-[r:ALLOWS_EGRESS {"@, 72);
    reveal_strlit("protocol: row.protocol,");
    lemma_phrase_at(text, "protocol: row.protocol,"@, 105);
    reveal_strlit("from_port: row.from_port,");
    lemma_phrase_at(text, "from_port: row.from_port,"@, 133);
    reveal_strlit("to_port: row.to_port,");
    lemma_phrase_at(text, "to_port: row.to_port,"@, 163);
    reveal_strlit("target_kind: row.target_kind,");
    lemma_phrase_at(text, "target_kind: row.target_kind,"@, 189);
    reveal_strlit("target_security_group_id: row.target_security_group_id");
    lemma_phrase_at(text, "target_security_group_id: row.target_security_group_id"@, 223);
    reveal_strlit("}]->(a)");
    lemma_phrase_at(text, "}]->(a)"@, 278);
    reveal_strlit("SET r.resolved = row.resolved");
    lemma_phrase_at(text, "SET r.resolved = row.resolved"@, 286);
}

/// An ingress rule for a block is an ingress edge that loops on its group.
pub proof fn law_ingress_block_statement()
    ensures
        holds_phrase(crate::graph::neo4j::ALLOWS_INGRESS_CIDR_UPSERT@, "MATCH (a:SecurityGroup {id: row.security_group_id})"@),
        holds_phrase(crate::graph::neo4j::ALLOWS_INGRESS_CIDR_UPSERT@, "MERGE (a)-[r:ALLOWS_INGRESS {"@),
        holds_phrase(crate::graph::neo4j::ALLOWS_INGRESS_CIDR_UPSERT@, "protocol: row.protocol,"@),
        holds_phrase(crate::graph::neo4j::ALLOWS_INGRESS_CIDR_UPSERT@, "from_port: row.from_port,"@),
        holds_phrase(crate::graph::neo4j::ALLOWS_INGRESS_CIDR_UPSERT@, "to_port: row.to_port,"@),
        holds_phrase(crate::graph::neo4j::ALLOWS_INGRESS_CIDR_UPSERT@, "target_kind: row.target_kind,"@),
        holds_phrase(crate::graph::neo4j::ALLOWS_INGRESS_CIDR_UPSERT@, "cidr: row.cidr"@),
        holds_phrase(crate::graph::neo4j::ALLOWS_INGRESS_CIDR_UPSERT@, "}]->(a)"@),
        holds_phrase(crate::graph::neo4j::ALLOWS_INGRESS_CIDR_UPSERT@, "SET r.resolved = row.resolved"@),
{
    let text = crate::graph::neo4j::ALLOWS_INGRESS_CIDR_UPSERT@;
    reveal_strlit(
        "UNWIND $rows AS row
MATCH (a:SecurityGroup {id: row.security_group_id})
MERGE (a)-[r:ALLOWS_INGRESS {
    protocol: row.protocol,
    from_port: row.from_port,
    to_port: row.to_port,
    target_kind: row.target_kind,
    cidr: row.cidr
}]->(a)
SET r.resolved = row.resolved
RETURN count(r) AS merged",
    );
    reveal_strlit("MATCH (a:SecurityGroup {id: row.security_group_id})");
    lemma_phrase_at(text, "MATCH (a:SecurityGroup {id: row.security_group_id})"@, 20);
    reveal_strlit("MERGE (a)-[r:ALLOWS_INGRESS {");
    lemma_phrase_at(text, "MERGE (a)-[r:ALLOWS_INGRESS {"@, 72);
    reveal_strlit("protocol: row.protocol,");
    lemma_phrase_at(text, "protocol: row.protocol,"@, 106);
    reveal_strlit("from_port: row.from_port,");
    lemma_phrase_at(text, "from_port: row.from_port,"@, 134);
    reveal_strlit("to_port: row.to_port,");
    lemma_phrase_at(text, "to_port: row.to_port,"@, 164);
    reveal_strlit("target_kind: row.target_kind,");
    lemma_phrase_at(text, "target_kind: row.target_kind,"@, 190);
    reveal_strlit("cidr: row.cidr");
    lemma_phrase_at(text, "cidr: row.cidr"@, 224);
    reveal_strlit("}]->(a)");
    lemma_phrase_at(text, "}]->(a)"@, 239);
    reveal_strlit("SET r.resolved = row.resolved");
    lemma_phrase_at(text, "SET r.resolved = row.resolved"@, 247);
}

/// An ingress rule for a known group is an ingress edge to that group.
pub proof fn law_ingress_group_statement()
    ensures
        holds_phrase(crate::graph::neo4j::ALLOWS_INGRESS_SG_REF_RESOLVED_UPSERT@, "MATCH (a:SecurityGroup {id: row.security_group_id})"@),
        holds_phrase(crate::graph::neo4j::ALLOWS_INGRESS_SG_REF_RESOLVED_UPSERT@, "MATCH (b:SecurityGroup {id: row.target_security_group_id})"@),
        holds_phrase(crate::graph::neo4j::ALLOWS_INGRESS_SG_REF_RESOLVED_UPSERT@, "MERGE (a)-[r:ALLOWS_INGRESS {"@),
        holds_phrase(crate::graph::neo4j::ALLOWS_INGRESS_SG_REF_RESOLVED_UPSERT@, "protocol: row.protocol,"@),
        holds_phrase(crate::graph::neo4j::ALLOWS_INGRESS_SG_REF_RESOLVED_UPSERT@, "from_port: row.from_port,"@),
        holds_phrase(crate::graph::neo4j::ALLOWS_INGRESS_SG_REF_RESOLVED_UPSERT@, "to_port: row.to_port,"@),
        holds_phrase(crate::graph::neo4j::ALLOWS_INGRESS_SG_REF_RESOLVED_UPSERT@, "target_kind: row.target_kind,"@),
        holds_phrase(crate::graph::neo4j::ALLOWS_INGRESS_SG_REF_RESOLVED_UPSERT@, "target_security_group_id: row.target_security_group_id"@),
        holds_phrase(crate::graph::neo4j::ALLOWS_INGRESS_SG_REF_RESOLVED_UPSERT@, "}]->(b)"@),
        holds_phrase(crate::graph::neo4j::ALLOWS_INGRESS_SG_REF_RESOLVED_UPSERT@, "SET r.resolved = row.resolved"@),
{
    let text = crate::graph::neo4j::ALLOWS_INGRESS_SG_REF_RESOLVED_UPSERT@;
    reveal_strlit(
        "UNWIND $rows AS row
MATCH (a:SecurityGroup {id: row.security_group_id})
MATCH (b:SecurityGroup {id: row.target_security_group_id})
MERGE (a)-[r:ALLOWS_INGRESS {
    protocol: row.protocol,
    from_port: row.from_port,
    to_port: row.to_port,
    target_kind: row.target_kind,
    target_security_group_id: row.target_security_group_id
}]->(b)
SET r.resolved = row.resolved
RETURN count(r) AS merged",
    );
    reveal_strlit("MATCH (a:SecurityGroup {id: row.security_group_id})");
    lemma_phrase_at(text, "MATCH (a:SecurityGroup {id: row.security_group_id})"@, 20);
    reveal_strlit("MATCH (b:SecurityGroup {id: row.target_security_group_id})");
    lemma_phrase_at(text, "MATCH (b:SecurityGroup {id: row.target_security_group_id})"@, 72);
    reveal_strlit("MERGE (a)-[r:ALLOWS_INGRESS {");
    lemma_phrase_at(text, "MERGE (a)-[r:ALLOWS_INGRESS {"@, 131);
    reveal_strlit("protocol: row.protocol,");
    lemma_phrase_at(text, "protocol: row.protocol,"@, 165);
    reveal_strlit("from_port: row.from_port,");
    lemma_phrase_at(text, "from_port: row.from_port,"@, 193);
    reveal_strlit("to_port: row.to_port,");
    lemma_phrase_at(text, "to_port: row.to_port,"@, 223);
    reveal_strlit("target_kind: row.target_kind,");
    lemma_phrase_at(text, "target_kind: row.target_kind,"@, 249);
    reveal_strlit("target_security_group_id: row.target_security_group_id");
    lemma_phrase_at(text, "target_security_group_id: row.target_security_group_id"@, 283);
    reveal_strlit("}]->(b)");
    lemma_phrase_at(text, "}]->(b)"@, 338);
    reveal_strlit("SET r.resolved = row.resolved");
    lemma_phrase_at(text, "SET r.resolved = row.resolved"@, 346);
}

/// An ingress rule for an unknown group is an ingress edge that loops on its own.
pub proof fn law_ingress_unknown_group_statement()
    ensures
        holds_phrase(crate::graph::neo4j::ALLOWS_INGRESS_SG_REF_UNRESOLVED_UPSERT@, "MATCH (a:SecurityGroup {id: row.security_group_id})"@),
        holds_phrase(crate::graph::neo4j::ALLOWS_INGRESS_SG_REF_UNRESOLVED_UPSERT@, "MERGE (a)-[r:ALLOWS_INGRESS {"@),
        holds_phrase(crate::graph::neo4j::ALLOWS_INGRESS_SG_REF_UNRESOLVED_UPSERT@, "protocol: row.protocol,"@),
        holds_phrase(crate::graph::neo4j::ALLOWS_INGRESS_SG_REF_UNRESOLVED_UPSERT@, "from_port: row.from_port,"@),
        holds_phrase(crate::graph::neo4j::ALLOWS_INGRESS_SG_REF_UNRESOLVED_UPSERT@, "to_port: row.to_port,"@),
        holds_phrase(crate::graph::neo4j::ALLOWS_INGRESS_SG_REF_UNRESOLVED_UPSERT@, "target_kind: row.target_kind,"@),
        holds_phrase(crate::graph::neo4j::ALLOWS_INGRESS_SG_REF_UNRESOLVED_UPSERT@, "target_security_group_id: row.target_security_group_id"@),
        holds_phrase(crate::graph::neo4j::ALLOWS_INGRESS_SG_REF_UNRESOLVED_UPSERT@, "}]->(a)"@),
        holds_phrase(crate::graph::neo4j::ALLOWS_INGRESS_SG_REF_UNRESOLVED_UPSERT@, "SET r.resolved = row.resolved"@),
{
    let text = crate::graph::neo4j::ALLOWS_INGRESS_SG_REF_UNRESOLVED_UPSERT@;
    reveal_strlit(
        "UNWIND $rows AS row
MATCH (a:SecurityGroup {id: row.security_group_id})
MERGE (a)-[r:ALLOWS_INGRESS {
    protocol: row.protocol,
    from_port: row.from_port,
    to_port: row.to_port,
    target_kind: row.target_kind,
    target_security_group_id: row.target_security_group_id
}]->(a)
SET r.resolved = row.resolved
RETURN count(r) AS merged",
    );
    reveal_strlit("MATCH (a:SecurityGroup {id: row.security_group_id})");
    lemma_phrase_at(text, "MATCH (a:SecurityGroup {id: row.security_group_id})"@, 20);
    reveal_strlit("MERGE (a)-[r:ALLOWS_INGRESS {");
    lemma_phrase_at(text, "MERGE (a)-[r:ALLOWS_INGRESS {"@, 72);
    reveal_strlit("protocol: row.protocol,");
    lemma_phrase_at(text, "protocol: row.protocol,"@, 106);
    reveal_strlit("from_port: row.from_port,");
    lemma_phrase_at(text, "from_port: row.from_port,"@, 134);
    reveal_strlit("to_port: row.to_port,");
    lemma_phrase_at(text, "to_port: row.to_port,"@, 164);
    reveal_strlit("target_kind: row.target_kind,");
    lemma_phrase_at(text, "target_kind: row.target_kind,"@, 190);
    reveal_strlit("target_security_group_id: row.target_security_group_id");
    lemma_phrase_at(text, "target_security_group_id: row.target_security_group_id"@, 224);
    reveal_strlit("}]->(a)");
    lemma_phrase_at(text, "}]->(a)"@, 279);
    reveal_strlit("SET r.resolved = row.resolved");
    lemma_phrase_at(text, "SET r.resolved = row.resolved"@, 287);
}

/// A network ACL rule loops on its network ACL, one per number, with all that it says.
pub proof fn law_has_rule_statement()
    ensures
        holds_phrase(crate::graph::neo4j::HAS_RULE_UPSERT@, "MATCH (a:NetworkACL {id: row.network_acl_id})"@),
        holds_phrase(crate::graph::neo4j::HAS_RULE_UPSERT@, "MERGE (a)-[r:HAS_RULE {rule_number: row.rule_number}]->(a)"@),
        holds_phrase(crate::graph::neo4j::HAS_RULE_UPSERT@, "SET r.direction = row.direction"@),
        holds_phrase(crate::graph::neo4j::HAS_RULE_UPSERT@, "r.protocol = row.protocol"@),
        holds_phrase(crate::graph::neo4j::HAS_RULE_UPSERT@, "r.from_port = row.from_port"@),
        holds_phrase(crate::graph::neo4j::HAS_RULE_UPSERT@, "r.to_port = row.to_port"@),
        holds_phrase(crate::graph::neo4j::HAS_RULE_UPSERT@, "r.cidr = row.cidr"@),
        holds_phrase(crate::graph::neo4j::HAS_RULE_UPSERT@, "r.action = row.action"@),
{
    let text = crate::graph::neo4j::HAS_RULE_UPSERT@;
    reveal_strlit(
        "UNWIND $rows AS row
MATCH (a:NetworkACL {id: row.network_acl_id})
MERGE (a)-[r:HAS_RULE {rule_number: row.rule_number}]->(a)
SET r.direction = row.direction,
    r.protocol = row.protocol,
    r.from_port = row.from_port,
    r.to_port = row.to_port,
    r.cidr = row.cidr,
    r.action = row.action
RETURN count(r) AS merged",
    );
    reveal_strlit("MATCH (a:NetworkACL {id: row.network_acl_id})");
    lemma_phrase_at(text, "MATCH (a:NetworkACL {id: row.network_acl_id})"@, 20);
    reveal_strlit("MERGE (a)-[r:HAS_RULE {rule_number: row.rule_number}]->(a)");
    lemma_phrase_at(text, "MERGE (a)-[r:HAS_RULE {rule_number: row.rule_number}]->(a)"@, 66);
    reveal_strlit("SET r.direction = row.direction");
    lemma_phrase_at(text, "SET r.direction = row.direction"@, 125);
    reveal_strlit("r.protocol = row.protocol");
    lemma_phrase_at(text, "r.protocol = row.protocol"@, 162);
    reveal_strlit("r.from_port = row.from_port");
    lemma_phrase_at(text, "r.from_port = row.from_port"@, 193);
    reveal_strlit("r.to_port = row.to_port");
    lemma_phrase_at(text, "r.to_port = row.to_port"@, 226);
    reveal_strlit("r.cidr = row.cidr");
    lemma_phrase_at(text, "r.cidr = row.cidr"@, 255);
    reveal_strlit("r.action = row.action");
    lemma_phrase_at(text, "r.action = row.action"@, 278);
}

/// The query for interfaces reads egress edges as egress rules, ingress edges as
/// ingress rules, the rules of the network ACL that protects the subnet, and the
/// route table that the subnet uses.
pub proof fn law_interface_query()
    ensures
        holds_phrase(crate::evaluate::rows::ENI_QUERY@, "OPTIONAL MATCH (eni)-[:IN_SUBNET]->(subnet:Subnet)"@),
        holds_phrase(crate::evaluate::rows::ENI_QUERY@, "OPTIONAL MATCH (subnet)-[:USES_ROUTE_TABLE]->(rt:RouteTable)"@),
        holds_phrase(crate::evaluate::rows::ENI_QUERY@, "OPTIONAL MATCH (subnet)-[:PROTECTED_BY]->(acl:NetworkACL)"@),
        holds_phrase(crate::evaluate::rows::ENI_QUERY@, "OPTIONAL MATCH (acl)-[nacl_rule:HAS_RULE]->(acl)"@),
        holds_phrase(crate::evaluate::rows::ENI_QUERY@, "OPTIONAL MATCH (eni)-[:HAS_SG]->(sg:SecurityGroup)"@),
        holds_phrase(crate::evaluate::rows::ENI_QUERY@, "OPTIONAL MATCH (sg)-[egress:ALLOWS_EGRESS]->()"@),
        holds_phrase(crate::evaluate::rows::ENI_QUERY@, "OPTIONAL MATCH (sg)-[ingress:ALLOWS_INGRESS]->()"@),
        holds_phrase(crate::evaluate::rows::ENI_QUERY@, "eni.id AS eni_id"@),
        holds_phrase(crate::evaluate::rows::ENI_QUERY@, "eni.vpc_id AS vpc_id"@),
        holds_phrase(crate::evaluate::rows::ENI_QUERY@, "eni.subnet_id AS subnet_id"@),
        holds_phrase(crate::evaluate::rows::ENI_QUERY@, "eni.private_ip AS private_ip"@),
        holds_phrase(crate::evaluate::rows::ENI_QUERY@, "rt.id AS route_table_id"@),
        holds_phrase(crate::evaluate::rows::ENI_QUERY@, "collect(DISTINCT sg.id) AS security_group_ids"@),
        holds_phrase(crate::evaluate::rows::ENI_QUERY@, "collect(DISTINCT egress) AS egress_rules"@),
        holds_phrase(crate::evaluate::rows::ENI_QUERY@, "collect(DISTINCT ingress) AS ingress_rules"@),
        holds_phrase(crate::evaluate::rows::ENI_QUERY@, "collect(DISTINCT nacl_rule) AS nacl_rules"@),
{
    let text = crate::evaluate::rows::ENI_QUERY@;
    reveal_strlit(
        "MATCH (eni:ENI)
OPTIONAL MATCH (eni)-[:IN_SUBNET]->(subnet:Subnet)
OPTIONAL MATCH (subnet)-[:USES_ROUTE_TABLE]->(rt:RouteTable)
OPTIONAL MATCH (subnet)-[:PROTECTED_BY]->(acl:NetworkACL)
OPTIONAL MATCH (acl)-[nacl_rule:HAS_RULE]->(acl)
OPTIONAL MATCH (eni)-[:HAS_SG]->(sg:SecurityGroup)
OPTIONAL MATCH (sg)-[egress:ALLOWS_EGRESS]->()
OPTIONAL MATCH (sg)-[ingress:ALLOWS_INGRESS]->()
RETURN
    eni.id AS eni_id,
    eni.vpc_id AS vpc_id,
    eni.subnet_id AS subnet_id,
    eni.private_ip AS private_ip,
    rt.id AS route_table_id,
    collect(DISTINCT sg.id) AS security_group_ids,
    collect(DISTINCT egress) AS egress_rules,
    collect(DISTINCT ingress) AS ingress_rules,
    collect(DISTINCT nacl_rule) AS nacl_rules",
    );
    reveal_strlit("OPTIONAL MATCH (eni)-[:IN_SUBNET]->(subnet:Subnet)");
    lemma_phrase_at(text, "OPTIONAL MATCH (eni)-[:IN_SUBNET]->(subnet:Subnet)"@, 16);
    reveal_strlit("OPTIONAL MATCH (subnet)-[:USES_ROUTE_TABLE]->(rt:RouteTable)");
    lemma_phrase_at(text, "OPTIONAL MATCH (subnet)-[:USES_ROUTE_TABLE]->(rt:RouteTable)"@, 67);
    reveal_strlit("OPTIONAL MATCH (subnet)-[:PROTECTED_BY]->(acl:NetworkACL)");
    lemma_phrase_at(text, "OPTIONAL MATCH (subnet)-[:PROTECTED_BY]->(acl:NetworkACL)"@, 128);
    reveal_strlit("OPTIONAL MATCH (acl)-[nacl_rule:HAS_RULE]->(acl)");
    lemma_phrase_at(text, "OPTIONAL MATCH (acl)-[nacl_rule:HAS_RULE]->(acl)"@, 186);
    reveal_strlit("OPTIONAL MATCH (eni)-[:HAS_SG]->(sg:SecurityGroup)");
    lemma_phrase_at(text, "OPTIONAL MATCH (eni)-[:HAS_SG]->(sg:SecurityGroup)"@, 235);
    reveal_strlit("OPTIONAL MATCH (sg)-[egress:ALLOWS_EGRESS]->()");
    lemma_phrase_at(text, "OPTIONAL MATCH (sg)-[egress:ALLOWS_EGRESS]->()"@, 286);
    reveal_strlit("OPTIONAL MATCH (sg)-[ingress:ALLOWS_INGRESS]->()");
    lemma_phrase_at(text, "OPTIONAL MATCH (sg)-[ingress:ALLOWS_INGRESS]->()"@, 333);
    reveal_strlit("eni.id AS eni_id");
    lemma_phrase_at(text, "eni.id AS eni_id"@, 393);
    reveal_strlit("eni.vpc_id AS vpc_id");
    lemma_phrase_at(text, "eni.vpc_id AS vpc_id"@, 415);
    reveal_strlit("eni.subnet_id AS subnet_id");
    lemma_phrase_at(text, "eni.subnet_id AS subnet_id"@, 441);
    reveal_strlit("eni.private_ip AS private_ip");
    lemma_phrase_at(text, "eni.private_ip AS private_ip"@, 473);
    reveal_strlit("rt.id AS route_table_id");
    lemma_phrase_at(text, "rt.id AS route_table_id"@, 507);
    reveal_strlit("collect(DISTINCT sg.id) AS security_group_ids");
    lemma_phrase_at(text, "collect(DISTINCT sg.id) AS security_group_ids"@, 536);
    reveal_strlit("collect(DISTINCT egress) AS egress_rules");
    lemma_phrase_at(text, "collect(DISTINCT egress) AS egress_rules"@, 587);
    reveal_strlit("collect(DISTINCT ingress) AS ingress_rules");
    lemma_phrase_at(text, "collect(DISTINCT ingress) AS ingress_rules"@, 633);
    reveal_strlit("collect(DISTINCT nacl_rule) AS nacl_rules");
    lemma_phrase_at(text, "collect(DISTINCT nacl_rule) AS nacl_rules"@, 681);
}

/// The query for route tables reads the VPCs that resolved routes lead to.
pub proof fn law_route_query()
    ensures
        holds_phrase(crate::evaluate::rows::ROUTE_TABLE_TARGETS_QUERY@, "MATCH (rt:RouteTable)-[edge:ROUTES_TO {resolved: true}]->(vpc:VPC)"@),
        holds_phrase(crate::evaluate::rows::ROUTE_TABLE_TARGETS_QUERY@, "rt.id AS route_table_id"@),
        holds_phrase(crate::evaluate::rows::ROUTE_TABLE_TARGETS_QUERY@, "collect(DISTINCT vpc.id) AS target_vpc_ids"@),
{
    let text = crate::evaluate::rows::ROUTE_TABLE_TARGETS_QUERY@;
    reveal_strlit(
        "MATCH (rt:RouteTable)-[edge:ROUTES_TO {resolved: true}]->(vpc:VPC)
RETURN rt.id AS route_table_id, collect(DISTINCT vpc.id) AS target_vpc_ids",
    );
    reveal_strlit("MATCH (rt:RouteTable)-[edge:ROUTES_TO {resolved: true}]->(vpc:VPC)");
    lemma_phrase_at(text, "MATCH (rt:RouteTable)-[edge:ROUTES_TO {resolved: true}]->(vpc:VPC)"@, 0);
    reveal_strlit("rt.id AS route_table_id");
    lemma_phrase_at(text, "rt.id AS route_table_id"@, 74);
    reveal_strlit("collect(DISTINCT vpc.id) AS target_vpc_ids");
    lemma_phrase_at(text, "collect(DISTINCT vpc.id) AS target_vpc_ids"@, 99);
}

/// The constraint makes each recorded version unique, and can be created again.
pub proof fn law_version_constraint_statement()
    ensures
        holds_phrase(crate::migrations::SCHEMA_MIGRATION_CONSTRAINT@, "IF NOT EXISTS"@),
        holds_phrase(crate::migrations::SCHEMA_MIGRATION_CONSTRAINT@, "FOR (n:SchemaMigration) REQUIRE n.version IS UNIQUE"@),
{
    let text = crate::migrations::SCHEMA_MIGRATION_CONSTRAINT@;
    reveal_strlit(
        "CREATE CONSTRAINT schema_migration_version_unique IF NOT EXISTS FOR (n:SchemaMigration) REQUIRE n.version IS UNIQUE",
    );
    reveal_strlit("IF NOT EXISTS");
    lemma_phrase_at(text, "IF NOT EXISTS"@, 50);
    reveal_strlit("FOR (n:SchemaMigration) REQUIRE n.version IS UNIQUE");
    lemma_phrase_at(text, "FOR (n:SchemaMigration) REQUIRE n.version IS UNIQUE"@, 64);
}

/// The recorded versions are read from the records, whatever their order.
pub proof fn law_recorded_versions_query()
    ensures
        holds_phrase(crate::migrations::READ_APPLIED_VERSIONS@, "MATCH (n:SchemaMigration)"@),
        holds_phrase(crate::migrations::READ_APPLIED_VERSIONS@, "RETURN n.version AS version"@),
{
    let text = crate::migrations::READ_APPLIED_VERSIONS@;
    reveal_strlit(
        "MATCH (n:SchemaMigration) RETURN n.version AS version",
    );
    reveal_strlit("MATCH (n:SchemaMigration)");
    lemma_phrase_at(text, "MATCH (n:SchemaMigration)"@, 0);
    reveal_strlit("RETURN n.version AS version");
    lemma_phrase_at(text, "RETURN n.version AS version"@, 26);
}

/// A version is recorded under the number that is bound, with the time.
pub proof fn law_record_statement()
    ensures
        holds_phrase(crate::migrations::RECORD_VERSION@, "MERGE (n:SchemaMigration {version: $version})"@),
        holds_phrase(crate::migrations::RECORD_VERSION@, "SET n.applied_at = datetime()"@),
{
    let text = crate::migrations::RECORD_VERSION@;
    reveal_strlit(
        "MERGE (n:SchemaMigration {version: $version}) SET n.applied_at = datetime()",
    );
    reveal_strlit("MERGE (n:SchemaMigration {version: $version})");
    lemma_phrase_at(text, "MERGE (n:SchemaMigration {version: $version})"@, 0);
    reveal_strlit("SET n.applied_at = datetime()");
    lemma_phrase_at(text, "SET n.applied_at = datetime()"@, 46);
}

} // verus!
