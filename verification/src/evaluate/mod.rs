//! Evaluation of traffic against security groups and network ACLs: the types
//! that every layer shares, and what it means for a rule to match traffic.
use vstd::prelude::*;

use crate::domain::rule::PortRange;
use crate::error::EvaluationError;
use crate::net::IpAddr;
use crate::text::same_text;

pub mod candidates;
pub mod engine;
pub mod nacl;
pub mod path;
pub mod rows;
pub mod sg;

pub use crate::net::cidr_contains;
pub use candidates::{assemble_candidates, BoundarySelectors, EniNode};
pub use engine::RuleIntersectionEvaluator;
pub use path::{EndpointCandidate, EvaluationLayer, EvaluationStep, PathCandidate, PathEvidence};

verus! {

/// Protocol a [`Traffic`] value carries.
#[derive(Debug, Clone, Copy, PartialEq, Eq, Structural)]
#[non_exhaustive]
pub enum Protocol {
    Tcp,
    Udp,
    /// ICMP carries its type and code where the other protocols have ports.
    Icmp { icmp_type: u8, code: u8 },
    /// Every protocol, which AWS writes as `-1`.
    All,
}

impl Protocol {
    /// The protocol that an AWS protocol number stands for. ICMP has none: a
    /// bare number carries no type and code.
    pub open spec fn of_number(value: i32) -> Result<Protocol, EvaluationError> {
        if value == -1 {
            Ok(Protocol::All)
        } else if value == 6 {
            Ok(Protocol::Tcp)
        } else if value == 17 {
            Ok(Protocol::Udp)
        } else {
            Err(EvaluationError::UnsupportedProtocol { value })
        }
    }
}

impl TryFrom<i32> for Protocol {
    type Error = EvaluationError;

    fn try_from(value: i32) -> (protocol: Result<Self, EvaluationError>) {
        if value == -1 {
            Ok(Protocol::All)
        } else if value == 6 {
            Ok(Protocol::Tcp)
        } else if value == 17 {
            Ok(Protocol::Udp)
        } else {
            Err(EvaluationError::UnsupportedProtocol { value })
        }
    }
}

impl vstd::std_specs::convert::TryFromSpecImpl<i32> for Protocol {
    open spec fn obeys_try_from_spec() -> bool {
        true
    }

    open spec fn try_from_spec(value: i32) -> Result<Self, EvaluationError> {
        Protocol::of_number(value)
    }
}

/// One concrete traffic flow being evaluated against the rule layers.
#[derive(Debug, Clone, Copy, PartialEq, Eq, Structural)]
pub struct Traffic {
    /// Protocol of this traffic, with any protocol-specific payload.
    pub protocol: Protocol,
    /// The peer port this traffic uses; `None` where the protocol has no
    /// port concept.
    pub port: Option<u16>,
    /// The peer address this traffic is to or from.
    pub peer_address: IpAddr,
}

/// Identifies the rule that decided a verdict.
#[derive(Debug, Clone, PartialEq, Eq)]
#[non_exhaustive]
pub enum RuleRef {
    /// A security group rule, by its position among the rules that the
    /// evaluation was given.
    SecurityGroup { security_group_id: String, rule_index: usize },
    /// A network ACL rule, by its rule number.
    NetworkAcl { network_acl_id: String, rule_number: u16 },
}

/// What a `RuleRef` holds.
pub ghost enum RuleRefView {
    SecurityGroup { security_group_id: Seq<char>, rule_index: int },
    NetworkAcl { network_acl_id: Seq<char>, rule_number: u16 },
}

impl DeepView for RuleRef {
    type V = RuleRefView;

    open spec fn deep_view(&self) -> RuleRefView {
        match self {
            RuleRef::SecurityGroup { security_group_id, rule_index } => {
                RuleRefView::SecurityGroup {
                    security_group_id: security_group_id@,
                    rule_index: *rule_index as int,
                }
            },
            RuleRef::NetworkAcl { network_acl_id, rule_number } => {
                RuleRefView::NetworkAcl {
                    network_acl_id: network_acl_id@,
                    rule_number: *rule_number,
                }
            },
        }
    }
}

/// Why a layer denied traffic.
#[derive(Debug, Clone, PartialEq, Eq)]
#[non_exhaustive]
pub enum DenyReason {
    /// No rule matched.
    NoMatchingRule,
    /// An explicit deny rule matched. Only network ACLs have those.
    ExplicitDeny { matched_by: RuleRef },
}

/// What a `DenyReason` holds.
pub ghost enum DenyReasonView {
    NoMatchingRule,
    ExplicitDeny { matched_by: RuleRefView },
}

impl DeepView for DenyReason {
    type V = DenyReasonView;

    open spec fn deep_view(&self) -> DenyReasonView {
        match self {
            DenyReason::NoMatchingRule => DenyReasonView::NoMatchingRule,
            DenyReason::ExplicitDeny { matched_by } => DenyReasonView::ExplicitDeny {
                matched_by: matched_by.deep_view(),
            },
        }
    }
}

/// Why a layer could not reach a definite verdict.
#[derive(Debug, Clone, PartialEq, Eq)]
#[non_exhaustive]
pub enum IndeterminateReason {
    /// The rule that would decide this traffic references a security group
    /// that could not be resolved.
    UnresolvedReference { security_group_id: String },
}

/// What an `IndeterminateReason` holds.
pub ghost enum IndeterminateReasonView {
    UnresolvedReference { security_group_id: Seq<char> },
}

impl DeepView for IndeterminateReason {
    type V = IndeterminateReasonView;

    open spec fn deep_view(&self) -> IndeterminateReasonView {
        match self {
            IndeterminateReason::UnresolvedReference { security_group_id } => {
                IndeterminateReasonView::UnresolvedReference {
                    security_group_id: security_group_id@,
                }
            },
        }
    }
}

/// The three-state result every evaluation layer returns.
///
/// `Indeterminate` is not an error: collapsing it to `Denied` would report
/// "not reachable" for traffic that may well be reachable.
#[derive(Debug, Clone, PartialEq, Eq)]
#[non_exhaustive]
pub enum Verdict {
    Allowed { matched_by: RuleRef },
    Denied { reason: DenyReason },
    Indeterminate { reason: IndeterminateReason },
}

/// What a `Verdict` holds.
pub ghost enum VerdictView {
    Allowed { matched_by: RuleRefView },
    Denied { reason: DenyReasonView },
    Indeterminate { reason: IndeterminateReasonView },
}

impl DeepView for Verdict {
    type V = VerdictView;

    open spec fn deep_view(&self) -> VerdictView {
        match self {
            Verdict::Allowed { matched_by } => VerdictView::Allowed {
                matched_by: matched_by.deep_view(),
            },
            Verdict::Denied { reason } => VerdictView::Denied { reason: reason.deep_view() },
            Verdict::Indeterminate { reason } => VerdictView::Indeterminate {
                reason: reason.deep_view(),
            },
        }
    }
}

/// Whether a rule's protocol covers the traffic's: the rule names it, or names
/// every protocol by `-1`.
pub open spec fn protocol_covers(rule_protocol: Seq<char>, traffic_protocol: Protocol) -> bool {
    ||| rule_protocol == "-1"@
    ||| rule_protocol == "tcp"@ && traffic_protocol is Tcp
    ||| rule_protocol == "udp"@ && traffic_protocol is Udp
    ||| (rule_protocol == "icmp"@ || rule_protocol == "icmpv6"@) && traffic_protocol is Icmp
}

/// Whether a rule's port range admits the traffic's port. A rule without a
/// range admits every port; traffic without a port fits no range.
pub open spec fn port_fits(range: Option<(u16, u16)>, port: Option<u16>) -> bool {
    match (range, port) {
        (None, _) => true,
        (Some(bounds), Some(port)) => bounds.0 <= port <= bounds.1,
        (Some(_), None) => false,
    }
}

/// Whether a rule's protocol and ports cover the traffic. A rule for every
/// protocol has no ports to compare, whatever range it carries.
pub open spec fn traffic_covered(
    protocol: Seq<char>,
    range: Option<(u16, u16)>,
    traffic: Traffic,
) -> bool {
    protocol_covers(protocol, traffic.protocol) && (protocol == "-1"@ || port_fits(
        range,
        traffic.port,
    ))
}

/// Whether a rule's AWS protocol string (`"tcp"`, `"udp"`, `"icmp"`,
/// `"icmpv6"`, or `"-1"` for all protocols) matches concrete traffic.
pub fn rule_protocol_matches(rule_protocol: &str, traffic_protocol: Protocol) -> (matches: bool)
    ensures
        matches == protocol_covers(rule_protocol@, traffic_protocol),
{
    proof {
        reveal_strlit("-1");
        reveal_strlit("tcp");
        reveal_strlit("udp");
        reveal_strlit("icmp");
        reveal_strlit("icmpv6");
        assert("tcp"@[0] != "udp"@[0]);
        assert("tcp"@[0] != "icmp"@[0]);
        assert("udp"@[0] != "icmp"@[0]);
    }
    if same_text(rule_protocol, "-1") {
        true
    } else if same_text(rule_protocol, "tcp") {
        matches!(traffic_protocol, Protocol::Tcp)
    } else if same_text(rule_protocol, "udp") {
        matches!(traffic_protocol, Protocol::Udp)
    } else if same_text(rule_protocol, "icmp") || same_text(rule_protocol, "icmpv6") {
        matches!(traffic_protocol, Protocol::Icmp { .. })
    } else {
        false
    }
}

/// Whether `traffic_port` (if any) falls within `rule_port_range` (inclusive).
pub fn port_matches(rule_port_range: Option<PortRange>, traffic_port: Option<u16>) -> (matches:
    bool)
    ensures
        matches == port_fits(rule_port_range.deep_view(), traffic_port),
{
    match (rule_port_range, traffic_port) {
        (None, _) => true,
        (Some(range), Some(port)) => range.from_port() <= port && port <= range.to_port(),
        (Some(_), None) => false,
    }
}

/// Whether a rule's protocol and ports cover `traffic`.
pub(crate) fn rule_covers(protocol: &str, range: Option<PortRange>, traffic: &Traffic) -> (covers:
    bool)
    ensures
        covers == traffic_covered(protocol@, range.deep_view(), *traffic),
{
    rule_protocol_matches(protocol, traffic.protocol) && (same_text(protocol, "-1")
        || port_matches(range, traffic.port))
}

/// A rule for every protocol ignores port ranges.
pub proof fn law_all_protocols_ignore_ports(
    range: Option<(u16, u16)>,
    other_range: Option<(u16, u16)>,
    traffic: Traffic,
)
    ensures
        traffic_covered("-1"@, range, traffic),
        traffic_covered("-1"@, range, traffic) == traffic_covered("-1"@, other_range, traffic),
{
}

} // verus!
