//! Security group and network ACL rule domain types.
//!
//! The field names of `SgRule` and `NaclRule` match the properties of the
//! `ALLOWS_EGRESS` / `ALLOWS_INGRESS` / `HAS_RULE` edges in the graph.
use vstd::prelude::*;
use vstd::string::*;

use crate::text::push_decimal;

verus! {

/// Errors returned when constructing a rule domain type from invalid input.
#[derive(Debug, Clone, PartialEq, Eq)]
#[non_exhaustive]
pub enum RuleError {
    /// `from_port` was greater than `to_port`.
    InvertedPortRange { from_port: u16, to_port: u16 },
}

impl RuleError {
    /// What `message` says of this error.
    pub open spec fn text(self) -> Seq<char> {
        match self {
            RuleError::InvertedPortRange { from_port, to_port } => {
                "invalid port range: from_port ("@ + crate::text::decimal(from_port as nat)
                    + ") is greater than to_port ("@ + crate::text::decimal(to_port as nat) + ")"@
            },
        }
    }

    /// The error as a sentence.
    pub fn message(&self) -> (message: String)
        ensures
            message@ == self.text(),
    {
        match self {
            RuleError::InvertedPortRange { from_port, to_port } => {
                let mut message = String::from_str("invalid port range: from_port (");
                push_decimal(&mut message, *from_port as u64);
                message.append(") is greater than to_port (");
                push_decimal(&mut message, *to_port as u64);
                message.append(")");
                message
            },
        }
    }
}

/// Traffic direction a rule applies to.
///
/// Not an edge property: for an `SgRule` it selects which edge type
/// (`ALLOWS_EGRESS` or `ALLOWS_INGRESS`) the rule is written as.
#[derive(Debug, Clone, Copy, PartialEq, Eq, Structural)]
pub enum Direction {
    Ingress,
    Egress,
}

impl DeepView for Direction {
    type V = Direction;

    open spec fn deep_view(&self) -> Direction {
        *self
    }
}

/// An inclusive port range, `from_port <= to_port`.
///
/// Absent entirely (`None` on the owning rule) where the protocol has no
/// port concept (e.g. `-1` for all protocols).
#[derive(Debug, Clone, Copy, PartialEq, Eq)]
pub struct PortRange {
    from_port: u16,
    to_port: u16,
}

impl DeepView for PortRange {
    type V = (u16, u16);

    /// The range's lower and upper bound.
    closed spec fn deep_view(&self) -> (u16, u16) {
        (self.from_port, self.to_port)
    }
}

impl PortRange {
    #[verifier::type_invariant]
    spec fn ordered(self) -> bool {
        self.from_port <= self.to_port
    }

    /// Builds a port range, rejecting `from_port > to_port`.
    pub fn new(from_port: u16, to_port: u16) -> (range: Result<Self, RuleError>)
        ensures
            range is Ok <==> from_port <= to_port,
            range matches Ok(built) ==> built.deep_view() == (from_port, to_port),
            range matches Err(error) ==> error == (RuleError::InvertedPortRange {
                from_port,
                to_port,
            }),
    {
        if from_port > to_port {
            return Err(RuleError::InvertedPortRange { from_port, to_port });
        }
        Ok(PortRange { from_port, to_port })
    }

    /// Lower bound of the range, inclusive.
    pub fn from_port(&self) -> (bound: u16)
        ensures
            bound == self.deep_view().0,
            bound <= self.deep_view().1,
    {
        proof {
            use_type_invariant(self);
        }
        self.from_port
    }

    /// Upper bound of the range, inclusive.
    pub fn to_port(&self) -> (bound: u16)
        ensures
            bound == self.deep_view().1,
            bound >= self.deep_view().0,
    {
        proof {
            use_type_invariant(self);
        }
        self.to_port
    }
}

/// The target of an `ALLOWS_EGRESS` / `ALLOWS_INGRESS` rule: either a CIDR
/// block or a security group reference, never both.
#[derive(Debug, PartialEq, Eq)]
pub enum RuleTarget {
    /// A CIDR block target, e.g. `0.0.0.0/0`.
    Cidr { cidr: String },
    /// A reference to another security group's id.
    SecurityGroupRef { security_group_id: String },
}

/// What a `RuleTarget` holds.
pub ghost enum RuleTargetView {
    Cidr { cidr: Seq<char> },
    SecurityGroupRef { security_group_id: Seq<char> },
}

impl DeepView for RuleTarget {
    type V = RuleTargetView;

    open spec fn deep_view(&self) -> RuleTargetView {
        match self {
            RuleTarget::Cidr { cidr } => RuleTargetView::Cidr { cidr: cidr@ },
            RuleTarget::SecurityGroupRef { security_group_id } => {
                RuleTargetView::SecurityGroupRef { security_group_id: security_group_id@ }
            },
        }
    }
}

impl Clone for RuleTarget {
    fn clone(&self) -> (copy: Self)
        ensures
            copy == *self,
    {
        match self {
            RuleTarget::Cidr { cidr } => RuleTarget::Cidr { cidr: cidr.clone() },
            RuleTarget::SecurityGroupRef { security_group_id } => {
                RuleTarget::SecurityGroupRef { security_group_id: security_group_id.clone() }
            },
        }
    }
}

/// A security group egress or ingress rule.
#[derive(Debug, PartialEq, Eq)]
pub struct SgRule {
    /// Whether this rule is an egress or ingress rule.
    pub direction: Direction,
    /// IANA protocol name or `-1` for all protocols, e.g. `tcp`, `udp`.
    pub protocol: String,
    /// Port range this rule applies to; `None` where the protocol has no
    /// ports (e.g. `-1`).
    pub port_range: Option<PortRange>,
    /// The rule's target: a CIDR or a security group reference.
    pub target: RuleTarget,
    /// `false` where `target` is a `SecurityGroupRef` that could not be
    /// dereferenced (e.g. a cross-account reference). An unresolved rule is
    /// indeterminate and must not be dropped.
    pub resolved: bool,
}

/// What an `SgRule` holds.
pub ghost struct SgRuleView {
    pub direction: Direction,
    pub protocol: Seq<char>,
    pub port_range: Option<(u16, u16)>,
    pub target: RuleTargetView,
    pub resolved: bool,
}

impl DeepView for SgRule {
    type V = SgRuleView;

    open spec fn deep_view(&self) -> SgRuleView {
        SgRuleView {
            direction: self.direction,
            protocol: self.protocol@,
            port_range: self.port_range.deep_view(),
            target: self.target.deep_view(),
            resolved: self.resolved,
        }
    }
}

impl Clone for SgRule {
    fn clone(&self) -> (copy: Self)
        ensures
            copy == *self,
    {
        SgRule {
            direction: self.direction,
            protocol: self.protocol.clone(),
            port_range: self.port_range,
            target: self.target.clone(),
            resolved: self.resolved,
        }
    }
}

/// Allow or deny action of a `NaclRule`. Never a `bool`: NACL evaluation
/// has exactly these two outcomes and no implicit third state.
#[derive(Debug, Clone, Copy, PartialEq, Eq, Structural)]
pub enum Action {
    Allow,
    Deny,
}

impl DeepView for Action {
    type V = Action;

    open spec fn deep_view(&self) -> Action {
        *self
    }
}

/// A single network ACL rule.
///
/// `rule_number` is the sole evaluation-order key: NACL semantics are
/// first-match by ascending `rule_number`, never by insertion order.
#[derive(Debug, PartialEq, Eq)]
pub struct NaclRule {
    /// Evaluation-order key.
    pub rule_number: u16,
    /// Whether this rule applies to ingress or egress traffic.
    pub direction: Direction,
    /// IANA protocol name or `-1` for all protocols.
    pub protocol: String,
    /// Port range this rule applies to; `None` where the protocol has no
    /// ports.
    pub port_range: Option<PortRange>,
    /// CIDR this rule matches against. NACL rules are always CIDR-based.
    pub cidr: String,
    /// Whether traffic matching this rule is allowed or denied.
    pub action: Action,
}

/// What a `NaclRule` holds.
pub ghost struct NaclRuleView {
    pub rule_number: u16,
    pub direction: Direction,
    pub protocol: Seq<char>,
    pub port_range: Option<(u16, u16)>,
    pub cidr: Seq<char>,
    pub action: Action,
}

impl DeepView for NaclRule {
    type V = NaclRuleView;

    open spec fn deep_view(&self) -> NaclRuleView {
        NaclRuleView {
            rule_number: self.rule_number,
            direction: self.direction,
            protocol: self.protocol@,
            port_range: self.port_range.deep_view(),
            cidr: self.cidr@,
            action: self.action,
        }
    }
}

impl Clone for NaclRule {
    fn clone(&self) -> (copy: Self)
        ensures
            copy == *self,
    {
        NaclRule {
            rule_number: self.rule_number,
            direction: self.direction,
            protocol: self.protocol.clone(),
            port_range: self.port_range,
            cidr: self.cidr.clone(),
            action: self.action,
        }
    }
}

} // verus!
