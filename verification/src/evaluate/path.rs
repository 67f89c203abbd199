//! Materialized path candidates and the evidence of judging one.
use vstd::prelude::*;

use crate::domain::rule::{NaclRule, SgRule};
use crate::evaluate::{Traffic, Verdict};

verus! {

/// One endpoint (source or destination) of a [`PathCandidate`].
#[derive(Debug, Clone, PartialEq, Eq)]
pub struct EndpointCandidate {
    /// Unique key of the `ENI` at this endpoint (e.g. `eni-0example`).
    pub eni_id: String,
    /// Security group ids this ENI is a member of, used to match security
    /// group reference rules.
    pub peer_security_group_ids: Vec<String>,
    /// Security group rules to intersect for this endpoint: egress rules
    /// where this is the source, ingress rules where it is the destination.
    pub security_group_rules: Vec<SgRule>,
    /// Unique key of the `Subnet` this ENI is in.
    pub subnet_id: String,
    /// Network ACL rules protecting this endpoint's subnet.
    pub nacl_rules: Vec<NaclRule>,
}

/// What an `EndpointCandidate` holds.
pub ghost struct EndpointCandidateView {
    pub eni_id: Seq<char>,
    pub peer_security_group_ids: Seq<Seq<char>>,
    pub security_group_rules: Seq<crate::domain::rule::SgRuleView>,
    pub subnet_id: Seq<char>,
    pub nacl_rules: Seq<crate::domain::rule::NaclRuleView>,
}

impl DeepView for EndpointCandidate {
    type V = EndpointCandidateView;

    open spec fn deep_view(&self) -> EndpointCandidateView {
        EndpointCandidateView {
            eni_id: self.eni_id@,
            peer_security_group_ids: self.peer_security_group_ids.deep_view(),
            security_group_rules: self.security_group_rules.deep_view(),
            subnet_id: self.subnet_id@,
            nacl_rules: self.nacl_rules.deep_view(),
        }
    }
}

/// A materialized reachability path candidate: plain data, with no handle on
/// the graph it was read from.
#[derive(Debug, Clone, PartialEq, Eq)]
pub struct PathCandidate {
    /// The traffic's source endpoint.
    pub source: EndpointCandidate,
    /// The traffic's destination endpoint.
    pub destination: EndpointCandidate,
    /// Whether a route exists from `source` to `destination`.
    pub route_exists: bool,
    /// The concrete traffic flow being evaluated across all four layers.
    pub traffic: Traffic,
    /// Id of the regulated boundary this candidate's destination is being
    /// judged against.
    pub destination_boundary: String,
}

/// What a `PathCandidate` holds.
pub ghost struct PathCandidateView {
    pub source: EndpointCandidateView,
    pub destination: EndpointCandidateView,
    pub route_exists: bool,
    pub traffic: Traffic,
    pub destination_boundary: Seq<char>,
}

impl DeepView for PathCandidate {
    type V = PathCandidateView;

    open spec fn deep_view(&self) -> PathCandidateView {
        PathCandidateView {
            source: self.source.deep_view(),
            destination: self.destination.deep_view(),
            route_exists: self.route_exists,
            traffic: self.traffic,
            destination_boundary: self.destination_boundary@,
        }
    }
}

/// One of the four rule layers a path is evaluated against, in the order in
/// which a full evaluation consults them.
#[derive(Debug, Clone, Copy, PartialEq, Eq, Structural)]
pub enum EvaluationLayer {
    /// The source's security group egress rules.
    SgEgress,
    /// The source's subnet's network ACL egress rules.
    NaclEgress,
    /// The destination's subnet's network ACL ingress rules.
    NaclIngress,
    /// The destination's security group ingress rules.
    SgIngress,
}

impl DeepView for EvaluationLayer {
    type V = EvaluationLayer;

    open spec fn deep_view(&self) -> EvaluationLayer {
        *self
    }
}

/// One layer's evaluation result.
#[derive(Debug, Clone, PartialEq, Eq)]
pub struct EvaluationStep {
    /// Which layer this step evaluated.
    pub layer: EvaluationLayer,
    /// The id of the resource evaluated against.
    pub resource_id: String,
    /// The verdict this layer reached, with the deciding rule.
    pub verdict: Verdict,
}

/// What an `EvaluationStep` holds.
pub ghost struct EvaluationStepView {
    pub layer: EvaluationLayer,
    pub resource_id: Seq<char>,
    pub verdict: crate::evaluate::VerdictView,
}

impl DeepView for EvaluationStep {
    type V = EvaluationStepView;

    open spec fn deep_view(&self) -> EvaluationStepView {
        EvaluationStepView {
            layer: self.layer,
            resource_id: self.resource_id@,
            verdict: self.verdict.deep_view(),
        }
    }
}

/// The evidence of judging a [`PathCandidate`]: one step per layer consulted,
/// in the order consulted. Evaluation stops at the first layer that does not
/// allow the traffic, so the last step is then the deciding one.
#[derive(Debug, Clone, PartialEq, Eq)]
pub struct PathEvidence {
    /// Steps taken, in evaluation order.
    pub steps: Vec<EvaluationStep>,
}

impl DeepView for PathEvidence {
    type V = Seq<EvaluationStepView>;

    open spec fn deep_view(&self) -> Seq<EvaluationStepView> {
        self.steps.deep_view()
    }
}

} // verus!
