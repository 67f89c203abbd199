//! Reachability findings: the outcome of judging one path, with its evidence.
use vstd::prelude::*;

use crate::evaluate::path::{EvaluationLayer, PathEvidence};

verus! {

/// Severity of a reachability finding, from the least to the most severe.
#[derive(Debug, Clone, Copy, PartialEq, Eq, PartialOrd, Ord, Structural)]
#[non_exhaustive]
pub enum Severity {
    Low,
    Medium,
    High,
    Critical,
}

impl DeepView for Severity {
    type V = Severity;

    open spec fn deep_view(&self) -> Severity {
        *self
    }
}

/// The reachability outcome of one path.
///
/// An indeterminate verdict on any layer shows here rather than collapsing
/// into `NotReachable`, except that a denial on another layer settles the
/// path whatever the indeterminate layer would have said.
#[derive(Debug, Clone, PartialEq, Eq)]
#[non_exhaustive]
pub enum Reachability {
    /// Every consulted layer allowed the traffic.
    Reachable,
    /// At least one layer denied the traffic, so that the evidence ends at
    /// the deciding step; or no route existed, and the evidence is empty.
    NotReachable,
    /// No layer denied the traffic, but at least one could not reach a
    /// definite verdict. Names those layers.
    Indeterminate { layers: Vec<EvaluationLayer> },
}

/// What a `Reachability` holds.
pub ghost enum ReachabilityView {
    Reachable,
    NotReachable,
    Indeterminate { layers: Seq<EvaluationLayer> },
}

impl DeepView for Reachability {
    type V = ReachabilityView;

    open spec fn deep_view(&self) -> ReachabilityView {
        match self {
            Reachability::Reachable => ReachabilityView::Reachable,
            Reachability::NotReachable => ReachabilityView::NotReachable,
            Reachability::Indeterminate { layers } => ReachabilityView::Indeterminate {
                layers: layers@,
            },
        }
    }
}

/// A computed reachability finding: a source was evaluated against a
/// regulated boundary, with the evidentiary path and its severity.
#[derive(Debug, Clone, PartialEq, Eq)]
pub struct ReachabilityFinding {
    /// UTC timestamp (RFC 3339) of when this finding was computed.
    pub computed_at: String,
    /// Unique key of the source node the reachability check started from.
    pub source: String,
    /// Id of the regulated boundary this finding correlates against.
    pub destination_boundary: String,
    /// Structured evidence of the path that produced this finding.
    pub path_evidence: PathEvidence,
    /// The reachability outcome this finding represents.
    pub reachability: Reachability,
    /// How severe this finding is.
    pub severity: Severity,
}

/// What a `ReachabilityFinding` holds.
pub ghost struct ReachabilityFindingView {
    pub computed_at: Seq<char>,
    pub source: Seq<char>,
    pub destination_boundary: Seq<char>,
    pub steps: Seq<crate::evaluate::path::EvaluationStepView>,
    pub reachability: ReachabilityView,
    pub severity: Severity,
}

impl DeepView for ReachabilityFinding {
    type V = ReachabilityFindingView;

    open spec fn deep_view(&self) -> ReachabilityFindingView {
        ReachabilityFindingView {
            computed_at: self.computed_at@,
            source: self.source@,
            destination_boundary: self.destination_boundary@,
            steps: self.path_evidence.deep_view(),
            reachability: self.reachability.deep_view(),
            severity: self.severity,
        }
    }
}

} // verus!
