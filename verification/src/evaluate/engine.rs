//! Four-layer intersection of security groups and network ACLs: the judgement
//! of one path candidate, with its evidence.
use vstd::prelude::*;

use crate::calendar::now_rfc3339;
use crate::domain::finding::{Reachability, ReachabilityFinding, Severity};
use crate::domain::rule::Direction;
use crate::error::EvaluationError;
use crate::evaluate::nacl::{evaluate_nacl_egress, evaluate_nacl_ingress};
use crate::evaluate::path::{EvaluationLayer, EvaluationStep, PathCandidate, PathEvidence};
use crate::evaluate::sg::{evaluate_sg_egress, evaluate_sg_ingress, PeerIdentity};
use crate::evaluate::Verdict;

verus! {

/// The layers in the order in which they are consulted.
pub open spec fn layer_order() -> Seq<EvaluationLayer> {
    seq![
        EvaluationLayer::SgEgress,
        EvaluationLayer::NaclEgress,
        EvaluationLayer::NaclIngress,
        EvaluationLayer::SgIngress,
    ]
}

/// The evaluation of one layer: the source's egress rules judge the traffic
/// leaving it, the destination's ingress rules the traffic reaching it. On the
/// security group layers the peer is the opposite endpoint.
pub open spec fn layer_step(
    candidate: crate::evaluate::path::PathCandidateView,
    layer: EvaluationLayer,
) -> crate::evaluate::path::EvaluationStepView {
    let source = candidate.source;
    let destination = candidate.destination;
    match layer {
        EvaluationLayer::SgEgress => crate::evaluate::path::EvaluationStepView {
            layer,
            resource_id: source.eni_id,
            verdict: crate::evaluate::sg::sg_verdict(
                source.eni_id,
                source.security_group_rules,
                Direction::Egress,
                candidate.traffic,
                destination.peer_security_group_ids,
            ),
        },
        EvaluationLayer::NaclEgress => crate::evaluate::path::EvaluationStepView {
            layer,
            resource_id: source.subnet_id,
            verdict: crate::evaluate::nacl::nacl_verdict(
                source.subnet_id,
                source.nacl_rules,
                Direction::Egress,
                candidate.traffic,
            ),
        },
        EvaluationLayer::NaclIngress => crate::evaluate::path::EvaluationStepView {
            layer,
            resource_id: destination.subnet_id,
            verdict: crate::evaluate::nacl::nacl_verdict(
                destination.subnet_id,
                destination.nacl_rules,
                Direction::Ingress,
                candidate.traffic,
            ),
        },
        EvaluationLayer::SgIngress => crate::evaluate::path::EvaluationStepView {
            layer,
            resource_id: destination.eni_id,
            verdict: crate::evaluate::sg::sg_verdict(
                destination.eni_id,
                destination.security_group_rules,
                Direction::Ingress,
                candidate.traffic,
                source.peer_security_group_ids,
            ),
        },
    }
}

/// The steps of an evaluation from the layer at `from` on: up to and with the
/// first layer that does not allow the traffic.
pub open spec fn steps_from(
    candidate: crate::evaluate::path::PathCandidateView,
    from: int,
) -> Seq<crate::evaluate::path::EvaluationStepView>
    decreases 4 - from,
{
    if from >= 4 {
        Seq::empty()
    } else {
        let step = layer_step(candidate, layer_order()[from]);
        if step.verdict is Allowed {
            seq![step] + steps_from(candidate, from + 1)
        } else {
            seq![step]
        }
    }
}

/// The layers of `steps` whose verdict is indeterminate, in order.
pub open spec fn indeterminate_layers(
    steps: Seq<crate::evaluate::path::EvaluationStepView>,
) -> Seq<EvaluationLayer>
    decreases steps.len(),
{
    if steps.len() == 0 {
        Seq::empty()
    } else {
        let before = indeterminate_layers(steps.drop_last());
        if steps.last().verdict is Indeterminate {
            before.push(steps.last().layer)
        } else {
            before
        }
    }
}

/// The outcome that a list of steps adds up to: a denial anywhere blocks the
/// path, whatever another layer could not decide; without one, an
/// indeterminate layer leaves the path indeterminate.
pub open spec fn combined(
    steps: Seq<crate::evaluate::path::EvaluationStepView>,
) -> crate::domain::finding::ReachabilityView {
    if exists|i: int| 0 <= i < steps.len() && (#[trigger] steps[i]).verdict is Denied {
        crate::domain::finding::ReachabilityView::NotReachable
    } else if indeterminate_layers(steps).len() == 0 {
        crate::domain::finding::ReachabilityView::Reachable
    } else {
        crate::domain::finding::ReachabilityView::Indeterminate {
            layers: indeterminate_layers(steps),
        }
    }
}

/// How severe an outcome is.
pub open spec fn severity_of(outcome: crate::domain::finding::ReachabilityView) -> Severity {
    match outcome {
        crate::domain::finding::ReachabilityView::Reachable => Severity::High,
        crate::domain::finding::ReachabilityView::Indeterminate { .. } => Severity::Medium,
        crate::domain::finding::ReachabilityView::NotReachable => Severity::Low,
    }
}

/// The evidence of judging `candidate`: none without a route.
pub open spec fn evidence(
    candidate: crate::evaluate::path::PathCandidateView,
) -> Seq<crate::evaluate::path::EvaluationStepView> {
    if candidate.route_exists {
        steps_from(candidate, 0)
    } else {
        Seq::empty()
    }
}

/// The outcome of judging `candidate`.
pub open spec fn outcome(
    candidate: crate::evaluate::path::PathCandidateView,
) -> crate::domain::finding::ReachabilityView {
    if candidate.route_exists {
        combined(steps_from(candidate, 0))
    } else {
        crate::domain::finding::ReachabilityView::NotReachable
    }
}

/// The finding for `candidate`, computed at the time that `computed_at`
/// writes.
pub open spec fn finding_for(
    candidate: crate::evaluate::path::PathCandidateView,
    computed_at: Seq<char>,
) -> crate::domain::finding::ReachabilityFindingView {
    crate::domain::finding::ReachabilityFindingView {
        computed_at,
        source: candidate.source.eni_id,
        destination_boundary: candidate.destination_boundary,
        steps: evidence(candidate),
        reachability: outcome(candidate),
        severity: severity_of(outcome(candidate)),
    }
}

/// Whether every layer allows the candidate's traffic.
pub open spec fn all_layers_allow(candidate: crate::evaluate::path::PathCandidateView) -> bool {
    forall|k: int|
        0 <= k < 4 ==> (#[trigger] layer_step(candidate, layer_order()[k])).verdict is Allowed
}

/// The shape of the evidence: the layers in their order from the first, all
/// but the last of them allowing, and a last one that allows only where it is
/// the fourth.
proof fn lemma_steps_shape(candidate: crate::evaluate::path::PathCandidateView, from: int)
    requires
        0 <= from <= 4,
    ensures
        ({
            let steps = steps_from(candidate, from);
            &&& steps.len() <= 4 - from
            &&& from < 4 ==> steps.len() > 0
            &&& forall|i: int|
                0 <= i < steps.len() ==> #[trigger] steps[i] == layer_step(
                    candidate,
                    layer_order()[from + i],
                )
            &&& forall|i: int|
                0 <= i < steps.len() - 1 ==> (#[trigger] steps[i]).verdict is Allowed
            &&& steps.len() > 0 && steps.last().verdict is Allowed ==> steps.len() == 4 - from
        }),
    decreases 4 - from,
{
    if from < 4 {
        lemma_steps_shape(candidate, from + 1);
        let steps = steps_from(candidate, from);
        let step = layer_step(candidate, layer_order()[from]);
        if step.verdict is Allowed {
            let rest = steps_from(candidate, from + 1);
            assert forall|i: int| 0 <= i < steps.len() implies #[trigger] steps[i] == layer_step(
                candidate,
                layer_order()[from + i],
            ) by {
                if i > 0 {
                    assert(steps[i] == rest[i - 1]);
                }
            }
            assert forall|i: int| 0 <= i < steps.len() - 1 implies (#[trigger] steps[i]).verdict
                is Allowed by {
                if i > 0 {
                    assert(steps[i] == rest[i - 1]);
                }
            }
        }
    }
}

proof fn lemma_no_indeterminate_layers(steps: Seq<crate::evaluate::path::EvaluationStepView>)
    requires
        forall|i: int| 0 <= i < steps.len() ==> !((#[trigger] steps[i]).verdict is Indeterminate),
    ensures
        indeterminate_layers(steps).len() == 0,
    decreases steps.len(),
{
    if steps.len() > 0 {
        assert forall|i: int| 0 <= i < steps.drop_last().len() implies !((
        #[trigger] steps.drop_last()[i]).verdict is Indeterminate) by {
            assert(steps.drop_last()[i] == steps[i]);
        }
        lemma_no_indeterminate_layers(steps.drop_last());
    }
}

/// Evidence steps follow the fixed order of the layers, start with the first
/// and leave none out; every step but the last allows the traffic.
pub proof fn law_evidence_follows_layer_order(
    candidate: crate::evaluate::path::PathCandidateView,
)
    requires
        candidate.route_exists,
    ensures
        1 <= evidence(candidate).len() <= 4,
        forall|i: int|
            0 <= i < evidence(candidate).len() ==> #[trigger] evidence(candidate)[i] == layer_step(
                candidate,
                layer_order()[i],
            ),
        forall|i: int|
            0 <= i < evidence(candidate).len() - 1 ==> (#[trigger] evidence(candidate)[i]).verdict
                is Allowed,
{
    lemma_steps_shape(candidate, 0);
}

/// A path is reachable exactly where a route exists and all four layers allow
/// its traffic, and the evidence then holds all four.
pub proof fn law_reachable_iff_all_layers_allow(
    candidate: crate::evaluate::path::PathCandidateView,
)
    ensures
        outcome(candidate) is Reachable <==> candidate.route_exists && all_layers_allow(candidate),
        outcome(candidate) is Reachable ==> evidence(candidate).len() == 4,
{
    if candidate.route_exists {
        lemma_steps_shape(candidate, 0);
        let steps = steps_from(candidate, 0);
        if all_layers_allow(candidate) {
            assert forall|i: int| 0 <= i < steps.len() implies (#[trigger] steps[i]).verdict
                is Allowed by {
                assert(steps[i] == layer_step(candidate, layer_order()[i]));
            }
            lemma_no_indeterminate_layers(steps);
        } else {
            let k = choose|k: int|
                0 <= k < 4 && !((#[trigger] layer_step(candidate, layer_order()[k])).verdict
                    is Allowed);
            if steps.last().verdict is Allowed {
                assert(steps[k] == layer_step(candidate, layer_order()[k]));
            }
            law_last_step_decides(candidate);
        }
        if outcome(candidate) is Reachable {
            law_last_step_decides(candidate);
        }
    }
}

/// With a route, the last step of the evidence decides: an allowing one makes
/// the path reachable, a denying one blocks it, and an indeterminate one
/// leaves it indeterminate in that layer alone.
pub proof fn law_last_step_decides(candidate: crate::evaluate::path::PathCandidateView)
    requires
        candidate.route_exists,
    ensures
        ({
            let last = evidence(candidate).last();
            &&& last.verdict is Allowed <==> outcome(candidate) is Reachable
            &&& last.verdict is Denied <==> outcome(candidate) is NotReachable
            &&& last.verdict is Indeterminate <==> outcome(candidate) is Indeterminate
            &&& last.verdict is Indeterminate ==> outcome(candidate)
                == (crate::domain::finding::ReachabilityView::Indeterminate {
                layers: seq![last.layer],
            })
        }),
{
    lemma_steps_shape(candidate, 0);
    let steps = steps_from(candidate, 0);
    let front = steps.drop_last();
    assert forall|i: int| 0 <= i < front.len() implies !((#[trigger] front[i]).verdict
        is Indeterminate) by {
        assert(front[i] == steps[i]);
    }
    lemma_no_indeterminate_layers(front);
    assert(indeterminate_layers(front) =~= Seq::empty());
    assert(steps[steps.len() - 1] == steps.last());
    if steps.last().verdict is Indeterminate {
        assert(indeterminate_layers(steps) =~= seq![steps.last().layer]);
    }
}

/// Without a route a path is not reachable, and there is no evidence.
pub proof fn law_no_route_is_not_reachable(candidate: crate::evaluate::path::PathCandidateView)
    requires
        !candidate.route_exists,
    ensures
        outcome(candidate) is NotReachable,
        evidence(candidate).len() == 0,
{
}

/// A denial in any step blocks the path, even beside indeterminate steps.
pub proof fn law_denied_beats_indeterminate(
    steps: Seq<crate::evaluate::path::EvaluationStepView>,
    i: int,
)
    requires
        0 <= i < steps.len(),
        steps[i].verdict is Denied,
    ensures
        combined(steps) is NotReachable,
{
}

/// An indeterminate step shows in the outcome, by the name of its layer, unless
/// another step is a denial: it is never taken for an allowance.
pub proof fn law_indeterminate_is_reported(
    steps: Seq<crate::evaluate::path::EvaluationStepView>,
    i: int,
)
    requires
        0 <= i < steps.len(),
        steps[i].verdict is Indeterminate,
        forall|j: int| 0 <= j < steps.len() ==> !((#[trigger] steps[j]).verdict is Denied),
    ensures
        combined(steps) matches crate::domain::finding::ReachabilityView::Indeterminate { layers }
            && layers.contains(steps[i].layer),
{
    lemma_indeterminate_layer_listed(steps, i);
}

proof fn lemma_indeterminate_layer_listed(
    steps: Seq<crate::evaluate::path::EvaluationStepView>,
    i: int,
)
    requires
        0 <= i < steps.len(),
        steps[i].verdict is Indeterminate,
    ensures
        indeterminate_layers(steps).contains(steps[i].layer),
    decreases steps.len(),
{
    let layers = indeterminate_layers(steps);
    if i == steps.len() - 1 {
        assert(layers[layers.len() - 1] == steps[i].layer);
    } else {
        let before = indeterminate_layers(steps.drop_last());
        lemma_indeterminate_layer_listed(steps.drop_last(), i);
        let k = choose|k: int| 0 <= k < before.len() && before[k] == steps[i].layer;
        assert(layers[k] == before[k]);
    }
}

/// Folds steps into one outcome.
pub fn combine_verdicts(steps: &[EvaluationStep]) -> (reachability: Reachability)
    ensures
        reachability.deep_view() == combined(steps.deep_view()),
{
    let ghost model = steps.deep_view();
    let mut layers: Vec<EvaluationLayer> = Vec::new();
    let mut i: usize = 0;
    assert(model.take(0) =~= Seq::empty());
    while i < steps.len()
        invariant
            0 <= i <= steps@.len(),
            model == steps.deep_view(),
            layers@ == indeterminate_layers(model.take(i as int)),
            forall|j: int| 0 <= j < i ==> !((#[trigger] model[j]).verdict is Denied),
        decreases steps@.len() - i,
    {
        assert(model[i as int] == steps@[i as int].deep_view());
        assert(model.take(i + 1).drop_last() =~= model.take(i as int));
        match &steps[i].verdict {
            Verdict::Denied { .. } => {
                assert(model[i as int].verdict is Denied);
                return Reachability::NotReachable;
            },
            Verdict::Indeterminate { .. } => {
                layers.push(steps[i].layer);
            },
            Verdict::Allowed { .. } => {},
        }
        i = i + 1;
    }
    assert(model.take(i as int) =~= model);
    if layers.len() == 0 {
        Reachability::Reachable
    } else {
        Reachability::Indeterminate { layers }
    }
}

/// Maps an outcome to its severity.
pub fn severity_for(reachability: &Reachability) -> (severity: Severity)
    ensures
        severity == severity_of(reachability.deep_view()),
{
    match reachability {
        Reachability::Reachable => Severity::High,
        Reachability::Indeterminate { .. } => Severity::Medium,
        Reachability::NotReachable => Severity::Low,
    }
}

fn finish_with(
    candidate: &PathCandidate,
    path_evidence: PathEvidence,
    reachability: Reachability,
    computed_at: String,
) -> (finding: ReachabilityFinding)
    ensures
        finding.deep_view() == (crate::domain::finding::ReachabilityFindingView {
            computed_at: computed_at@,
            source: candidate.source.eni_id@,
            destination_boundary: candidate.destination_boundary@,
            steps: path_evidence.deep_view(),
            reachability: reachability.deep_view(),
            severity: severity_of(reachability.deep_view()),
        }),
{
    let severity = severity_for(&reachability);
    ReachabilityFinding {
        computed_at,
        source: candidate.source.eni_id.clone(),
        destination_boundary: candidate.destination_boundary.clone(),
        path_evidence,
        reachability,
        severity,
    }
}

fn finish(candidate: &PathCandidate, steps: Vec<EvaluationStep>, computed_at: String) -> (finding:
    ReachabilityFinding)
    ensures
        finding.deep_view() == (crate::domain::finding::ReachabilityFindingView {
            computed_at: computed_at@,
            source: candidate.source.eni_id@,
            destination_boundary: candidate.destination_boundary@,
            steps: steps.deep_view(),
            reachability: combined(steps.deep_view()),
            severity: severity_of(combined(steps.deep_view())),
        }),
{
    let reachability = combine_verdicts(steps.as_slice());
    finish_with(candidate, PathEvidence { steps }, reachability, computed_at)
}

/// Adds one step to the evidence; whether its layer allows the traffic.
fn push_step(
    steps: &mut Vec<EvaluationStep>,
    layer: EvaluationLayer,
    resource_id: &String,
    verdict: Verdict,
) -> (allowed: bool)
    ensures
        final(steps).deep_view() == old(steps).deep_view().push(
            crate::evaluate::path::EvaluationStepView {
                layer,
                resource_id: resource_id@,
                verdict: verdict.deep_view(),
            },
        ),
        allowed == verdict.deep_view() is Allowed,
{
    let allowed = matches!(verdict, Verdict::Allowed { .. });
    let ghost before = steps.deep_view();
    steps.push(EvaluationStep { layer, resource_id: resource_id.clone(), verdict });
    assert(steps.deep_view() =~= before.push(steps@.last().deep_view()));
    allowed
}

/// Judges `candidate`, with `computed_at` as the time of the finding.
pub fn evaluate_candidate(candidate: &PathCandidate, computed_at: String) -> (finding:
    ReachabilityFinding)
    ensures
        finding.deep_view() == finding_for(candidate.deep_view(), computed_at@),
{
    let ghost model = candidate.deep_view();
    let mut steps: Vec<EvaluationStep> = Vec::new();
    assert(steps.deep_view() =~= Seq::empty());
    if !candidate.route_exists {
        return finish_with(
            candidate,
            PathEvidence { steps },
            Reachability::NotReachable,
            computed_at,
        );
    }
    proof {
        reveal_with_fuel(steps_from, 5);
    }
    let ghost first = layer_step(model, EvaluationLayer::SgEgress);
    let ghost second = layer_step(model, EvaluationLayer::NaclEgress);
    let ghost third = layer_step(model, EvaluationLayer::NaclIngress);
    let ghost fourth = layer_step(model, EvaluationLayer::SgIngress);

    let destination_peer = PeerIdentity {
        security_group_ids: candidate.destination.peer_security_group_ids.as_slice(),
    };
    let verdict = evaluate_sg_egress(
        candidate.source.eni_id.as_str(),
        candidate.source.security_group_rules.as_slice(),
        &candidate.traffic,
        &destination_peer,
    );
    if !push_step(&mut steps, EvaluationLayer::SgEgress, &candidate.source.eni_id, verdict) {
        assert(steps.deep_view() =~= seq![first]);
        return finish(candidate, steps, computed_at);
    }
    let verdict = evaluate_nacl_egress(
        candidate.source.subnet_id.as_str(),
        candidate.source.nacl_rules.as_slice(),
        &candidate.traffic,
    );
    if !push_step(&mut steps, EvaluationLayer::NaclEgress, &candidate.source.subnet_id, verdict) {
        assert(steps.deep_view() =~= steps_from(model, 0));
        return finish(candidate, steps, computed_at);
    }
    let verdict = evaluate_nacl_ingress(
        candidate.destination.subnet_id.as_str(),
        candidate.destination.nacl_rules.as_slice(),
        &candidate.traffic,
    );
    if !push_step(
        &mut steps,
        EvaluationLayer::NaclIngress,
        &candidate.destination.subnet_id,
        verdict,
    ) {
        assert(steps.deep_view() =~= steps_from(model, 0));
        return finish(candidate, steps, computed_at);
    }
    let source_peer = PeerIdentity {
        security_group_ids: candidate.source.peer_security_group_ids.as_slice(),
    };
    let verdict = evaluate_sg_ingress(
        candidate.destination.eni_id.as_str(),
        candidate.destination.security_group_rules.as_slice(),
        &candidate.traffic,
        &source_peer,
    );
    push_step(&mut steps, EvaluationLayer::SgIngress, &candidate.destination.eni_id, verdict);
    assert(steps.deep_view() =~= steps_from(model, 0));
    finish(candidate, steps, computed_at)
}

/// Intersects a path candidate's four rule layers into one finding.
pub struct RuleIntersectionEvaluator;

impl RuleIntersectionEvaluator {
    /// Judges `candidate` now.
    pub fn evaluate(&self, candidate: &PathCandidate) -> (finding: Result<
        ReachabilityFinding,
        EvaluationError,
    >)
        ensures
            finding is Ok,
            exists|seconds: u64|
                finding->Ok_0.deep_view() == finding_for(
                    candidate.deep_view(),
                    #[trigger] crate::calendar::timestamp(seconds as nat),
                ),
    {
        Ok(evaluate_candidate(candidate, now_rfc3339()))
    }
}

} // verus!
