//! The incident workflow: intake, triage, hypotheses, diagnosis,
//! mitigation planning, policy and approval, execution, verification and
//! closeout, with an audit entry for every step.

use vstd::prelude::*;
use crate::approval::{approval_view, rule_approves, ApprovalGate, ApprovalView, RuleBasedApprovalGate};
use crate::audit::{all_stamped, timeline_of, trail, AuditEntry, AuditLog};
use crate::domain::{
    ActionType, AgentState, Environment, Hypothesis, IncidentInput, IncidentReport, MitigationPlan, RiskLevel,
    ToolResponse, ToolStatus,
};
use crate::memory::{lookup, KnowledgeMemory, SessionMemory};
use crate::policy::{spec_evaluate, PolicyEngine};
use crate::text::{
    bool_text, contains, contains_ignore_case, fixed2, lower, occurs_at, push_bool, push_fixed2, texts,
};
use crate::tools::{
    evidence_view, mock_baseline, mock_diagnostic, mock_execution, mock_verification, response_view, views_of,
    EvidenceView, MockSreTools, ResponseView, SreTools,
};

verus! {

/// The finding line of one observation:
/// `source => detail = value (conf 0.92)`, with `n/a` for a missing value.
pub open spec fn finding_line(e: EvidenceView) -> Seq<char> {
    e.0 + " => "@ + e.1 + " = "@ + (match e.2 {
        Some(v) => v,
        None => "n/a"@,
    }) + " (conf "@ + fixed2(e.3) + ")"@
}

/// The finding lines of a sequence of responses, in order.
pub open spec fn findings_of(responses: Seq<ResponseView>) -> Seq<Seq<char>>
    decreases responses.len(),
{
    if responses.len() == 0 {
        Seq::<Seq<char>>::empty()
    } else {
        findings_of(responses.drop_last()) + responses.last().1.map_values(
            |e: EvidenceView| finding_line(e),
        )
    }
}


/// Appends the finding lines of one response.
pub fn append_findings(response: &ToolResponse, out: &mut Vec<String>)
    ensures
        texts(final(out)@) == texts(old(out)@) + findings_of(seq![response_view(*response)]),
{
    let ghost start = texts(out@);
    let ghost lines = response_view(*response).1.map_values(|e: EvidenceView| finding_line(e));
    let mut j: usize = 0;
    while j < response.evidence.len()
        invariant
            j <= response.evidence@.len(),
            lines == response_view(*response).1.map_values(|e: EvidenceView| finding_line(e)),
            texts(out@) == start + lines.subrange(0, j as int),
        decreases response.evidence@.len() - j,
    {
        let e = &response.evidence[j];
        let mut line = e.source.clone();
        line.append(" => ");
        line.append(e.detail.as_str());
        line.append(" = ");
        match &e.value {
            Some(v) => line.append(v.as_str()),
            None => line.append("n/a"),
        }
        line.append(" (conf ");
        push_fixed2(&mut line, e.confidence);
        line.append(")");
        proof {
            assert(response_view(*response).1[j as int] == evidence_view(response.evidence@[j as int]));
            assert(line@ == lines[j as int]);
        }
        let ghost before = out@;
        out.push(line);
        proof {
            assert(texts(out@) =~= texts(before).push(lines[j as int]));
            assert(texts(out@) =~= start + lines.subrange(0, j + 1));
        }
        j = j + 1;
    }
    proof {
        let one = seq![response_view(*response)];
        assert(one.drop_last() =~= Seq::<ResponseView>::empty());
        assert(findings_of(one.drop_last()) =~= Seq::<Seq<char>>::empty());
        assert(lines.subrange(0, j as int) =~= lines);
        assert(findings_of(one) =~= lines);
    }
}

/// The finding lines of all observations of all responses, in order.
pub fn extract_findings(responses: &[ToolResponse]) -> (r: Vec<String>)
    ensures
        texts(r@) == findings_of(views_of(responses@)),
{
    let mut r: Vec<String> = Vec::new();
    let ghost views = views_of(responses@);
    let mut i: usize = 0;
    while i < responses.len()
        invariant
            i <= responses@.len(),
            views == views_of(responses@),
            texts(r@) == findings_of(views.subrange(0, i as int)),
        decreases responses@.len() - i,
    {
        append_findings(&responses[i], &mut r);
        proof {
            let next = views.subrange(0, i + 1);
            assert(next.drop_last() =~= views.subrange(0, i as int));
            assert(next.last() == response_view(responses@[i as int]));
            let one = seq![response_view(responses@[i as int])];
            assert(one.drop_last() =~= Seq::<ResponseView>::empty());
            assert(findings_of(one.drop_last()) =~= Seq::<Seq<char>>::empty());
            assert(findings_of(one) =~= one.last().1.map_values(|e: EvidenceView| finding_line(e)));
        }
        i = i + 1;
    }
    assert(views.subrange(0, responses@.len() as int) =~= views);
    r
}


/// Title, rationale and confidence (in hundredths) of a hypothesis.
pub type HypothesisView = (Seq<char>, Seq<char>, nat);

pub open spec fn hypothesis_view(h: Hypothesis) -> HypothesisView {
    (h.title@, h.rationale@, h.confidence as nat)
}

pub open spec fn capacity_hypothesis() -> HypothesisView {
    ("capacity saturation"@, "latency pattern suggests compute or connection pool exhaustion"@, 78)
}

pub open spec fn deployment_hypothesis() -> HypothesisView {
    ("deployment regression"@, "errors aligned with rollout window"@, 74)
}

pub open spec fn dependency_hypothesis() -> HypothesisView {
    ("dependency degradation"@, "upstream dependency can amplify latency and errors"@, 66)
}

/// The hypothesis used when no candidate exists.
pub open spec fn fallback_hypothesis() -> HypothesisView {
    ("insufficient signal"@, "fallback hypothesis"@, 40)
}

/// Some finding mentions a deployment (case-insensitively).
pub open spec fn deploy_signal(findings: Seq<Seq<char>>) -> bool {
    exists|i: int| 0 <= i < findings.len() && contains(lower(findings[i]), "deployment"@)
}

/// The candidate root causes for an incident summarised as `summary`
/// with the findings gathered so far: capacity saturation when the summary
/// mentions latency, a deployment regression when it mentions errors or a
/// finding mentions a deployment, and always a dependency degradation.
pub open spec fn hypotheses_for(summary: Seq<char>, findings: Seq<Seq<char>>) -> Seq<HypothesisView> {
    let s = lower(summary);
    let first: Seq<HypothesisView> = if contains(s, "latency"@) {
        seq![capacity_hypothesis()]
    } else {
        Seq::<HypothesisView>::empty()
    };
    let second = if contains(s, "error"@) || deploy_signal(findings) {
        first.push(deployment_hypothesis())
    } else {
        first
    };
    second.push(dependency_hypothesis())
}

fn make_hypothesis(title: &str, rationale: &str, confidence: u32) -> (h: Hypothesis)
    ensures
        hypothesis_view(h) == (title@, rationale@, confidence as nat),
{
    Hypothesis { title: String::from_str(title), rationale: String::from_str(rationale), confidence }
}

fn any_mentions_deployment(findings: &Vec<String>) -> (r: bool)
    ensures
        r == deploy_signal(texts(findings@)),
        r <==> exists|i: int| 0 <= i < findings@.len() && contains(lower(#[trigger] findings@[i]@), "deployment"@),
{
    let mut i: usize = 0;
    while i < findings.len()
        invariant
            i <= findings@.len(),
            forall|j: int| 0 <= j < i ==> !contains(lower(#[trigger] findings@[j]@), "deployment"@),
        decreases findings@.len() - i,
    {
        if contains_ignore_case(findings[i].as_str(), "deployment") {
            assert(texts(findings@)[i as int] == findings@[i as int]@);
            return true;
        }
        i = i + 1;
    }
    assert forall|j: int| 0 <= j < texts(findings@).len() implies !contains(
        lower(texts(findings@)[j]),
        "deployment"@,
    ) by {
        assert(texts(findings@)[j] == findings@[j]@);
    }
    assert(!exists|i: int| 0 <= i < findings@.len() && contains(lower(#[trigger] findings@[i]@), "deployment"@));
    false
}

pub open spec fn hypotheses_view(hs: Seq<Hypothesis>) -> Seq<HypothesisView> {
    hs.map_values(|h: Hypothesis| hypothesis_view(h))
}

/// The candidate root causes for `incident` given the findings so far.
pub fn build_hypotheses(incident: &IncidentInput, findings: &Vec<String>) -> (r: Vec<Hypothesis>)
    ensures
        hypotheses_view(r@) == hypotheses_for(incident.summary@, texts(findings@)),
        forall|i: int|
            0 <= i < findings@.len() && contains(lower(#[trigger] findings@[i]@), "deployment"@) ==> exists|j: int|
                0 <= j < r@.len() && r@[j].title@ == "deployment regression"@ && r@[j].confidence == 74,
        forall|j: int|
            0 <= j < r@.len() && (#[trigger] r@[j]).title@ == "deployment regression"@ ==> contains(
                lower(incident.summary@),
                "error"@,
            ) || exists|i: int| 0 <= i < findings@.len() && contains(lower(#[trigger] findings@[i]@), "deployment"@),
        r@.len() > 0 && r@.last().title@ == "dependency degradation"@ && r@.last().confidence == 66,
        contains(lower(incident.summary@), "latency"@) <==> (r@[0].title@ == "capacity saturation"@),
        contains(lower(incident.summary@), "latency"@) ==> r@[0].confidence == 78,
{
    let summary = incident.summary.as_str();
    let has_latency = contains_ignore_case(summary, "latency");
    let has_errors = contains_ignore_case(summary, "error");
    let deploy = any_mentions_deployment(findings);
    let mut r: Vec<Hypothesis> = Vec::new();
    if has_latency {
        r.push(make_hypothesis(
            "capacity saturation",
            "latency pattern suggests compute or connection pool exhaustion",
            78,
        ));
    }
    if has_errors || deploy {
        r.push(make_hypothesis("deployment regression", "errors aligned with rollout window", 74));
    }
    r.push(make_hypothesis(
        "dependency degradation",
        "upstream dependency can amplify latency and errors",
        66,
    ));
    assert(hypotheses_view(r@) =~= hypotheses_for(incident.summary@, texts(findings@)));
    proof {
        reveal_strlit("deployment regression");
        reveal_strlit("dependency degradation");
        reveal_strlit("capacity saturation");
        assert("deployment regression"@[3] != "dependency degradation"@[3]);
        assert("deployment regression"@[0] != "capacity saturation"@[0]);
        assert("dependency degradation"@[0] != "capacity saturation"@[0]);
        if has_errors || deploy {
            let k: int = if has_latency { 1 } else { 0 };
            assert(r@[k].title@ == "deployment regression"@);
        }
        assert forall|j: int| 0 <= j < r@.len() && (#[trigger] r@[j]).title@ == "deployment regression"@ implies contains(
            lower(incident.summary@),
            "error"@,
        ) || exists|i: int| 0 <= i < findings@.len() && contains(lower(#[trigger] findings@[i]@), "deployment"@) by {
            if !(has_errors || deploy) {
                if has_latency && j == 0 {
                    assert(r@[0].title@ == "capacity saturation"@);
                } else {
                    assert(r@[j].title@ == "dependency degradation"@);
                }
                assert(false);
            }
        }
    }
    r
}

/// `b` is the position of the most confident hypothesis, the last one
/// among equally confident ones.
pub open spec fn is_best_index(hs: Seq<HypothesisView>, b: int) -> bool {
    &&& 0 <= b < hs.len()
    &&& forall|j: int| 0 <= j < hs.len() ==> #[trigger] hs[j].2 <= hs[b].2
    &&& forall|j: int| b < j < hs.len() ==> #[trigger] hs[j].2 < hs[b].2
}

/// `h` is the hypothesis the workflow pursues among `hs`.
pub open spec fn is_selected(hs: Seq<HypothesisView>, h: HypothesisView) -> bool {
    if hs.len() == 0 {
        h == fallback_hypothesis()
    } else {
        exists|b: int| is_best_index(hs, b) && h == hs[b]
    }
}

fn copy_hypothesis(h: &Hypothesis) -> (c: Hypothesis)
    ensures
        hypothesis_view(c) == hypothesis_view(*h),
{
    Hypothesis { title: h.title.clone(), rationale: h.rationale.clone(), confidence: h.confidence }
}

/// The most confident hypothesis (the last of equally confident ones), or
/// the fallback when there is none.
pub fn select_hypothesis(hypotheses: &Vec<Hypothesis>) -> (h: Hypothesis)
    ensures
        is_selected(hypotheses_view(hypotheses@), hypothesis_view(h)),
        hypotheses@.len() > 0 ==> exists|b: int|
            0 <= b < hypotheses@.len() && hypothesis_view(hypotheses@[b]) == hypothesis_view(h) && (forall|j: int|
                0 <= j < hypotheses@.len() ==> (#[trigger] hypotheses@[j]).confidence <= h.confidence) && (forall|
                j: int|
                b < j < hypotheses@.len() ==> (#[trigger] hypotheses@[j]).confidence < h.confidence),
        hypotheses@.len() == 0 ==> h.title@ == "insufficient signal"@ && h.confidence == 40,
{
    let ghost hs = hypotheses_view(hypotheses@);
    if hypotheses.len() == 0 {
        return make_hypothesis("insufficient signal", "fallback hypothesis", 40);
    }
    let mut best: usize = 0;
    let mut i: usize = 1;
    while i < hypotheses.len()
        invariant
            hs == hypotheses_view(hypotheses@),
            1 <= i <= hypotheses@.len(),
            best < i,
            forall|j: int| 0 <= j < i ==> #[trigger] hs[j].2 <= hs[best as int].2,
            forall|j: int| best < j < i ==> #[trigger] hs[j].2 < hs[best as int].2,
        decreases hypotheses@.len() - i,
    {
        if hypotheses[i].confidence >= hypotheses[best].confidence {
            best = i;
        }
        i = i + 1;
    }
    let h = copy_hypothesis(&hypotheses[best]);
    assert(is_best_index(hs, best as int));
    assert forall|j: int| 0 <= j < hypotheses@.len() implies (#[trigger] hypotheses@[j]).confidence <= h.confidence by {
        assert(hs[j].2 <= hs[best as int].2);
    }
    assert forall|j: int| best < j < hypotheses@.len() implies (#[trigger] hypotheses@[j]).confidence < h.confidence by {
        assert(hs[j].2 < hs[best as int].2);
    }
    h
}

/// The mitigation for a hypothesis titled `title` of an incident
/// summarised as `summary`.
pub open spec fn planned_action(summary: Seq<char>, title: Seq<char>) -> ActionType {
    let t = lower(title);
    let s = lower(summary);
    if contains(t, "capacity"@) || contains(s, "latency"@) {
        ActionType::ScaleService
    } else if contains(t, "deployment"@) || contains(s, "deploy"@) {
        ActionType::RollbackRelease
    } else if contains(s, "crash"@) {
        ActionType::RestartService
    } else {
        ActionType::FlipFeatureFlag
    }
}

/// The risk the workflow assigns to an action.
pub open spec fn action_risk(action: ActionType) -> RiskLevel {
    match action {
        ActionType::RestartService | ActionType::FlipFeatureFlag => RiskLevel::Low,
        ActionType::ScaleService | ActionType::RollbackRelease => RiskLevel::Medium,
    }
}

/// The rollback steps every plan carries.
pub open spec fn rollback_plan() -> Seq<Seq<char>> {
    seq![
        "capture pre-change SLI snapshot"@,
        "revert action if error rate worsens for 5 minutes"@,
        "page service owner if rollback fails"@,
    ]
}

/// Action, target, reason, risk, blast radius and rollback steps of a plan.
pub type PlanView = (ActionType, Seq<char>, Seq<char>, RiskLevel, Seq<char>, Seq<Seq<char>>);

pub open spec fn plan_view(p: MitigationPlan) -> PlanView {
    (p.action, p.target@, p.reason@, p.risk_level, p.blast_radius_estimate@, texts(p.rollback_steps@))
}

/// The plan for `incident` after pursuing hypothesis `h` with a diagnostic
/// of confidence `diagnostic_confidence` (in hundredths).
pub open spec fn planned_mitigation(incident: IncidentInput, h: HypothesisView, diagnostic_confidence: nat) -> PlanView {
    let action = planned_action(incident.summary@, h.0);
    (
        action,
        incident.service@,
        h.1 + "; diagnostic confidence "@ + fixed2(diagnostic_confidence),
        action_risk(action),
        "single service: "@ + incident.service@,
        rollback_plan(),
    )
}

/// The mitigation plan for `incident` under the selected hypothesis.
pub fn select_mitigation(incident: &IncidentInput, selected_hypothesis: &Hypothesis, diagnostic: &ToolResponse) -> (p: MitigationPlan)
    ensures
        plan_view(p) == planned_mitigation(
            *incident,
            hypothesis_view(*selected_hypothesis),
            diagnostic.confidence as nat,
        ),
        p.action == ActionType::RestartService ==> p.risk_level == RiskLevel::Low,
        p.action == ActionType::FlipFeatureFlag ==> p.risk_level == RiskLevel::Low,
        p.action == ActionType::ScaleService ==> p.risk_level == RiskLevel::Medium,
        p.action == ActionType::RollbackRelease ==> p.risk_level == RiskLevel::Medium,
        p.target@ == incident.service@,
        p.blast_radius_estimate@ == "single service: "@ + incident.service@,
        p.rollback_steps@.len() == 3,
        contains(lower(selected_hypothesis.title@), "capacity"@) || contains(lower(incident.summary@), "latency"@)
            ==> p.action == ActionType::ScaleService,
        !(contains(lower(selected_hypothesis.title@), "capacity"@) || contains(lower(incident.summary@), "latency"@))
            && (contains(lower(selected_hypothesis.title@), "deployment"@) || contains(
            lower(incident.summary@),
            "deploy"@,
        )) ==> p.action == ActionType::RollbackRelease,
        !(contains(lower(selected_hypothesis.title@), "capacity"@) || contains(lower(incident.summary@), "latency"@))
            && !(contains(lower(selected_hypothesis.title@), "deployment"@) || contains(
            lower(incident.summary@),
            "deploy"@,
        )) ==> p.action == (if contains(lower(incident.summary@), "crash"@) {
            ActionType::RestartService
        } else {
            ActionType::FlipFeatureFlag
        }),
{
    let title = selected_hypothesis.title.as_str();
    let summary = incident.summary.as_str();
    let action = if contains_ignore_case(title, "capacity") || contains_ignore_case(summary, "latency") {
        ActionType::ScaleService
    } else if contains_ignore_case(title, "deployment") || contains_ignore_case(summary, "deploy") {
        ActionType::RollbackRelease
    } else if contains_ignore_case(summary, "crash") {
        ActionType::RestartService
    } else {
        ActionType::FlipFeatureFlag
    };
    let risk_level = match action {
        ActionType::RestartService | ActionType::FlipFeatureFlag => RiskLevel::Low,
        ActionType::ScaleService => RiskLevel::Medium,
        ActionType::RollbackRelease => RiskLevel::Medium,
    };
    let mut reason = selected_hypothesis.rationale.clone();
    reason.append("; diagnostic confidence ");
    push_fixed2(&mut reason, diagnostic.confidence);
    let blast_radius_estimate = String::from_str("single service: ").concat(incident.service.as_str());
    let mut rollback_steps: Vec<String> = Vec::new();
    rollback_steps.push(String::from_str("capture pre-change SLI snapshot"));
    rollback_steps.push(String::from_str("revert action if error rate worsens for 5 minutes"));
    rollback_steps.push(String::from_str("page service owner if rollback fails"));
    assert(texts(rollback_steps@) =~= rollback_plan());
    MitigationPlan {
        action,
        target: incident.service.clone(),
        reason,
        risk_level,
        blast_radius_estimate,
        rollback_steps,
    }
}



/// Where a state stands in the workflow; a blocking entry ends a run,
/// so it ranks last.
#[verifier::opaque]
pub open spec fn stage(state: AgentState) -> int {
    match state {
        AgentState::Intake => 0,
        AgentState::Triage => 1,
        AgentState::Hypothesis => 2,
        AgentState::Diagnose => 3,
        AgentState::MitigationPlan => 4,
        AgentState::Approval => 5,
        AgentState::Execute => 6,
        AgentState::Verify => 7,
        AgentState::Closeout => 8,
        AgentState::Closed => 9,
        AgentState::Blocked => 10,
    }
}

/// One audit entry without its time: the state and the message.
pub type Entry = (AgentState, Seq<char>);

/// The entries of a trail never move backwards through the workflow.
pub open spec fn in_workflow_order(t: Seq<Entry>) -> bool {
    forall|i: int, j: int| 0 <= i <= j < t.len() ==> stage(#[trigger] t[i].0) <= stage(#[trigger] t[j].0)
}

/// No entry of the trail is a blocking one.
pub open spec fn no_blocked(t: Seq<Entry>) -> bool {
    forall|i: int| 0 <= i < t.len() ==> (#[trigger] t[i]).0 != AgentState::Blocked
}

/// A blocking entry is only the last one, and follows an approval entry.
pub open spec fn blocked_only_last(t: Seq<Entry>) -> bool {
    &&& forall|i: int| 0 <= i < t.len() - 1 ==> (#[trigger] t[i]).0 != AgentState::Blocked
    &&& (t.len() > 0 && t.last().0 == AgentState::Blocked ==> t.len() > 1 && t[t.len() - 2].0
        == AgentState::Approval)
}

/// No entry from position `k` on is an intake entry.
pub open spec fn no_intake_from(t: Seq<Entry>, k: int) -> bool {
    forall|i: int| k <= i < t.len() ==> (#[trigger] t[i]).0 != AgentState::Intake
}

/// The first audit message of a run.
pub open spec fn intake_text(incident: IncidentInput) -> Seq<char> {
    "incident "@ + incident.incident_id@ + " received for service "@ + incident.service@
}

/// The audit message citing a runbook.
pub open spec fn citation_text(runbook: Seq<char>) -> Seq<char> {
    "runbook attached as citation: "@ + runbook
}

pub open spec fn hypothesis_text(h: HypothesisView) -> Seq<char> {
    "selected hypothesis: "@ + h.0 + " ("@ + fixed2(h.2) + ")"@
}

pub open spec fn planned_text(plan: MitigationPlan) -> Seq<char> {
    "planned action: "@ + plan.action.spec_name() + " targeting "@ + plan.target@
}

pub open spec fn policy_text(d: (bool, bool, Seq<char>)) -> Seq<char> {
    "policy decision => allowed: "@ + bool_text(d.0) + ", requires approval: "@ + bool_text(d.1) + ", reason: "@
        + d.2
}

/// The audit message that reports an approval answer.
pub open spec fn approval_text(approved: bool, approver: Seq<char>, note: Seq<char>) -> Seq<char> {
    "approval result => approved: "@ + bool_text(approved) + ", by: "@ + approver + ", note: "@ + note
}

/// The closeout message for a verification that reported `status`.
pub open spec fn outcome_text(status: ToolStatus) -> Seq<char> {
    if status == ToolStatus::Success {
        "recovery checks healthy"@
    } else {
        "recovery uncertain"@
    }
}

/// The trail up to the start of triage.
#[verifier::opaque]
pub open spec fn opening_trail(incident: IncidentInput, runbook: Option<Seq<char>>) -> Seq<Entry> {
    let first = seq![(AgentState::Intake, intake_text(incident))];
    let cited = match runbook {
        Some(rb) => first.push((AgentState::Intake, citation_text(rb))),
        None => first,
    };
    cited.push((AgentState::Triage, "collecting baseline telemetry"@))
}

/// The trail up to the policy decision.
#[verifier::opaque]
pub open spec fn planning_trail(
    incident: IncidentInput,
    runbook: Option<Seq<char>>,
    h: HypothesisView,
    plan: MitigationPlan,
    d: (bool, bool, Seq<char>),
) -> Seq<Entry> {
    opening_trail(incident, runbook).push((AgentState::Hypothesis, "generating candidate root-cause hypotheses"@)).push(
        (AgentState::Hypothesis, hypothesis_text(h)),
    ).push((AgentState::Diagnose, "running focused diagnostic checks"@)).push(
        (AgentState::MitigationPlan, "building mitigation plan"@),
    ).push((AgentState::MitigationPlan, planned_text(plan))).push(
        (AgentState::Approval, "evaluating policy for proposed action"@),
    ).push((AgentState::Approval, policy_text(d)))
}

/// The trail up to the approval answer, where one is asked for.
#[verifier::opaque]
pub open spec fn approval_trail(
    incident: IncidentInput,
    runbook: Option<Seq<char>>,
    h: HypothesisView,
    plan: MitigationPlan,
    d: (bool, bool, Seq<char>),
    a: ApprovalView,
) -> Seq<Entry> {
    let p = planning_trail(incident, runbook, h, plan, d);
    if d.1 {
        p.push((AgentState::Approval, approval_text(a.0, a.1, a.2)))
    } else {
        p
    }
}

/// The whole trail of a run: `runbook` is the service's runbook, `h` the
/// pursued hypothesis, `plan` the plan, `d` the policy decision, `a` the
/// approval answer (when asked) and `status` the verification status (when
/// the plan went ahead).
#[verifier::opaque]
pub open spec fn run_trail(
    incident: IncidentInput,
    runbook: Option<Seq<char>>,
    h: HypothesisView,
    plan: MitigationPlan,
    d: (bool, bool, Seq<char>),
    a: ApprovalView,
    status: ToolStatus,
) -> Seq<Entry> {
    if !d.0 {
        planning_trail(incident, runbook, h, plan, d).push((AgentState::Blocked, "incident blocked by policy"@))
    } else if d.1 && !a.0 {
        approval_trail(incident, runbook, h, plan, d, a).push(
            (AgentState::Blocked, "incident blocked: approval denied"@),
        )
    } else {
        approval_trail(incident, runbook, h, plan, d, a).push((AgentState::Execute, "executing mitigation"@)).push(
            (AgentState::Verify, "verifying recovery signals"@),
        ).push((AgentState::Closeout, "preparing closeout summary"@)).push(
            (AgentState::Closeout, outcome_text(status)),
        ).push((AgentState::Closed, "incident workflow finished"@))
    }
}

/// The hypothesis the workflow pursues among `hs`.
pub open spec fn selected_of(hs: Seq<HypothesisView>) -> HypothesisView {
    choose|h: HypothesisView| is_selected(hs, h)
}

/// What the tools and the approver answered in one run: the baseline,
/// the diagnostic, the execution and verification reports, and the
/// approval answer (the last three matter only where they were asked for).
pub type RunAnswers = (Seq<ResponseView>, ResponseView, ResponseView, ResponseView, ApprovalView);

/// `report` is what a run for `incident` reports, with `tools` and
/// `approver` having given the answers `ans`: the baseline `ans.0`, the
/// diagnostic `ans.1` for the hypothesis pursued on the baseline's
/// findings, and, where they were asked, the execution and verification
/// reports `ans.2`, `ans.3` and the approval answer `ans.4`. The definition
/// is opaque to keep proofs that mention it small; `lemma_run_outcome`,
/// `lemma_simulated_run` and the laws below state its consequences.
#[verifier::opaque]
pub open spec fn run_reported<T: SreTools, A: ApprovalGate>(
    tools: T,
    approver: A,
    incident: IncidentInput,
    runbooks: Seq<(String, String)>,
    ans: RunAnswers,
    report: IncidentReport,
) -> bool {
    let b = ans.0;
    let g = ans.1;
    let x = ans.2;
    let v = ans.3;
    let a = ans.4;
    let h = selected_of(hypotheses_for(incident.summary@, findings_of(b)));
    &&& tools.baseline_answers(incident, b)
    &&& tools.diagnostic_answers(incident, h, g)
    &&& report.selected_mitigation matches Some(plan) && {
        let d = spec_evaluate(incident, plan);
        let proceeds = d.0 && (!d.1 || a.0);
        &&& plan_view(plan) == planned_mitigation(incident, h, g.2)
        &&& d.0 && d.1 ==> approver.answers(incident, plan, d.2, a)
        &&& proceeds ==> tools.execution_answers(incident, plan, x) && tools.verification_answers(incident, v)
        &&& report.final_state == (if proceeds {
            AgentState::Closed
        } else {
            AgentState::Blocked
        })
        &&& texts(report.findings@) == findings_of(
            b.push(g) + (if proceeds {
                seq![x, v]
            } else {
                Seq::<ResponseView>::empty()
            }),
        )
        &&& exists|log: Seq<AuditEntry>|
            #[trigger] timeline_of(report.timeline@, log) && all_stamped(log) && trail(log) == run_trail(
                incident,
                lookup(runbooks, incident.service@),
                h,
                plan,
                d,
                a,
                v.0,
            )
    }
}

/// What a run reports, whatever the tools and the approver answered: the
/// plan made for the hypothesis pursued on the baseline's findings; the
/// approver, when the policy asks for approval, asked with the policy's
/// reason; a closed state exactly when the plan may go ahead; and a
/// timeline that shows the run's trail.
pub proof fn lemma_run_outcome<T: SreTools, A: ApprovalGate>(
    tools: T,
    approver: A,
    incident: IncidentInput,
    runbooks: Seq<(String, String)>,
    ans: RunAnswers,
    report: IncidentReport,
)
    requires
        run_reported(tools, approver, incident, runbooks, ans, report),
    ensures
        report.selected_mitigation is Some,
        ({
            let p = report.selected_mitigation->0;
            let d = spec_evaluate(incident, p);
            let h = selected_of(hypotheses_for(incident.summary@, findings_of(ans.0)));
            let proceeds = d.0 && (!d.1 || ans.4.0);
            &&& plan_view(p) == planned_mitigation(incident, h, ans.1.2)
            &&& (d.0 && d.1 ==> approver.answers(incident, p, d.2, ans.4))
            &&& report.final_state == (if proceeds {
                AgentState::Closed
            } else {
                AgentState::Blocked
            })
            &&& exists|log: Seq<AuditEntry>|
                #[trigger] timeline_of(report.timeline@, log) && all_stamped(log) && trail(log) == run_trail(
                    incident,
                    lookup(runbooks, incident.service@),
                    h,
                    p,
                    d,
                    ans.4,
                    ans.3.0,
                )
        }),
{
    reveal(run_reported);
}

proof fn lemma_selected_unique(hs: Seq<HypothesisView>, h1: HypothesisView, h2: HypothesisView)
    requires
        is_selected(hs, h1),
        is_selected(hs, h2),
    ensures
        h1 == h2,
{
    if hs.len() > 0 {
        let b1 = choose|b: int| is_best_index(hs, b) && h1 == hs[b];
        let b2 = choose|b: int| is_best_index(hs, b) && h2 == hs[b];
        if b1 < b2 {
            assert(hs[b2].2 < hs[b1].2);
            assert(hs[b1].2 <= hs[b2].2);
        } else if b2 < b1 {
            assert(hs[b1].2 < hs[b2].2);
            assert(hs[b2].2 <= hs[b1].2);
        }
    }
}

/// The selected hypothesis is the one `selected_of` names.
proof fn lemma_selected_of(hs: Seq<HypothesisView>, h: HypothesisView)
    requires
        is_selected(hs, h),
    ensures
        selected_of(hs) == h,
{
    lemma_selected_unique(hs, selected_of(hs), h);
}

proof fn lemma_findings_concat(a: Seq<ResponseView>, b: Seq<ResponseView>)
    ensures
        findings_of(a + b) == findings_of(a) + findings_of(b),
    decreases b.len(),
{
    if b.len() == 0 {
        assert(a + b =~= a);
        assert(findings_of(a) + findings_of(b) =~= findings_of(a));
    } else {
        lemma_findings_concat(a, b.drop_last());
        assert((a + b).drop_last() =~= a + b.drop_last());
        assert((a + b).last() == b.last());
        assert(findings_of(a + b) =~= findings_of(a) + findings_of(b));
    }
}

/// The mitigation a run plans for an incident summarised as `summary`,
/// where `deployment_seen` tells whether a baseline finding mentioned a
/// deployment: scaling for latency; a rollback for errors, a seen
/// deployment or a mentioned deploy; a restart for a crash; otherwise a
/// feature-flag flip.
pub open spec fn expected_action(summary: Seq<char>, deployment_seen: bool) -> ActionType {
    let s = lower(summary);
    if contains(s, "latency"@) {
        ActionType::ScaleService
    } else if contains(s, "error"@) || deployment_seen || contains(s, "deploy"@) {
        ActionType::RollbackRelease
    } else if contains(s, "crash"@) {
        ActionType::RestartService
    } else {
        ActionType::FlipFeatureFlag
    }
}

proof fn lemma_absent_initial(s: Seq<char>, pat: Seq<char>)
    requires
        pat.len() > 0,
        forall|i: int| 0 <= i < s.len() ==> s[i] != pat[0],
    ensures
        !contains(s, pat),
{
    assert forall|i: int| !occurs_at(s, pat, i) by {
        if occurs_at(s, pat, i) {
            assert(s.subrange(i, i + pat.len())[0] == s[i]);
        }
    }
}

proof fn lemma_title_keywords()
    ensures
        !contains(lower(deployment_hypothesis().0), "capacity"@),
        contains(lower(deployment_hypothesis().0), "deployment"@),
        !contains(lower(dependency_hypothesis().0), "capacity"@),
        !contains(lower(dependency_hypothesis().0), "deployment"@),
{
    reveal_strlit("deployment regression");
    reveal_strlit("dependency degradation");
    reveal_strlit("capacity");
    reveal_strlit("deployment");
    let d = "deployment regression"@;
    let g = "dependency degradation"@;
    assert(lower(d) =~= d);
    assert(lower(g) =~= g);
    lemma_absent_initial(d, "capacity"@);
    assert forall|i: int| !occurs_at(g, "capacity"@, i) by {
        if occurs_at(g, "capacity"@, i) {
            let w = g.subrange(i, i + 8);
            assert(w[0] == 'c' && w[1] == 'a');
        }
    }
    assert(d.subrange(0, 10) =~= "deployment"@);
    assert(occurs_at(d, "deployment"@, 0));
    assert forall|i: int| !occurs_at(g, "deployment"@, i) by {
        if occurs_at(g, "deployment"@, i) {
            let w = g.subrange(i, i + 10);
            assert(w[0] == 'd' && w[1] == 'e' && w[2] == 'p');
            assert(w[3] == 'l');
        }
    }
}


/// Whatever the tools report, the planned mitigation follows the
/// incident summary and whether a baseline finding mentioned a deployment.
pub proof fn lemma_planned_action<T: SreTools, A: ApprovalGate>(
    tools: T,
    approver: A,
    incident: IncidentInput,
    runbooks: Seq<(String, String)>,
    ans: RunAnswers,
    report: IncidentReport,
)
    requires
        run_reported(tools, approver, incident, runbooks, ans, report),
    ensures
        report.selected_mitigation matches Some(p) && p.action == expected_action(
            incident.summary@,
            deploy_signal(findings_of(ans.0)),
        ),
{
    lemma_run_outcome(tools, approver, incident, runbooks, ans, report);
    let p = report.selected_mitigation->0;
    let s = lower(incident.summary@);
    let hs = hypotheses_for(incident.summary@, findings_of(ans.0));
    let h = selected_of(hs);
    let seen = deploy_signal(findings_of(ans.0));
    lemma_title_keywords();
    assert(hs.len() > 0);
    lemma_best_index_exists(hs);
    let b = choose|b: int| is_best_index(hs, b);
    assert(is_selected(hs, hs[b]));
    lemma_selected_of(hs, hs[b]);
    assert(p.action == planned_action(incident.summary@, h.0));
    if !contains(s, "latency"@) {
        if contains(s, "error"@) || seen {
            assert(hs =~= seq![deployment_hypothesis(), dependency_hypothesis()]);
            if b == 1 {
                assert(hs[0].2 <= hs[1].2);
            }
            assert(h == deployment_hypothesis());
        } else {
            assert(hs =~= seq![dependency_hypothesis()]);
            assert(h == dependency_hypothesis());
        }
    }
}

/// A non-empty list of hypotheses has a most confident one.
proof fn lemma_best_index_exists(hs: Seq<HypothesisView>)
    requires
        hs.len() > 0,
    ensures
        exists|b: int| is_best_index(hs, b),
    decreases hs.len(),
{
    if hs.len() == 1 {
        assert(is_best_index(hs, 0));
    } else {
        let init = hs.drop_last();
        lemma_best_index_exists(init);
        let b = choose|b: int| is_best_index(init, b);
        if hs.last().2 >= init[b].2 {
            assert forall|j: int| 0 <= j < hs.len() implies #[trigger] hs[j].2 <= hs[hs.len() - 1].2 by {
                if j < hs.len() - 1 {
                    assert(hs[j] == init[j]);
                    assert(init[j].2 <= init[b].2);
                }
            }
            assert(is_best_index(hs, hs.len() - 1));
        } else {
            assert forall|j: int| 0 <= j < hs.len() implies #[trigger] hs[j].2 <= hs[b].2 by {
                if j < hs.len() - 1 {
                    assert(hs[j] == init[j]);
                }
            }
            assert forall|j: int| b < j < hs.len() implies #[trigger] hs[j].2 < hs[b].2 by {
                if j < hs.len() - 1 {
                    assert(hs[j] == init[j]);
                }
            }
            assert(is_best_index(hs, b));
        }
    }
}

/// The risk of a planned mitigation follows its action alone: restarts
/// and feature-flag flips are low-risk, scaling and rollbacks medium-risk.
pub proof fn lemma_plan_risk_by_action(incident: IncidentInput, h: HypothesisView, diagnostic_confidence: nat)
    ensures
        ({
            let p = planned_mitigation(incident, h, diagnostic_confidence);
            &&& (p.0 == ActionType::RestartService || p.0 == ActionType::FlipFeatureFlag) ==> p.3 == RiskLevel::Low
            &&& (p.0 == ActionType::ScaleService || p.0 == ActionType::RollbackRelease) ==> p.3
                == RiskLevel::Medium
        }),
{
}

/// Whenever some finding, at any position, mentions a deployment
/// (case-insensitively), the deployment-regression hypothesis (confidence
/// 0.74) is among the candidates.
pub proof fn lemma_deployment_finding_gives_hypothesis(summary: Seq<char>, findings: Seq<Seq<char>>, i: int)
    requires
        0 <= i < findings.len(),
        contains(lower(findings[i]), "deployment"@),
    ensures
        exists|j: int|
            0 <= j < hypotheses_for(summary, findings).len() && (#[trigger] hypotheses_for(summary, findings)[j]).0
                == "deployment regression"@ && hypotheses_for(summary, findings)[j].2 == 74,
{
    let hs = hypotheses_for(summary, findings);
    let k: int = if contains(lower(summary), "latency"@) { 1 } else { 0 };
    assert(deploy_signal(findings));
    assert(hs[k] == deployment_hypothesis());
}

/// The deployment-regression hypothesis is a candidate only when the
/// summary mentions errors or some finding mentions a deployment.
pub proof fn lemma_deployment_hypothesis_needs_signal(summary: Seq<char>, findings: Seq<Seq<char>>, j: int)
    requires
        0 <= j < hypotheses_for(summary, findings).len(),
        hypotheses_for(summary, findings)[j].0 == "deployment regression"@,
    ensures
        contains(lower(summary), "error"@) || exists|i: int|
            0 <= i < findings.len() && contains(lower(#[trigger] findings[i]), "deployment"@),
{
    reveal_strlit("deployment regression");
    reveal_strlit("dependency degradation");
    reveal_strlit("capacity saturation");
    assert("deployment regression"@[3] != "dependency degradation"@[3]);
    assert("deployment regression"@[0] != "capacity saturation"@[0]);
    let hs = hypotheses_for(summary, findings);
    if !(contains(lower(summary), "error"@) || deploy_signal(findings)) {
        if contains(lower(summary), "latency"@) && j == 0 {
            assert(hs[0].0 == "capacity saturation"@);
        } else {
            assert(hs[j].0 == "dependency degradation"@);
        }
    }
}

/// In production, with the rule-based approver, a run whose summary
/// mentions errors or a deploy and not latency plans a rollback, which is
/// medium-risk, so it is never closed: whatever the tools report, the run
/// ends blocked.
pub proof fn lemma_prod_error_incident_is_blocked<T: SreTools>(
    tools: T,
    incident: IncidentInput,
    runbooks: Seq<(String, String)>,
    ans: RunAnswers,
    report: IncidentReport,
)
    requires
        run_reported(tools, RuleBasedApprovalGate, incident, runbooks, ans, report),
        incident.environment == Environment::Prod,
        !contains(lower(incident.summary@), "latency"@),
        contains(lower(incident.summary@), "error"@) || contains(lower(incident.summary@), "deploy"@),
    ensures
        report.final_state == AgentState::Blocked,
{
    lemma_run_outcome(tools, RuleBasedApprovalGate, incident, runbooks, ans, report);
    lemma_planned_action(tools, RuleBasedApprovalGate, incident, runbooks, ans, report);
    let p = report.selected_mitigation->0;
    assert(p.action == ActionType::RollbackRelease);
    assert(p.risk_level == RiskLevel::Medium);
}

/// An incident whose summary mentions latency is always mitigated by
/// scaling the service, a medium-risk action.
pub proof fn lemma_latency_is_scaled<T: SreTools, A: ApprovalGate>(
    tools: T,
    approver: A,
    incident: IncidentInput,
    runbooks: Seq<(String, String)>,
    ans: RunAnswers,
    report: IncidentReport,
)
    requires
        run_reported(tools, approver, incident, runbooks, ans, report),
        contains(lower(incident.summary@), "latency"@),
    ensures
        report.selected_mitigation matches Some(p) && p.action == ActionType::ScaleService
            && p.risk_level == RiskLevel::Medium,
{
    lemma_run_outcome(tools, approver, incident, runbooks, ans, report);
    lemma_planned_action(tools, approver, incident, runbooks, ans, report);
}

/// With the simulated toolset and the rule-based approver, the incident
/// alone decides the run. The run is closed exactly when the policy
/// allows the plan and, where approval is needed, the approver approves.
/// The findings are those of the simulated baseline and of the diagnostic
/// of the pursued hypothesis, then, for a closed run, those of the
/// simulated execution and verification.
pub proof fn lemma_simulated_run(
    incident: IncidentInput,
    runbooks: Seq<(String, String)>,
    ans: RunAnswers,
    report: IncidentReport,
)
    requires
        run_reported(MockSreTools, RuleBasedApprovalGate, incident, runbooks, ans, report),
    ensures
        report.selected_mitigation matches Some(p) && {
            let s = incident.summary@;
            let d = spec_evaluate(incident, p);
            let h = selected_of(hypotheses_for(s, findings_of(seq![mock_baseline(s)])));
            let proceeds = d.0 && (!d.1 || rule_approves(incident.environment, p.risk_level));
            &&& report.final_state == (if proceeds {
                AgentState::Closed
            } else {
                AgentState::Blocked
            })
            &&& texts(report.findings@) == findings_of(
                seq![mock_baseline(s), mock_diagnostic(s, h.0)] + (if proceeds {
                    seq![mock_execution(p.action), mock_verification()]
                } else {
                    Seq::<ResponseView>::empty()
                }),
            )
        },
{
    reveal(run_reported);
    let s = incident.summary@;
    assert(ans.0 == seq![mock_baseline(s)]);
    assert(ans.0.push(ans.1) =~= seq![mock_baseline(s), ans.1]);
}

proof fn lemma_order_push(t: Seq<Entry>, e: Entry)
    requires
        in_workflow_order(t),
        t.len() > 0 ==> stage(t.last().0) <= stage(e.0),
    ensures
        in_workflow_order(t.push(e)),
{
    let u = t.push(e);
    assert forall|i: int, j: int| 0 <= i <= j < u.len() implies stage(#[trigger] u[i].0) <= stage(
        #[trigger] u[j].0,
    ) by {
        if j == u.len() - 1 {
            if i < j {
                assert(u[i] == t[i]);
                assert(stage(t[i].0) <= stage(t[t.len() - 1].0));
            }
        } else {
            assert(u[i] == t[i] && u[j] == t[j]);
        }
    }
}

proof fn lemma_no_intake_push(t: Seq<Entry>, e: Entry, k: int)
    requires
        no_intake_from(t, k),
        e.0 != AgentState::Intake,
        0 <= k <= t.len(),
    ensures
        no_intake_from(t.push(e), k),
{
    let u = t.push(e);
    assert forall|i: int| k <= i < u.len() implies (#[trigger] u[i]).0 != AgentState::Intake by {
        if i < t.len() {
            assert(u[i] == t[i]);
        }
    }
}

proof fn lemma_push_keeps_shape(t: Seq<Entry>, e: Entry, k: int)
    requires
        in_workflow_order(t),
        no_blocked(t),
        t.len() > 0 ==> stage(t.last().0) <= stage(e.0),
        e.0 != AgentState::Blocked,
        e.0 != AgentState::Intake,
        no_intake_from(t, k),
        0 <= k <= t.len(),
    ensures
        in_workflow_order(t.push(e)),
        no_blocked(t.push(e)),
        no_intake_from(t.push(e), k),
        t.push(e).last() == e,
{
    lemma_order_push(t, e);
    lemma_no_intake_push(t, e, k);
    let u = t.push(e);
    assert forall|i: int| 0 <= i < u.len() implies (#[trigger] u[i]).0 != AgentState::Blocked by {
        if i < t.len() {
            assert(u[i] == t[i]);
        }
    }
}

proof fn lemma_block_keeps_shape(t: Seq<Entry>, e: Entry, k: int)
    requires
        in_workflow_order(t),
        no_blocked(t),
        t.len() > 0,
        t.last().0 == AgentState::Approval,
        e.0 == AgentState::Blocked,
        no_intake_from(t, k),
        0 <= k <= t.len(),
    ensures
        in_workflow_order(t.push(e)),
        blocked_only_last(t.push(e)),
        no_intake_from(t.push(e), k),
{
    assert(stage(t.last().0) <= stage(e.0)) by {
        reveal(stage);
    }
    lemma_order_push(t, e);
    lemma_no_intake_push(t, e, k);
    let u = t.push(e);
    assert forall|i: int| 0 <= i < u.len() - 1 implies (#[trigger] u[i]).0 != AgentState::Blocked by {
        assert(u[i] == t[i]);
    }
    assert(u[u.len() - 2] == t[t.len() - 1]);
}

/// The trail up to the policy decision starts with the intake entry and
/// the citation, if any, moves forward and ends in an approval entry.
proof fn lemma_planning_shape(
    incident: IncidentInput,
    runbook: Option<Seq<char>>,
    h: HypothesisView,
    plan: MitigationPlan,
    d: (bool, bool, Seq<char>),
)
    ensures
        ({
            let p = planning_trail(incident, runbook, h, plan, d);
            let k: int = if runbook is Some { 2 } else { 1 };
            &&& p.len() >= k + 8
            &&& p[0] == (AgentState::Intake, intake_text(incident))
            &&& (runbook matches Some(rb) ==> p[1] == (AgentState::Intake, citation_text(rb)))
            &&& no_intake_from(p, k)
            &&& in_workflow_order(p)
            &&& no_blocked(p)
            &&& p.last().0 == AgentState::Approval
        }),
{
    reveal(opening_trail);
    reveal(planning_trail);
    reveal(stage);
    let k: int = if runbook is Some { 2 } else { 1 };
    let first = seq![(AgentState::Intake, intake_text(incident))];
    let cited = match runbook {
        Some(rb) => first.push((AgentState::Intake, citation_text(rb))),
        None => first,
    };
    assert(in_workflow_order(cited));
    assert(no_blocked(cited));
    assert(no_intake_from(cited, k));
    let e1 = (AgentState::Triage, "collecting baseline telemetry"@);
    lemma_push_keeps_shape(cited, e1, k);
    let o = cited.push(e1);
    let e2 = (AgentState::Hypothesis, "generating candidate root-cause hypotheses"@);
    lemma_push_keeps_shape(o, e2, k);
    let o2 = o.push(e2);
    let e3 = (AgentState::Hypothesis, hypothesis_text(h));
    lemma_push_keeps_shape(o2, e3, k);
    let o3 = o2.push(e3);
    let e4 = (AgentState::Diagnose, "running focused diagnostic checks"@);
    lemma_push_keeps_shape(o3, e4, k);
    let o4 = o3.push(e4);
    let e5 = (AgentState::MitigationPlan, "building mitigation plan"@);
    lemma_push_keeps_shape(o4, e5, k);
    let o5 = o4.push(e5);
    let e6 = (AgentState::MitigationPlan, planned_text(plan));
    lemma_push_keeps_shape(o5, e6, k);
    let o6 = o5.push(e6);
    let e7 = (AgentState::Approval, "evaluating policy for proposed action"@);
    lemma_push_keeps_shape(o6, e7, k);
    let o7 = o6.push(e7);
    let e8 = (AgentState::Approval, policy_text(d));
    lemma_push_keeps_shape(o7, e8, k);
    let p = o7.push(e8);
    assert(p == planning_trail(incident, runbook, h, plan, d));
    assert(p[0] == cited[0]);
    if runbook is Some {
        assert(p[1] == cited[1]);
    }
}

/// The entries that close a run whose plan went ahead.
pub open spec fn closing_entries(status: ToolStatus) -> Seq<Entry> {
    seq![
        (AgentState::Execute, "executing mitigation"@),
        (AgentState::Verify, "verifying recovery signals"@),
        (AgentState::Closeout, "preparing closeout summary"@),
        (AgentState::Closeout, outcome_text(status)),
        (AgentState::Closed, "incident workflow finished"@),
    ]
}

proof fn lemma_closing_shape(q: Seq<Entry>, status: ToolStatus, k: int)
    requires
        in_workflow_order(q),
        no_blocked(q),
        q.len() > 0,
        stage(q.last().0) <= stage(AgentState::Execute),
        no_intake_from(q, k),
        0 <= k <= q.len(),
    ensures
        ({
            let t = q + closing_entries(status);
            &&& in_workflow_order(t)
            &&& blocked_only_last(t)
            &&& no_intake_from(t, k)
            &&& t.last().0 == AgentState::Closed
            &&& t[t.len() - 5].0 == AgentState::Execute
            &&& t[t.len() - 4].0 == AgentState::Verify
            &&& forall|i: int| 0 <= i < q.len() ==> t[i] == q[i]
        }),
{
    let c = closing_entries(status);
    reveal(stage);
    let q1 = q.push(c[0]);
    lemma_push_keeps_shape(q, c[0], k);
    let q2 = q1.push(c[1]);
    lemma_push_keeps_shape(q1, c[1], k);
    let q3 = q2.push(c[2]);
    lemma_push_keeps_shape(q2, c[2], k);
    let q4 = q3.push(c[3]);
    lemma_push_keeps_shape(q3, c[3], k);
    let q5 = q4.push(c[4]);
    lemma_push_keeps_shape(q4, c[4], k);
    assert(q + c =~= q5);
    assert forall|i: int| 0 <= i < q5.len() - 1 implies (#[trigger] q5[i]).0 != AgentState::Blocked by {}
}

/// The shape of every run's audit trail: it starts with the intake entry;
/// the only intake entries are that one and, exactly when the service has
/// a runbook, the citation of that runbook right after it; the entries
/// move forward through the workflow; a blocking entry can only be the
/// last one and follows an approval entry; the trail of a closed run has
/// execution and verification entries, that of a blocked run no execution
/// entry; where approval was asked for, the answer is recorded.
pub proof fn lemma_run_trail_shape(
    incident: IncidentInput,
    runbook: Option<Seq<char>>,
    h: HypothesisView,
    plan: MitigationPlan,
    d: (bool, bool, Seq<char>),
    a: ApprovalView,
    status: ToolStatus,
)
    ensures
        ({
            let t = run_trail(incident, runbook, h, plan, d, a, status);
            let k: int = if runbook is Some { 2 } else { 1 };
            &&& t[0] == (AgentState::Intake, intake_text(incident))
            &&& (runbook matches Some(rb) ==> t[1] == (AgentState::Intake, citation_text(rb)))
            &&& no_intake_from(t, k)
            &&& in_workflow_order(t)
            &&& blocked_only_last(t)
            &&& (t.last().0 == AgentState::Closed || t.last().0 == AgentState::Blocked)
            &&& (t.last().0 == AgentState::Closed <==> d.0 && (!d.1 || a.0))
            &&& (t.last().0 == AgentState::Closed ==> t[t.len() - 5].0 == AgentState::Execute && t[t.len()
                - 4].0 == AgentState::Verify)
            &&& (t.last().0 == AgentState::Blocked ==> forall|i: int|
                0 <= i < t.len() ==> (#[trigger] t[i]).0 != AgentState::Execute)
            &&& (d.0 && d.1 ==> t.contains((AgentState::Approval, approval_text(a.0, a.1, a.2))))
        }),
{
    let k: int = if runbook is Some { 2 } else { 1 };
    lemma_planning_shape(incident, runbook, h, plan, d);
    let p = planning_trail(incident, runbook, h, plan, d);
    let t = run_trail(incident, runbook, h, plan, d, a, status);
    let ae = (AgentState::Approval, approval_text(a.0, a.1, a.2));
    let q = approval_trail(incident, runbook, h, plan, d, a);
    assert(q == if d.1 { p.push(ae) } else { p }) by {
        reveal(approval_trail);
    }
    if d.1 {
        lemma_push_keeps_shape(p, ae, k);
    }
    assert(q[0] == p[0]);
    if runbook is Some {
        assert(q[1] == p[1]);
    }
    if !d.0 {
        let blocked = (AgentState::Blocked, "incident blocked by policy"@);
        assert(t == p.push(blocked)) by {
            reveal(run_trail);
        }
        lemma_block_keeps_shape(p, blocked, k);
        assert forall|i: int| 0 <= i < t.len() implies (#[trigger] t[i]).0 != AgentState::Execute by {
            reveal(stage);
            if i < p.len() {
                assert(t[i] == p[i]);
                assert(stage(p[i].0) <= stage(p[p.len() - 1].0));
            }
        }
        assert(t[0] == p[0]);
        if runbook is Some {
            assert(t[1] == p[1]);
        }
    } else if d.1 && !a.0 {
        let blocked = (AgentState::Blocked, "incident blocked: approval denied"@);
        assert(t == q.push(blocked)) by {
            reveal(run_trail);
        }
        lemma_block_keeps_shape(q, blocked, k);
        assert forall|i: int| 0 <= i < t.len() implies (#[trigger] t[i]).0 != AgentState::Execute by {
            reveal(stage);
            if i < q.len() {
                assert(t[i] == q[i]);
                assert(stage(q[i].0) <= stage(q[q.len() - 1].0));
            }
        }
        assert(t[q.len() - 1] == ae);
        assert(t[0] == q[0]);
        if runbook is Some {
            assert(t[1] == q[1]);
        }
    } else {
        assert(t == q + closing_entries(status)) by {
            reveal(run_trail);
            assert(q.push(closing_entries(status)[0]).push(closing_entries(status)[1]).push(
                closing_entries(status)[2],
            ).push(closing_entries(status)[3]).push(closing_entries(status)[4]) =~= q + closing_entries(status));
        }
        assert(stage(q.last().0) <= stage(AgentState::Execute)) by {
            reveal(stage);
        }
        lemma_closing_shape(q, status, k);
        assert(t[0] == q[0]);
        if runbook is Some {
            assert(t[1] == q[1]);
        }
        if d.1 {
            assert(t[q.len() - 1] == q[q.len() - 1]);
        }
    }
}

/// A run is closed exactly when the policy allows the plan and, where it
/// asks for approval, the approver granted it; the timeline of a blocked
/// run records no execution, that of a closed run records execution and
/// verification; an approver asked is asked with the policy's reason and
/// its answer is recorded. (That the tools carry out and check only a plan
/// that may be carried out, and that the approver is asked only when
/// approval is due, the preconditions of `SreTools` and `ApprovalGate`
/// enforce on every call.)
pub proof fn lemma_run_guardrails<T: SreTools, A: ApprovalGate>(
    tools: T,
    approver: A,
    incident: IncidentInput,
    runbooks: Seq<(String, String)>,
    ans: RunAnswers,
    report: IncidentReport,
)
    requires
        run_reported(tools, approver, incident, runbooks, ans, report),
    ensures
        report.selected_mitigation matches Some(p) && {
            let d = spec_evaluate(incident, p);
            let a = ans.4;
            &&& (report.final_state == AgentState::Closed <==> d.0 && (!d.1 || a.0))
            &&& (report.final_state == AgentState::Closed || report.final_state == AgentState::Blocked)
            &&& (d.0 && d.1 ==> approver.answers(incident, p, d.2, a))
            &&& exists|log: Seq<AuditEntry>| #[trigger] timeline_of(report.timeline@, log) && {
                let t = trail(log);
                &&& in_workflow_order(t)
                &&& blocked_only_last(t)
                &&& t.last().0 == report.final_state
                &&& (report.final_state == AgentState::Blocked ==> forall|i: int|
                    0 <= i < t.len() ==> (#[trigger] t[i]).0 != AgentState::Execute)
                &&& (report.final_state == AgentState::Closed ==> t[t.len() - 5].0 == AgentState::Execute
                    && t[t.len() - 4].0 == AgentState::Verify)
                &&& (d.0 && d.1 ==> t.contains((AgentState::Approval, approval_text(a.0, a.1, a.2))))
            }
        },
{
    lemma_run_outcome(tools, approver, incident, runbooks, ans, report);
    let p = report.selected_mitigation->0;
    let d = spec_evaluate(incident, p);
    let h = selected_of(hypotheses_for(incident.summary@, findings_of(ans.0)));
    let runbook = lookup(runbooks, incident.service@);
    let log = choose|log: Seq<AuditEntry>|
        #[trigger] timeline_of(report.timeline@, log) && all_stamped(log) && trail(log) == run_trail(
            incident,
            runbook,
            h,
            p,
            d,
            ans.4,
            ans.3.0,
        );
    lemma_run_trail_shape(incident, runbook, h, p, d, ans.4, ans.3.0);
    assert(timeline_of(report.timeline@, log));
}

/// The first timeline entry records the intake; the only intake entries
/// are that one and, exactly when the service has a runbook, the entry
/// citing it right after.
pub proof fn lemma_run_cites_runbook<T: SreTools, A: ApprovalGate>(
    tools: T,
    approver: A,
    incident: IncidentInput,
    runbooks: Seq<(String, String)>,
    ans: RunAnswers,
    report: IncidentReport,
)
    requires
        run_reported(tools, approver, incident, runbooks, ans, report),
    ensures
        exists|log: Seq<AuditEntry>| #[trigger] timeline_of(report.timeline@, log) && {
            let t = trail(log);
            let runbook = lookup(runbooks, incident.service@);
            &&& t[0] == (AgentState::Intake, intake_text(incident))
            &&& (runbook matches Some(rb) ==> t[1] == (AgentState::Intake, citation_text(rb)))
            &&& no_intake_from(t, if runbook is Some { 2 } else { 1 })
        },
{
    lemma_run_outcome(tools, approver, incident, runbooks, ans, report);
    let p = report.selected_mitigation->0;
    let d = spec_evaluate(incident, p);
    let h = selected_of(hypotheses_for(incident.summary@, findings_of(ans.0)));
    let runbook = lookup(runbooks, incident.service@);
    let log = choose|log: Seq<AuditEntry>|
        #[trigger] timeline_of(report.timeline@, log) && all_stamped(log) && trail(log) == run_trail(
            incident,
            runbook,
            h,
            p,
            d,
            ans.4,
            ans.3.0,
        );
    lemma_run_trail_shape(incident, runbook, h, p, d, ans.4, ans.3.0);
    assert(timeline_of(report.timeline@, log));
}

fn intake_message(incident: &IncidentInput) -> (m: String)
    ensures
        m@ == intake_text(*incident),
{
    let mut m = String::from_str("incident ");
    m.append(incident.incident_id.as_str());
    m.append(" received for service ");
    m.append(incident.service.as_str());
    m
}

fn hypothesis_message(h: &Hypothesis) -> (m: String)
    ensures
        m@ == hypothesis_text(hypothesis_view(*h)),
{
    let mut m = String::from_str("selected hypothesis: ");
    m.append(h.title.as_str());
    m.append(" (");
    push_fixed2(&mut m, h.confidence);
    m.append(")");
    m
}

fn plan_message(plan: &MitigationPlan) -> (m: String)
    ensures
        m@ == planned_text(*plan),
{
    let mut m = String::from_str("planned action: ");
    m.append(plan.action.name());
    m.append(" targeting ");
    m.append(plan.target.as_str());
    m
}

fn policy_message(allowed: bool, requires_approval: bool, reason: &String) -> (m: String)
    ensures
        m@ == policy_text((allowed, requires_approval, reason@)),
{
    let mut m = String::from_str("policy decision => allowed: ");
    push_bool(&mut m, allowed);
    m.append(", requires approval: ");
    push_bool(&mut m, requires_approval);
    m.append(", reason: ");
    m.append(reason.as_str());
    m
}

fn approval_message(approved: bool, approver: &String, note: &String) -> (m: String)
    ensures
        m@ == approval_text(approved, approver@, note@),
{
    let mut m = String::from_str("approval result => approved: ");
    push_bool(&mut m, approved);
    m.append(", by: ");
    m.append(approver.as_str());
    m.append(", note: ");
    m.append(note.as_str());
    m
}


fn note_sources(memory: &mut SessionMemory, baseline: &Vec<ToolResponse>) {
    let mut i: usize = 0;
    while i < baseline.len()
        invariant
            i <= baseline@.len(),
        decreases baseline@.len() - i,
    {
        let mut j: usize = 0;
        while j < baseline[i].evidence.len()
            invariant
                i < baseline@.len(),
                j <= baseline@[i as int].evidence@.len(),
            decreases baseline@[i as int].evidence@.len() - j,
        {
            memory.note_source(baseline[i].evidence[j].source.clone());
            j = j + 1;
        }
        i = i + 1;
    }
}

fn note_hypotheses(memory: &mut SessionMemory, hypotheses: &Vec<Hypothesis>) {
    let mut k: usize = 0;
    while k < hypotheses.len()
        invariant
            k <= hypotheses@.len(),
        decreases hypotheses@.len() - k,
    {
        memory.note_hypothesis(hypotheses[k].title.clone());
        k = k + 1;
    }
}

/// The incident-response agent: a toolset, the policy, an approval gate
/// and the team's knowledge.
pub struct SreAgent<T: SreTools, A: ApprovalGate> {
    tools: T,
    policy: PolicyEngine,
    approver: A,
    knowledge: KnowledgeMemory,
}

impl<T: SreTools, A: ApprovalGate> SreAgent<T, A> {
    pub fn new(tools: T, policy: PolicyEngine, approver: A, knowledge: KnowledgeMemory) -> (agent: Self)
        ensures
            agent.tools_used() == tools,
            agent.approver_used() == approver,
            agent.knowledge_runbooks() == knowledge.runbooks@,
    {
        SreAgent { tools, policy, approver, knowledge }
    }

    /// The toolset the agent calls.
    pub closed spec fn tools_used(&self) -> T {
        self.tools
    }

    /// The approval gate the agent asks.
    pub closed spec fn approver_used(&self) -> A {
        self.approver
    }

    /// The runbooks the agent cites.
    pub closed spec fn knowledge_runbooks(&self) -> Seq<(String, String)> {
        self.knowledge.runbooks@
    }

    /// Runs the whole workflow for one incident: the report is the one
    /// `run_reported` describes for the answers the tools and the approver
    /// gave. The calls it makes meet the preconditions of the tools and the
    /// approver: the approver only where the policy allows the plan and
    /// asks for approval, with the policy's reason; execution and
    /// verification only for a plan the policy allows and, where approval
    /// was due, the approver granted.
    pub fn run(&self, incident: IncidentInput) -> (report: IncidentReport)
        ensures
            exists|ans: RunAnswers|
                #[trigger] run_reported(
                    self.tools_used(),
                    self.approver_used(),
                    incident,
                    self.knowledge_runbooks(),
                    ans,
                    report,
                ),
    {
        let mut audit = AuditLog::new();
        let mut memory = SessionMemory::new();
        let ghost runbook = lookup(self.knowledge.runbooks@, incident.service@);

        audit.record(AgentState::Intake, intake_message(&incident));
        let found = self.knowledge.runbook_for(incident.service.as_str());
        match found {
            Some(rb) => {
                let m = String::from_str("runbook attached as citation: ").concat(rb.as_str());
                audit.record(AgentState::Intake, m);
            },
            None => {},
        }
        audit.record(AgentState::Triage, String::from_str("collecting baseline telemetry"));
        assert(trail(audit@) =~= opening_trail(incident, runbook)) by {
            reveal(opening_trail);
        }

        let baseline = self.tools.collect_baseline(&incident);
        let ghost b = views_of(baseline@);
        let mut findings = extract_findings(baseline.as_slice());
        note_sources(&mut memory, &baseline);

        audit.record(AgentState::Hypothesis, String::from_str("generating candidate root-cause hypotheses"));
        let hypotheses = build_hypotheses(&incident, &findings);
        note_hypotheses(&mut memory, &hypotheses);
        let selected = select_hypothesis(&hypotheses);
        let ghost h = hypothesis_view(selected);
        proof {
            lemma_selected_of(hypotheses_for(incident.summary@, findings_of(b)), h);
        }
        audit.record(AgentState::Hypothesis, hypothesis_message(&selected));

        audit.record(AgentState::Diagnose, String::from_str("running focused diagnostic checks"));
        let diagnostic = self.tools.run_diagnostic_checks(&incident, &selected);
        let ghost g = response_view(diagnostic);
        append_findings(&diagnostic, &mut findings);
        let mut note = String::from_str("diagnostic confidence: ");
        push_fixed2(&mut note, diagnostic.confidence);
        memory.note(note);

        audit.record(AgentState::MitigationPlan, String::from_str("building mitigation plan"));
        let mitigation = select_mitigation(&incident, &selected, &diagnostic);
        audit.record(AgentState::MitigationPlan, plan_message(&mitigation));

        audit.record(AgentState::Approval, String::from_str("evaluating policy for proposed action"));
        let decision = self.policy.evaluate(&incident, &mitigation);
        let ghost d = spec_evaluate(incident, mitigation);
        audit.record(
            AgentState::Approval,
            policy_message(decision.allowed, decision.requires_approval, &decision.reason),
        );
        assert(trail(audit@) =~= planning_trail(incident, runbook, h, mitigation, d)) by {
            reveal(planning_trail);
        }
        let ghost f2 = texts(findings@);
        proof {
            lemma_findings_concat(b, seq![g]);
            assert(f2 == findings_of(b.push(g) + Seq::<ResponseView>::empty())) by {
                assert(b.push(g) + Seq::<ResponseView>::empty() =~= b + seq![g]);
            }
        }

        if !decision.allowed {
            audit.record(AgentState::Blocked, String::from_str("incident blocked by policy"));
            let timeline = audit.timeline();
            let report = IncidentReport {
                final_state: AgentState::Blocked,
                timeline,
                findings,
                selected_mitigation: Some(mitigation),
            };
            let ghost a: ApprovalView = (false, Seq::empty(), Seq::empty());
            proof {
                assert(trail(audit@) =~= run_trail(incident, runbook, h, mitigation, d, a, g.0)) by {
                    reveal(run_trail);
                    reveal(approval_trail);
                }
                assert(timeline_of(report.timeline@, audit@));
                assert(run_reported(self.tools_used(), self.approver_used(), incident, self.knowledge_runbooks(), (b, g, g, g, a), report)) by {
                    reveal(run_reported);
                }
            }
            return report;
        }
        let ghost mut a: ApprovalView = (true, Seq::empty(), Seq::empty());
        if decision.requires_approval {
            let approval = self.approver.request_approval(&incident, &mitigation, decision.reason.as_str());
            proof {
                a = approval_view(approval);
            }
            audit.record(
                AgentState::Approval,
                approval_message(approval.approved, &approval.approver, &approval.note),
            );
            if !approval.approved {
                audit.record(AgentState::Blocked, String::from_str("incident blocked: approval denied"));
                let timeline = audit.timeline();
                let report = IncidentReport {
                    final_state: AgentState::Blocked,
                    timeline,
                    findings,
                    selected_mitigation: Some(mitigation),
                };
                proof {
                    assert(trail(audit@) =~= run_trail(incident, runbook, h, mitigation, d, a, g.0)) by {
                    reveal(run_trail);
                    reveal(approval_trail);
                }
                    assert(timeline_of(report.timeline@, audit@));
                    assert(run_reported(self.tools_used(), self.approver_used(), incident, self.knowledge_runbooks(), (b, g, g, g, a), report)) by {
                    reveal(run_reported);
                }
                }
                return report;
            }
        }
        assert(trail(audit@) =~= approval_trail(incident, runbook, h, mitigation, d, a)) by {
            reveal(approval_trail);
        }

        audit.record(AgentState::Execute, String::from_str("executing mitigation"));
        let execution = self.tools.execute_mitigation(&incident, &mitigation, Ghost(a.0));
        let ghost x = response_view(execution);
        append_findings(&execution, &mut findings);

        audit.record(AgentState::Verify, String::from_str("verifying recovery signals"));
        let verification = self.tools.verify_recovery(&incident, Ghost(mitigation), Ghost(a.0));
        let ghost v = response_view(verification);
        append_findings(&verification, &mut findings);

        audit.record(AgentState::Closeout, String::from_str("preparing closeout summary"));
        let outcome = if verification.status == ToolStatus::Success {
            "recovery checks healthy"
        } else {
            "recovery uncertain"
        };
        audit.record(AgentState::Closeout, String::from_str(outcome));

        audit.record(AgentState::Closed, String::from_str("incident workflow finished"));
        let timeline = audit.timeline();
        let report = IncidentReport {
            final_state: AgentState::Closed,
            timeline,
            findings,
            selected_mitigation: Some(mitigation),
        };
        proof {
            assert(outcome@ == outcome_text(v.0));
            assert(trail(audit@) =~= run_trail(incident, runbook, h, mitigation, d, a, v.0)) by {
                reveal(run_trail);
            }
            assert(timeline_of(report.timeline@, audit@));
            lemma_findings_concat(b.push(g), seq![x]);
            lemma_findings_concat(b.push(g).push(x), seq![v]);
            assert(b.push(g) + seq![x, v] =~= b.push(g).push(x).push(v));
            assert(b.push(g).push(x) =~= b.push(g) + seq![x]);
            assert(b.push(g).push(x).push(v) =~= b.push(g).push(x) + seq![v]);
            assert(texts(report.findings@) == findings_of(b.push(g) + seq![x, v]));
            assert(run_reported(self.tools_used(), self.approver_used(), incident, self.knowledge_runbooks(), (b, g, x, v, a), report)) by {
                    reveal(run_reported);
                }
        }
        report
    }
}

} // verus!
