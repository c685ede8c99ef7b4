//! The tools the workflow calls to observe and act, and the simulated
//! toolset used for local development.

use vstd::prelude::*;
use crate::audit::{is_timestamp, unix_seconds_now};
use crate::domain::{
    ActionType, Evidence, Hypothesis, IncidentInput, MitigationPlan, ToolResponse, ToolStatus,
};
use crate::engine::{hypothesis_view, HypothesisView};
use crate::policy::may_carry_out;
use crate::text::{contains, contains_ignore_case, lower, texts};

verus! {

/// Source, detail, value and confidence (in hundredths) of one observation.
pub type EvidenceView = (Seq<char>, Seq<char>, Option<Seq<char>>, nat);

/// Status, evidence, confidence and suggested next actions of a response.
pub type ResponseView = (ToolStatus, Seq<EvidenceView>, nat, Seq<Seq<char>>);

pub open spec fn opt_text(o: Option<String>) -> Option<Seq<char>> {
    match o {
        Some(s) => Some(s@),
        None => None,
    }
}

pub open spec fn opt_str(o: Option<&str>) -> Option<Seq<char>> {
    match o {
        Some(s) => Some(s@),
        None => None,
    }
}

pub open spec fn evidence_view(e: Evidence) -> EvidenceView {
    (e.source@, e.detail@, opt_text(e.value), e.confidence as nat)
}

pub open spec fn response_view(r: ToolResponse) -> ResponseView {
    (
        r.status,
        r.evidence@.map_values(|e: Evidence| evidence_view(e)),
        r.confidence as nat,
        texts(r.safe_next_actions@),
    )
}

pub open spec fn views_of(responses: Seq<ToolResponse>) -> Seq<ResponseView> {
    responses.map_values(|r: ToolResponse| response_view(r))
}

/// Every observation of the response carries a timestamp.
pub open spec fn stamped(r: ToolResponse) -> bool {
    forall|i: int| 0 <= i < r.evidence@.len() ==> is_timestamp(#[trigger] r.evidence@[i].observed_at@)
}

/// An observation made now.
pub fn make_evidence(source: &str, detail: &str, value: Option<&str>, confidence: u32) -> (e: Evidence)
    ensures
        evidence_view(e) == (source@, detail@, opt_str(value), confidence as nat),
        is_timestamp(e.observed_at@),
{
    let value = match value {
        Some(v) => Some(String::from_str(v)),
        None => None,
    };
    Evidence {
        source: String::from_str(source),
        detail: String::from_str(detail),
        value,
        confidence,
        observed_at: unix_seconds_now(),
    }
}

pub fn one_text(a: &str) -> (v: Vec<String>)
    ensures
        texts(v@) == seq![a@],
{
    let mut v: Vec<String> = Vec::new();
    v.push(String::from_str(a));
    assert(texts(v@) =~= seq![a@]);
    v
}

pub fn two_texts(a: &str, b: &str) -> (v: Vec<String>)
    ensures
        texts(v@) == seq![a@, b@],
{
    let mut v: Vec<String> = Vec::new();
    v.push(String::from_str(a));
    v.push(String::from_str(b));
    assert(texts(v@) =~= seq![a@, b@]);
    v
}

/// What an incident responder's toolset can do.
///
/// Each operation is described by a relation between its inputs and the
/// views of the responses it may give; a toolset that observes the world
/// leaves these relations open, the simulated toolset fixes them.
pub trait SreTools {
    /// `r` is a baseline this toolset may report for `incident`.
    spec fn baseline_answers(&self, incident: IncidentInput, r: Seq<ResponseView>) -> bool;

    /// `r` is a diagnostic this toolset may report for `incident` under
    /// the hypothesis `hypothesis`.
    spec fn diagnostic_answers(&self, incident: IncidentInput, hypothesis: HypothesisView, r: ResponseView) -> bool;

    /// `r` is what this toolset may report when executing `plan`.
    spec fn execution_answers(&self, incident: IncidentInput, plan: MitigationPlan, r: ResponseView) -> bool;

    /// `r` is what this toolset may report when verifying recovery.
    spec fn verification_answers(&self, incident: IncidentInput, r: ResponseView) -> bool;

    fn collect_baseline(&self, incident: &IncidentInput) -> (r: Vec<ToolResponse>)
        ensures
            self.baseline_answers(*incident, views_of(r@)),
    ;

    fn run_diagnostic_checks(&self, incident: &IncidentInput, hypothesis: &Hypothesis) -> (r: ToolResponse)
        ensures
            self.diagnostic_answers(*incident, hypothesis_view(*hypothesis), response_view(r)),
    ;

    /// Carries out `plan`; only a plan that may be carried out (`approved`
    /// telling whether the approver granted it, where it was asked).
    fn execute_mitigation(&self, incident: &IncidentInput, plan: &MitigationPlan, approved: Ghost<bool>) -> (r: ToolResponse)
        requires
            may_carry_out(*incident, *plan, approved@),
        ensures
            self.execution_answers(*incident, *plan, response_view(r)),
    ;

    /// Checks recovery after `plan` was carried out; only for a plan that
    /// may be carried out.
    fn verify_recovery(&self, incident: &IncidentInput, plan: Ghost<MitigationPlan>, approved: Ghost<bool>) -> (r: ToolResponse)
        requires
            may_carry_out(*incident, plan@, approved@),
        ensures
            self.verification_answers(*incident, response_view(r)),
    ;
}

/// The simulated baseline for an incident summarised as `summary`.
pub open spec fn mock_baseline(summary: Seq<char>) -> ResponseView {
    let s = lower(summary);
    let latency: EvidenceView = (
        "prometheus"@,
        "p95 latency"@,
        Some(if contains(s, "latency"@) { "1320ms"@ } else { "410ms"@ }),
        92,
    );
    let errors: EvidenceView = ("grafana"@, "5xx error rate"@, Some("8.1%"@), 89);
    let restarts: EvidenceView = ("kubernetes"@, "pod restarts"@, Some("14 restarts/10m"@), 95);
    let with_errors = if contains(s, "error"@) { seq![latency, errors] } else { seq![latency] };
    let evidence = if contains(s, "crash"@) { with_errors.push(restarts) } else { with_errors };
    (
        ToolStatus::Success,
        evidence,
        90,
        seq!["check recent deployment"@, "validate dependency health"@],
    )
}

/// The signal the simulated diagnostics find.
pub open spec fn mock_signal(summary: Seq<char>, title: Seq<char>) -> Seq<char> {
    let s = lower(summary);
    let t = lower(title);
    if contains(t, "deployment"@) || contains(s, "deploy"@) {
        "new deployment started 11m before incident"@
    } else if contains(t, "capacity"@) || contains(s, "latency"@) {
        "cpu saturation at 91% on primary pod set"@
    } else if contains(t, "dependency"@) || contains(s, "db"@) {
        "db connection pool wait elevated to 220ms"@
    } else {
        "insufficient direct signal"@
    }
}

/// The simulated diagnostics decide by the first matching rule: a
/// deployment (in the title) or a deploy (in the summary) shows the recent
/// rollout; else capacity (title) or latency (summary) shows CPU
/// saturation; else a dependency (title) or the database (summary) shows
/// connection-pool waits; otherwise there is no direct signal.
pub proof fn lemma_mock_signal_rules(summary: Seq<char>, title: Seq<char>)
    ensures
        ({
            let s = lower(summary);
            let t = lower(title);
            let signal = mock_signal(summary, title);
            let rollout = contains(t, "deployment"@) || contains(s, "deploy"@);
            let saturation = contains(t, "capacity"@) || contains(s, "latency"@);
            let pool = contains(t, "dependency"@) || contains(s, "db"@);
            &&& rollout ==> signal == "new deployment started 11m before incident"@
            &&& !rollout && saturation ==> signal == "cpu saturation at 91% on primary pod set"@
            &&& !rollout && !saturation && pool ==> signal == "db connection pool wait elevated to 220ms"@
            &&& !rollout && !saturation && !pool ==> signal == "insufficient direct signal"@
        }),
{
}

pub open spec fn mock_diagnostic(summary: Seq<char>, title: Seq<char>) -> ResponseView {
    (
        ToolStatus::Success,
        seq![("diagnostics"@, "hypothesis check"@, Some(mock_signal(summary, title)), 82nat)],
        82,
        seq!["pick minimal-blast-radius mitigation"@],
    )
}

/// What the simulated executor reports for an action.
pub open spec fn mock_action_result(action: ActionType) -> Seq<char> {
    match action {
        ActionType::RestartService => "rollout restart completed"@,
        ActionType::ScaleService => "scaled replicas from 6 -> 10"@,
        ActionType::RollbackRelease => "rolled back to previous stable release"@,
        ActionType::FlipFeatureFlag => "feature flag switched off for impacted cohort"@,
    }
}

pub open spec fn mock_execution(action: ActionType) -> ResponseView {
    (
        ToolStatus::Success,
        seq![("executor"@, "mitigation result"@, Some(mock_action_result(action)), 94nat)],
        94,
        seq!["verify slos over recovery window"@],
    )
}

pub open spec fn mock_verification() -> ResponseView {
    (
        ToolStatus::Success,
        seq![
            ("prometheus"@, "p95 latency"@, Some("280ms"@), 96nat),
            ("grafana"@, "5xx error rate"@, Some("0.2%"@), 95nat),
        ],
        95,
        seq!["close incident after stability window"@],
    )
}

/// A toolset that answers from fixed, plausible telemetry.
#[derive(Debug, Default, Clone)]
pub struct MockSreTools;

impl SreTools for MockSreTools {
    open spec fn baseline_answers(&self, incident: IncidentInput, r: Seq<ResponseView>) -> bool {
        r == seq![mock_baseline(incident.summary@)]
    }

    open spec fn diagnostic_answers(&self, incident: IncidentInput, hypothesis: HypothesisView, r: ResponseView) -> bool {
        r == mock_diagnostic(incident.summary@, hypothesis.0)
    }

    open spec fn execution_answers(&self, incident: IncidentInput, plan: MitigationPlan, r: ResponseView) -> bool {
        r == mock_execution(plan.action)
    }

    open spec fn verification_answers(&self, incident: IncidentInput, r: ResponseView) -> bool {
        r == mock_verification()
    }

    fn collect_baseline(&self, incident: &IncidentInput) -> (r: Vec<ToolResponse>)
        ensures
            r@.len() == 1,
            response_view(r@[0]) == mock_baseline(incident.summary@),
            stamped(r@[0]),
            ({
                let s = lower(incident.summary@);
                let ev = r@[0].evidence@;
                &&& ev.len() == 1 + (if contains(s, "error"@) { 1int } else { 0 }) + (if contains(s, "crash"@) {
                    1int
                } else {
                    0
                })
                &&& ev[0].source@ == "prometheus"@
                &&& (ev[0].value matches Some(v) && v@ == (if contains(s, "latency"@) {
                    "1320ms"@
                } else {
                    "410ms"@
                }))
            }),
    {
        let summary = incident.summary.as_str();
        let latency_value = if contains_ignore_case(summary, "latency") {
            "1320ms"
        } else {
            "410ms"
        };
        let mut evidence: Vec<Evidence> = Vec::new();
        evidence.push(make_evidence("prometheus", "p95 latency", Some(latency_value), 92));
        if contains_ignore_case(summary, "error") {
            evidence.push(make_evidence("grafana", "5xx error rate", Some("8.1%"), 89));
        }
        if contains_ignore_case(summary, "crash") {
            evidence.push(make_evidence("kubernetes", "pod restarts", Some("14 restarts/10m"), 95));
        }
        let response = ToolResponse {
            status: ToolStatus::Success,
            evidence,
            confidence: 90,
            safe_next_actions: two_texts("check recent deployment", "validate dependency health"),
        };
        assert(response_view(response).1 =~= mock_baseline(incident.summary@).1);
        let mut r: Vec<ToolResponse> = Vec::new();
        r.push(response);
        assert(views_of(r@) =~= seq![mock_baseline(incident.summary@)]);
        r
    }

    fn run_diagnostic_checks(&self, incident: &IncidentInput, hypothesis: &Hypothesis) -> (r: ToolResponse)
        ensures
            response_view(r) == mock_diagnostic(incident.summary@, hypothesis.title@),
            stamped(r),
            r.evidence@.len() == 1,
            ({
                let s = lower(incident.summary@);
                let t = lower(hypothesis.title@);
                !contains(t, "deployment"@) && !contains(s, "deploy"@) && !contains(t, "capacity"@) && !contains(
                    s,
                    "latency"@,
                ) && contains(t, "dependency"@) ==> (r.evidence@[0].value matches Some(v) && v@
                    == "db connection pool wait elevated to 220ms"@)
            }),
    {
        let summary = incident.summary.as_str();
        let title = hypothesis.title.as_str();
        let signal = if contains_ignore_case(title, "deployment") || contains_ignore_case(summary, "deploy") {
            "new deployment started 11m before incident"
        } else if contains_ignore_case(title, "capacity") || contains_ignore_case(summary, "latency") {
            "cpu saturation at 91% on primary pod set"
        } else if contains_ignore_case(title, "dependency") || contains_ignore_case(summary, "db") {
            "db connection pool wait elevated to 220ms"
        } else {
            "insufficient direct signal"
        };
        let mut evidence: Vec<Evidence> = Vec::new();
        evidence.push(make_evidence("diagnostics", "hypothesis check", Some(signal), 82));
        let r = ToolResponse {
            status: ToolStatus::Success,
            evidence,
            confidence: 82,
            safe_next_actions: one_text("pick minimal-blast-radius mitigation"),
        };
        assert(response_view(r).1 =~= mock_diagnostic(incident.summary@, hypothesis.title@).1);
        r
    }

    fn execute_mitigation(&self, incident: &IncidentInput, plan: &MitigationPlan, approved: Ghost<bool>) -> (r: ToolResponse)
        ensures
            response_view(r) == mock_execution(plan.action),
            r.evidence@.len() == 1,
            (r.evidence@[0].value matches Some(v) && v@ == match plan.action {
                ActionType::RestartService => "rollout restart completed"@,
                ActionType::ScaleService => "scaled replicas from 6 -> 10"@,
                ActionType::RollbackRelease => "rolled back to previous stable release"@,
                ActionType::FlipFeatureFlag => "feature flag switched off for impacted cohort"@,
            }),
            stamped(r),
    {
        let action = match plan.action {
            ActionType::RestartService => "rollout restart completed",
            ActionType::ScaleService => "scaled replicas from 6 -> 10",
            ActionType::RollbackRelease => "rolled back to previous stable release",
            ActionType::FlipFeatureFlag => "feature flag switched off for impacted cohort",
        };
        let mut evidence: Vec<Evidence> = Vec::new();
        evidence.push(make_evidence("executor", "mitigation result", Some(action), 94));
        let r = ToolResponse {
            status: ToolStatus::Success,
            evidence,
            confidence: 94,
            safe_next_actions: one_text("verify slos over recovery window"),
        };
        assert(response_view(r).1 =~= mock_execution(plan.action).1);
        r
    }

    fn verify_recovery(&self, incident: &IncidentInput, plan: Ghost<MitigationPlan>, approved: Ghost<bool>) -> (r: ToolResponse)
        ensures
            response_view(r) == mock_verification(),
            stamped(r),
    {
        let mut evidence: Vec<Evidence> = Vec::new();
        evidence.push(make_evidence("prometheus", "p95 latency", Some("280ms"), 96));
        evidence.push(make_evidence("grafana", "5xx error rate", Some("0.2%"), 95));
        let r = ToolResponse {
            status: ToolStatus::Success,
            evidence,
            confidence: 95,
            safe_next_actions: one_text("close incident after stability window"),
        };
        assert(response_view(r).1 =~= mock_verification().1);
        r
    }
}

/// The four operations of a toolset that observes and acts on live
/// systems (metrics, logs, the cluster), with nothing promised of what
/// they report.
pub trait ToolBackend {
    fn collect_baseline(&self, incident: &IncidentInput) -> Vec<ToolResponse>;

    fn run_diagnostic_checks(&self, incident: &IncidentInput, hypothesis: &Hypothesis) -> ToolResponse;

    fn execute_mitigation(&self, incident: &IncidentInput, plan: &MitigationPlan) -> ToolResponse;

    fn verify_recovery(&self, incident: &IncidentInput) -> ToolResponse;
}

/// A live backend seen as a toolset: any report is possible, so the
/// workflow's guarantees hold whatever the backend observes.
pub struct ObservedTools<B: ToolBackend> {
    pub backend: B,
}

impl<B: ToolBackend> SreTools for ObservedTools<B> {
    open spec fn baseline_answers(&self, incident: IncidentInput, r: Seq<ResponseView>) -> bool {
        true
    }

    open spec fn diagnostic_answers(&self, incident: IncidentInput, hypothesis: HypothesisView, r: ResponseView) -> bool {
        true
    }

    open spec fn execution_answers(&self, incident: IncidentInput, plan: MitigationPlan, r: ResponseView) -> bool {
        true
    }

    open spec fn verification_answers(&self, incident: IncidentInput, r: ResponseView) -> bool {
        true
    }

    fn collect_baseline(&self, incident: &IncidentInput) -> (r: Vec<ToolResponse>) {
        self.backend.collect_baseline(incident)
    }

    fn run_diagnostic_checks(&self, incident: &IncidentInput, hypothesis: &Hypothesis) -> (r: ToolResponse) {
        self.backend.run_diagnostic_checks(incident, hypothesis)
    }

    fn execute_mitigation(&self, incident: &IncidentInput, plan: &MitigationPlan, approved: Ghost<bool>) -> (r: ToolResponse) {
        self.backend.execute_mitigation(incident, plan)
    }

    fn verify_recovery(&self, incident: &IncidentInput, plan: Ghost<MitigationPlan>, approved: Ghost<bool>) -> (r: ToolResponse) {
        self.backend.verify_recovery(incident)
    }
}

} // verus!
