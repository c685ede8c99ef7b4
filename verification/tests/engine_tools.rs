use sentinel_sre::approval::RuleBasedApprovalGate;
use sentinel_sre::domain::{
    ActionType, AgentState, Environment, Evidence, Hypothesis, IncidentInput, RiskLevel, Severity, ToolResponse,
    ToolStatus,
};
use sentinel_sre::engine::{build_hypotheses, extract_findings, select_hypothesis, select_mitigation, SreAgent};
use sentinel_sre::memory::KnowledgeMemory;
use sentinel_sre::policy::PolicyEngine;
use sentinel_sre::tools::{make_evidence, MockSreTools, ObservedTools, SreTools, ToolBackend};

fn incident(service: &str, summary: &str, env: Environment) -> IncidentInput {
    IncidentInput {
        incident_id: "inc-7".to_string(),
        service: service.to_string(),
        summary: summary.to_string(),
        severity: Severity::Sev2,
        environment: env,
    }
}

fn evidence(source: &str, detail: &str, value: Option<&str>, confidence: u32) -> Evidence {
    Evidence {
        source: source.to_string(),
        detail: detail.to_string(),
        value: value.map(|v| v.to_string()),
        confidence,
        observed_at: "0".to_string(),
    }
}

fn response(confidence: u32, evidence: Vec<Evidence>) -> ToolResponse {
    ToolResponse { status: ToolStatus::Success, evidence, confidence, safe_next_actions: vec![] }
}

fn hypothesis(title: &str, rationale: &str, confidence: u32) -> Hypothesis {
    Hypothesis { title: title.to_string(), rationale: rationale.to_string(), confidence }
}

fn titles(hs: &[Hypothesis]) -> Vec<(String, u32)> {
    hs.iter().map(|h| (h.title.clone(), h.confidence)).collect()
}

#[test]
fn findings_render_every_observation() {
    let responses = vec![
        response(90, vec![evidence("prometheus", "p95 latency", Some("1320ms"), 92), evidence("loki", "line", None, 20)]),
        response(80, vec![]),
        response(82, vec![evidence("diagnostics", "hypothesis check", Some("x"), 5)]),
    ];
    assert_eq!(
        extract_findings(&responses),
        vec![
            "prometheus => p95 latency = 1320ms (conf 0.92)".to_string(),
            "loki => line = n/a (conf 0.20)".to_string(),
            "diagnostics => hypothesis check = x (conf 0.05)".to_string(),
        ]
    );
    assert!(extract_findings(&[]).is_empty());
}

#[test]
fn hypotheses_follow_the_summary_and_findings() {
    let none: Vec<String> = vec![];
    let hs = build_hypotheses(&incident("s", "Latency and ERROR spike", Environment::Dev), &none);
    assert_eq!(
        titles(&hs),
        vec![
            ("capacity saturation".to_string(), 78),
            ("deployment regression".to_string(), 74),
            ("dependency degradation".to_string(), 66)
        ]
    );
    assert_eq!(hs[0].rationale, "latency pattern suggests compute or connection pool exhaustion");
    assert_eq!(hs[1].rationale, "errors aligned with rollout window");
    assert_eq!(hs[2].rationale, "upstream dependency can amplify latency and errors");

    let hs = build_hypotheses(&incident("s", "pods crashing", Environment::Dev), &none);
    assert_eq!(titles(&hs), vec![("dependency degradation".to_string(), 66)]);

    let findings = vec!["loki => line = New DEPLOYMENT rolled (conf 0.75)".to_string()];
    let hs = build_hypotheses(&incident("s", "pods crashing", Environment::Dev), &findings);
    assert_eq!(
        titles(&hs),
        vec![("deployment regression".to_string(), 74), ("dependency degradation".to_string(), 66)]
    );
}

#[test]
fn most_confident_hypothesis_is_selected_last_among_ties() {
    let hs = vec![hypothesis("a", "ra", 70), hypothesis("b", "rb", 90), hypothesis("c", "rc", 90), hypothesis("d", "rd", 10)];
    let h = select_hypothesis(&hs);
    assert_eq!((h.title.as_str(), h.rationale.as_str(), h.confidence), ("c", "rc", 90));
}

#[test]
fn fallback_hypothesis_when_there_is_none() {
    let h = select_hypothesis(&vec![]);
    assert_eq!((h.title.as_str(), h.rationale.as_str(), h.confidence), ("insufficient signal", "fallback hypothesis", 40));
}

#[test]
fn mitigation_for_latency_scales_the_service() {
    let diag = response(82, vec![]);
    let p = select_mitigation(
        &incident("payments-api", "Latency spike", Environment::Prod),
        &hypothesis("dependency degradation", "upstream dependency can amplify latency and errors", 66),
        &diag,
    );
    assert_eq!(p.action, ActionType::ScaleService);
    assert_eq!(p.risk_level, RiskLevel::Medium);
    assert_eq!(p.target, "payments-api");
    assert_eq!(p.reason, "upstream dependency can amplify latency and errors; diagnostic confidence 0.82");
    assert_eq!(p.blast_radius_estimate, "single service: payments-api");
    assert_eq!(
        p.rollback_steps,
        vec![
            "capture pre-change SLI snapshot",
            "revert action if error rate worsens for 5 minutes",
            "page service owner if rollback fails"
        ]
    );
}

#[test]
fn mitigation_choices_by_title_and_summary() {
    let diag = response(58, vec![]);
    let plan = |summary: &str, title: &str| {
        select_mitigation(&incident("svc", summary, Environment::Dev), &hypothesis(title, "r", 1), &diag)
    };
    assert_eq!(plan("anything", "Capacity saturation").action, ActionType::ScaleService);
    assert_eq!(plan("anything", "deployment regression").action, ActionType::RollbackRelease);
    assert_eq!(plan("after DEPLOY", "dependency degradation").action, ActionType::RollbackRelease);
    let restart = plan("crash loop", "dependency degradation");
    assert_eq!(restart.action, ActionType::RestartService);
    assert_eq!(restart.risk_level, RiskLevel::Low);
    let flip = plan("odd behaviour", "dependency degradation");
    assert_eq!(flip.action, ActionType::FlipFeatureFlag);
    assert_eq!(flip.risk_level, RiskLevel::Low);
    assert_eq!(flip.reason, "r; diagnostic confidence 0.58");
}

fn values(r: &ToolResponse) -> Vec<(String, String, Option<String>, u32)> {
    r.evidence.iter().map(|e| (e.source.clone(), e.detail.clone(), e.value.clone(), e.confidence)).collect()
}

fn ev(s: &str, d: &str, v: &str, c: u32) -> (String, String, Option<String>, u32) {
    (s.to_string(), d.to_string(), Some(v.to_string()), c)
}

#[test]
fn mock_baseline_reflects_the_summary() {
    let tools = MockSreTools;
    let r = tools.collect_baseline(&incident("svc", "Error rate up and pods CRASH", Environment::Dev));
    assert_eq!(r.len(), 1);
    assert_eq!(r[0].status, ToolStatus::Success);
    assert_eq!(r[0].confidence, 90);
    assert_eq!(
        values(&r[0]),
        vec![
            ev("prometheus", "p95 latency", "410ms", 92),
            ev("grafana", "5xx error rate", "8.1%", 89),
            ev("kubernetes", "pod restarts", "14 restarts/10m", 95),
        ]
    );
    assert_eq!(r[0].safe_next_actions, vec!["check recent deployment", "validate dependency health"]);
    let r = tools.collect_baseline(&incident("svc", "latency", Environment::Dev));
    assert_eq!(values(&r[0]), vec![ev("prometheus", "p95 latency", "1320ms", 92)]);
    assert!(r[0].evidence[0].observed_at.chars().all(|c| c.is_ascii_digit()));
}

#[test]
fn mock_diagnostics_execution_and_verification() {
    let tools = MockSreTools;
    let i = incident("svc", "db slow", Environment::Dev);
    let d = tools.run_diagnostic_checks(&i, &hypothesis("capacity saturation", "r", 78));
    assert_eq!(values(&d), vec![ev("diagnostics", "hypothesis check", "cpu saturation at 91% on primary pod set", 82)]);
    assert_eq!(d.confidence, 82);
    let d = tools.run_diagnostic_checks(&i, &hypothesis("other", "r", 1));
    assert_eq!(values(&d), vec![ev("diagnostics", "hypothesis check", "db connection pool wait elevated to 220ms", 82)]);
    let d = tools.run_diagnostic_checks(&incident("svc", "x", Environment::Dev), &hypothesis("other", "r", 1));
    assert_eq!(values(&d)[0].2.as_deref(), Some("insufficient direct signal"));
    let d = tools.run_diagnostic_checks(&incident("svc", "after deploy", Environment::Dev), &hypothesis("capacity", "r", 1));
    assert_eq!(values(&d)[0].2.as_deref(), Some("new deployment started 11m before incident"));

    // Execution and verification are reached through a run, which alone
    // may carry out a plan.
    let report = agent().run(incident("svc", "latency", Environment::Dev));
    assert_eq!(report.final_state, AgentState::Closed);
    assert_eq!(
        report.findings[report.findings.len() - 3..].to_vec(),
        vec![
            "executor => mitigation result = scaled replicas from 6 -> 10 (conf 0.94)",
            "prometheus => p95 latency = 280ms (conf 0.96)",
            "grafana => 5xx error rate = 0.2% (conf 0.95)",
        ]
    );
}

#[test]
fn evidence_is_stamped_now() {
    let e = make_evidence("a", "b", None, 3);
    assert_eq!((e.source.as_str(), e.detail.as_str(), e.value.clone(), e.confidence), ("a", "b", None, 3));
    assert!(!e.observed_at.is_empty() && e.observed_at.chars().all(|c| c.is_ascii_digit()));
}

fn agent() -> SreAgent<MockSreTools, RuleBasedApprovalGate> {
    SreAgent::new(MockSreTools, PolicyEngine, RuleBasedApprovalGate, KnowledgeMemory::with_defaults())
}

fn messages(timeline: &[String]) -> Vec<String> {
    timeline.iter().map(|l| l[l.find(']').unwrap() + 1..].to_string()).collect()
}

#[test]
fn staging_latency_incident_runs_to_closure() {
    let report = agent().run(incident("payments-api", "latency spike after deploy", Environment::Staging));
    assert_eq!(report.final_state, AgentState::Closed);
    let plan = report.selected_mitigation.unwrap();
    assert_eq!(plan.action, ActionType::ScaleService);
    assert_eq!(
        report.findings,
        vec![
            "prometheus => p95 latency = 1320ms (conf 0.92)",
            "diagnostics => hypothesis check = new deployment started 11m before incident (conf 0.82)",
            "executor => mitigation result = scaled replicas from 6 -> 10 (conf 0.94)",
            "prometheus => p95 latency = 280ms (conf 0.96)",
            "grafana => 5xx error rate = 0.2% (conf 0.95)",
        ]
    );
    assert_eq!(
        messages(&report.timeline),
        vec![
            "[Intake] incident inc-7 received for service payments-api",
            "[Intake] runbook attached as citation: payments-api-latency-runbook:v3",
            "[Triage] collecting baseline telemetry",
            "[Hypothesis] generating candidate root-cause hypotheses",
            "[Hypothesis] selected hypothesis: capacity saturation (0.78)",
            "[Diagnose] running focused diagnostic checks",
            "[MitigationPlan] building mitigation plan",
            "[MitigationPlan] planned action: ScaleService targeting payments-api",
            "[Approval] evaluating policy for proposed action",
            "[Approval] policy decision => allowed: true, requires approval: true, reason: staging medium/high risk requires approval",
            "[Approval] approval result => approved: true, by: oncall-human, note: approval granted: staging medium/high risk requires approval",
            "[Execute] executing mitigation",
            "[Verify] verifying recovery signals",
            "[Closeout] preparing closeout summary",
            "[Closeout] recovery checks healthy",
            "[Closed] incident workflow finished",
        ]
    );
}

#[test]
fn prod_latency_incident_is_blocked_by_the_approver() {
    let report = agent().run(incident("gateway", "Latency spike", Environment::Prod));
    assert_eq!(report.final_state, AgentState::Blocked);
    let m = messages(&report.timeline);
    assert_eq!(m[1], "[Intake] runbook attached as citation: gateway-error-budget-runbook:v2");
    assert_eq!(m[m.len() - 2], "[Approval] approval result => approved: false, by: oncall-human, note: approval denied: prod medium-risk action requires approval");
    assert_eq!(m[m.len() - 1], "[Blocked] incident blocked: approval denied");
    assert!(m.iter().all(|l| !l.starts_with("[Execute]")));
    assert_eq!(report.findings.len(), 2);
}

#[test]
fn prod_payments_incident_is_blocked_with_baseline_and_diagnostic_findings() {
    let mut i = incident("payments-api", "latency spike after deploy", Environment::Prod);
    i.incident_id = "inc-1".to_string();
    let report = agent().run(i);
    assert_eq!(report.final_state, AgentState::Blocked);
    assert_eq!(
        report.findings,
        vec![
            "prometheus => p95 latency = 1320ms (conf 0.92)",
            "diagnostics => hypothesis check = new deployment started 11m before incident (conf 0.82)",
        ]
    );
    assert_eq!(report.selected_mitigation.unwrap().action, ActionType::ScaleService);
    assert!(report.timeline.last().unwrap().ends_with("[Blocked] incident blocked: approval denied"));
}

#[test]
fn low_risk_dev_incident_needs_no_approval() {
    let report = agent().run(incident("search", "crash loop", Environment::Dev));
    assert_eq!(report.final_state, AgentState::Closed);
    let plan = report.selected_mitigation.unwrap();
    assert_eq!(plan.action, ActionType::RestartService);
    let m = messages(&report.timeline);
    assert_eq!(m[1], "[Triage] collecting baseline telemetry");
    assert_eq!(m[3], "[Hypothesis] selected hypothesis: dependency degradation (0.66)");
    assert!(m.iter().all(|l| !l.starts_with("[Approval] approval result")));
    assert_eq!(m.last().unwrap(), "[Closed] incident workflow finished");
}

#[test]
fn policy_block_stops_the_run_before_execution() {
    let report = agent().run(incident("all services", "latency", Environment::Dev));
    assert_eq!(report.final_state, AgentState::Blocked);
    let m = messages(&report.timeline);
    assert_eq!(m[m.len() - 2], "[Approval] policy decision => allowed: false, requires approval: false, reason: blocked: blast radius too broad");
    assert_eq!(m[m.len() - 1], "[Blocked] incident blocked by policy");
    assert!(m.iter().all(|l| !l.starts_with("[Execute]")));
}

fn stage(line: &str) -> u8 {
    let name = &line[1..line.find(']').unwrap()];
    match name {
        "Intake" => 0,
        "Triage" => 1,
        "Hypothesis" => 2,
        "Diagnose" => 3,
        "MitigationPlan" => 4,
        "Approval" => 5,
        "Execute" => 6,
        "Verify" => 7,
        "Closeout" => 8,
        "Closed" => 9,
        _ => 10,
    }
}

#[test]
fn timelines_move_forward() {
    for (service, summary, env) in [
        ("payments-api", "latency", Environment::Prod),
        ("x", "error after deploy", Environment::Staging),
        ("all services", "crash", Environment::Dev),
        ("y", "nothing", Environment::Prod),
    ] {
        let report = agent().run(incident(service, summary, env));
        let m = messages(&report.timeline);
        for w in m.windows(2) {
            assert!(stage(&w[0]) <= stage(&w[1]));
        }
        if m.last().unwrap().starts_with("[Blocked]") {
            assert!(m[m.len() - 2].starts_with("[Approval]"));
        }
        let citations = m.iter().filter(|l| l.starts_with("[Intake] runbook")).count();
        assert_eq!(citations, if service == "payments-api" { 1 } else { 0 });
        assert_eq!(m[0], format!("[Intake] incident inc-7 received for service {}", service));
    }
}

#[test]
fn latency_incidents_are_scaled() {
    for env in [Environment::Prod, Environment::Staging, Environment::Dev] {
        let report = agent().run(incident("svc", "LATENCY and errors", env));
        let plan = report.selected_mitigation.unwrap();
        assert_eq!(plan.action, ActionType::ScaleService);
        assert_eq!(plan.risk_level, RiskLevel::Medium);
    }
}

#[test]
fn planned_action_follows_the_summary() {
    let cases = [
        ("5xx ERROR spike", ActionType::RollbackRelease),
        ("slow after deploy", ActionType::RollbackRelease),
        ("crash loop", ActionType::RestartService),
        ("odd behaviour", ActionType::FlipFeatureFlag),
        ("latency after deploy", ActionType::ScaleService),
    ];
    for (summary, action) in cases {
        let report = agent().run(incident("svc", summary, Environment::Dev));
        assert_eq!(report.selected_mitigation.unwrap().action, action, "{}", summary);
    }
}

struct FixedBackend;

impl ToolBackend for FixedBackend {
    fn collect_baseline(&self, _incident: &IncidentInput) -> Vec<ToolResponse> {
        vec![response(70, vec![evidence("loki", "top error log", Some("rollout of deployment v42 failed"), 60)])]
    }

    fn run_diagnostic_checks(&self, _incident: &IncidentInput, hypothesis: &Hypothesis) -> ToolResponse {
        response(50, vec![evidence("probe", "checked", Some(&hypothesis.title), 50)])
    }

    fn execute_mitigation(&self, _incident: &IncidentInput, _plan: &sentinel_sre::domain::MitigationPlan) -> ToolResponse {
        response(90, vec![evidence("webhook", "remediation", Some("accepted"), 90)])
    }

    fn verify_recovery(&self, _incident: &IncidentInput) -> ToolResponse {
        ToolResponse { status: ToolStatus::Partial, evidence: vec![], confidence: 40, safe_next_actions: vec![] }
    }
}

#[test]
fn observed_backend_answers_flow_into_the_report() {
    let agent = SreAgent::new(
        ObservedTools { backend: FixedBackend },
        PolicyEngine,
        RuleBasedApprovalGate,
        KnowledgeMemory::with_defaults(),
    );
    let report = agent.run(incident("checkout", "odd behaviour", Environment::Dev));
    assert_eq!(report.final_state, AgentState::Closed);
    assert_eq!(report.selected_mitigation.unwrap().action, ActionType::RollbackRelease);
    assert_eq!(
        report.findings,
        vec![
            "loki => top error log = rollout of deployment v42 failed (conf 0.60)",
            "probe => checked = deployment regression (conf 0.50)",
            "webhook => remediation = accepted (conf 0.90)",
        ]
    );
    let m = messages(&report.timeline);
    assert_eq!(m[m.len() - 2], "[Closeout] recovery uncertain");
}
