use sentinel_sre::cli::{OutputFormat, ReplConfig, RunConfig};
use sentinel_sre::config::{ProviderConfig, RuntimeMode};
use sentinel_sre::console::{
    report_json, toolset_mode, doctor_mock_lines, doctor_real_lines, handle_repl_line, new_incident_id, report_text_lines, run_incident,
    status_line, summarize_optional, summarize_presence, ReplAction,
};
use sentinel_sre::domain::{ActionType, AgentState, Environment, IncidentReport, MitigationPlan, RiskLevel, Severity};
use sentinel_sre::providers::JsonValue;
use sentinel_sre::tools::MockSreTools;

fn repl() -> ReplConfig {
    ReplConfig {
        service: "payments-api".to_string(),
        severity: Severity::Sev2,
        environment: Environment::Staging,
        mode: RuntimeMode::Mock,
        output: OutputFormat::Text,
    }
}

fn said(a: ReplAction) -> String {
    match a {
        ReplAction::Say(m) => m,
        other => panic!("unexpected {:?}", other),
    }
}

#[test]
fn presence_summaries() {
    assert_eq!(summarize_presence("http://x"), "set");
    assert_eq!(summarize_presence(" \t "), "missing");
    assert_eq!(summarize_presence(""), "missing");
    assert_eq!(summarize_optional(&Some("t".to_string())), "set");
    assert_eq!(summarize_optional(&None), "not set");
}

#[test]
fn status_line_names_every_setting() {
    assert_eq!(status_line(&repl()), "service=payments-api severity=Sev2 env=Staging mode=Mock output=Text");
}

#[test]
fn session_commands() {
    let mut c = repl();
    assert!(matches!(handle_repl_line(&mut c, "   "), ReplAction::Skip));
    assert!(matches!(handle_repl_line(&mut c, "  /EXIT "), ReplAction::Exit));
    assert!(matches!(handle_repl_line(&mut c, "/quit"), ReplAction::Exit));
    assert!(matches!(handle_repl_line(&mut c, "/Help"), ReplAction::ShowHelp));
    assert!(matches!(handle_repl_line(&mut c, "/benefits"), ReplAction::ShowBenefits));
    assert!(matches!(handle_repl_line(&mut c, "/doctor"), ReplAction::RunDoctor(RuntimeMode::Mock)));
    match handle_repl_line(&mut c, "/status") {
        ReplAction::ShowStatus(s) => assert_eq!(s, "service=payments-api severity=Sev2 env=Staging mode=Mock output=Text"),
        other => panic!("unexpected {:?}", other),
    }
}

#[test]
fn session_settings() {
    let mut c = repl();
    assert_eq!(said(handle_repl_line(&mut c, "/set severity SEV1")), "updated severity=SEV1");
    assert_eq!(c.severity, Severity::Sev1);
    assert_eq!(said(handle_repl_line(&mut c, "/set env  prod ")), "updated env=prod");
    assert_eq!(c.environment, Environment::Prod);
    assert_eq!(said(handle_repl_line(&mut c, "/set service checkout api")), "updated service=checkout api");
    assert_eq!(c.service, "checkout api");
    assert_eq!(said(handle_repl_line(&mut c, "/set mode real")), "updated mode=real");
    assert_eq!(c.mode, RuntimeMode::Real);
    assert_eq!(said(handle_repl_line(&mut c, "/set output json")), "updated output=json");
    assert_eq!(c.output, OutputFormat::Json);
}

#[test]
fn session_setting_errors() {
    let mut c = repl();
    assert_eq!(said(handle_repl_line(&mut c, "/set env")), "usage: /set <service|severity|env|mode|output> <value>");
    assert_eq!(said(handle_repl_line(&mut c, "/set env   ")), "usage: /set <service|severity|env|mode|output> <value>");
    assert_eq!(said(handle_repl_line(&mut c, "/set colour red")), "unknown key 'colour'");
    assert_eq!(c.environment, Environment::Staging);
    assert_eq!(c.service, "payments-api");
}

#[test]
fn other_lines_are_incident_summaries() {
    let mut c = repl();
    match handle_repl_line(&mut c, "  DB latency spike  ") {
        ReplAction::RunIncident(r) => {
            assert_eq!(r.summary, "DB latency spike");
            assert_eq!(r.service, "payments-api");
            assert_eq!(r.severity, Severity::Sev2);
            assert_eq!(r.environment, Environment::Staging);
            assert_eq!(r.mode, RuntimeMode::Mock);
            assert_eq!(r.output, OutputFormat::Text);
        }
        other => panic!("unexpected {:?}", other),
    }
    assert!(matches!(handle_repl_line(&mut c, "/SET env prod"), ReplAction::RunIncident(_)));
}

#[test]
fn doctor_reports() {
    assert_eq!(
        doctor_mock_lines(),
        vec!["Sentinel-SRE doctor", "mode: Mock", "mock mode ready", "no external integrations required"]
    );
    let c = ProviderConfig::from_settings(None, Some("  ".to_string()), None, None, None, Some("t".to_string()), None);
    assert_eq!(
        doctor_real_lines(&c),
        vec![
            "Sentinel-SRE doctor",
            "mode: Real",
            "SC_PROMETHEUS_URL: set",
            "SC_LOKI_URL: missing",
            "SC_K8S_API_URL: set",
            "SC_K8S_NAMESPACE: set",
            "SC_SERVICE_LABEL_KEY: set",
            "SC_API_BEARER_TOKEN: set",
            "SC_REMEDIATION_WEBHOOK_URL: not set",
            "real mode configured (endpoint reachability depends on network and credentials)",
        ]
    );
}

#[test]
fn text_report() {
    let report = IncidentReport {
        final_state: AgentState::Blocked,
        timeline: vec!["[1][Intake] a".to_string()],
        findings: vec!["f1".to_string(), "f2".to_string()],
        selected_mitigation: Some(MitigationPlan {
            action: ActionType::FlipFeatureFlag,
            target: "svc".to_string(),
            reason: "why".to_string(),
            risk_level: RiskLevel::Low,
            blast_radius_estimate: "single service: svc".to_string(),
            rollback_steps: vec![],
        }),
    };
    assert_eq!(
        report_text_lines(&report),
        vec![
            "final_state: Blocked",
            "findings:",
            "  - f1",
            "  - f2",
            "selected_mitigation:",
            "  action: FlipFeatureFlag",
            "  target: svc",
            "  risk: Low",
            "  reason: why",
            "timeline:",
            "  - [1][Intake] a",
        ]
    );
    let bare = IncidentReport { final_state: AgentState::Closed, timeline: vec![], findings: vec![], selected_mitigation: None };
    assert_eq!(report_text_lines(&bare), vec!["final_state: Closed", "findings:", "timeline:"]);
}

#[test]
fn incident_ids_carry_the_time() {
    let id = new_incident_id();
    assert!(id.starts_with("inc-"));
    assert!(id[4..].chars().all(|c| c.is_ascii_digit()) && id.len() > 4);
}

#[test]
fn one_shot_run_with_the_simulated_tools() {
    let config = RunConfig {
        service: "payments-api".to_string(),
        summary: "latency spike".to_string(),
        severity: Severity::Sev1,
        environment: Environment::Prod,
        mode: RuntimeMode::Mock,
        output: OutputFormat::Text,
    };
    let report = run_incident(&config, MockSreTools);
    assert_eq!(report.final_state, AgentState::Blocked);
    assert!(report.timeline[0].contains("[Intake] incident inc-"));
    assert!(report.timeline[0].ends_with(" received for service payments-api"));
    assert!(report.timeline.last().unwrap().ends_with("[Blocked] incident blocked: approval denied"));
}

#[test]
fn one_shot_gateway_errors_roll_out_a_flag_flip() {
    let config = RunConfig {
        service: "gateway".to_string(),
        summary: "5xx spike in prod".to_string(),
        severity: Severity::Sev1,
        environment: Environment::Prod,
        mode: RuntimeMode::Mock,
        output: OutputFormat::Json,
    };
    let report = run_incident(&config, MockSreTools);
    assert_eq!(report.final_state, AgentState::Closed);
    assert_eq!(report.findings.len(), 5);
    let plan = report.selected_mitigation.unwrap();
    assert_eq!(plan.action, ActionType::FlipFeatureFlag);
    assert_eq!(plan.risk_level, RiskLevel::Low);
    assert!(report.timeline[1].ends_with("runbook attached as citation: gateway-error-budget-runbook:v2"));
    assert!(report.timeline[0].contains("incident inc-"));
}

#[test]
fn status_reflects_a_setting() {
    let mut c = repl();
    handle_repl_line(&mut c, "/set env production");
    handle_repl_line(&mut c, "/set output JSON");
    match handle_repl_line(&mut c, "/status") {
        ReplAction::ShowStatus(s) => assert_eq!(s, "service=payments-api severity=Sev2 env=Prod mode=Mock output=Json"),
        other => panic!("unexpected {:?}", other),
    }
}

fn json_text(v: &JsonValue) -> String {
    match v {
        JsonValue::Null => "null".to_string(),
        JsonValue::Bool(b) => b.to_string(),
        JsonValue::Number(Some(n)) => n.to_string(),
        JsonValue::Number(None) => "?".to_string(),
        JsonValue::Str(s) => format!("{:?}", s),
        JsonValue::Array(items) => format!("[{}]", items.iter().map(json_text).collect::<Vec<_>>().join(",")),
        JsonValue::Object(members) => format!(
            "{{{}}}",
            members.iter().map(|(k, v)| format!("{:?}:{}", k, json_text(v))).collect::<Vec<_>>().join(",")
        ),
    }
}

#[test]
fn json_report_documents() {
    let report = IncidentReport {
        final_state: AgentState::Blocked,
        timeline: vec!["[1][Intake] a".to_string()],
        findings: vec![],
        selected_mitigation: None,
    };
    assert_eq!(
        json_text(&report_json(&report)),
        r#"{"final_state":"Blocked","findings":[],"timeline":["[1][Intake] a"],"selected_mitigation":null}"#
    );
    let report = IncidentReport {
        final_state: AgentState::Closed,
        timeline: vec![],
        findings: vec!["f".to_string()],
        selected_mitigation: Some(MitigationPlan {
            action: ActionType::ScaleService,
            target: "api".to_string(),
            reason: "r".to_string(),
            risk_level: RiskLevel::Medium,
            blast_radius_estimate: "single service: api".to_string(),
            rollback_steps: vec!["s1".to_string(), "s2".to_string()],
        }),
    };
    assert_eq!(
        json_text(&report_json(&report)),
        r#"{"final_state":"Closed","findings":["f"],"timeline":[],"selected_mitigation":{"action":"ScaleService","target":"api","risk":"Medium","reason":"r","blast_radius_estimate":"single service: api","rollback_steps":["s1","s2"]}}"#
    );
}

#[test]
fn real_mode_falls_back_when_setup_fails() {
    assert_eq!(toolset_mode(RuntimeMode::Mock, None), (RuntimeMode::Mock, None));
    assert_eq!(toolset_mode(RuntimeMode::Real, None), (RuntimeMode::Real, None));
    assert_eq!(
        toolset_mode(RuntimeMode::Real, Some("no client".to_string())),
        (RuntimeMode::Mock, Some("failed to initialize real tools (no client), falling back to mock mode".to_string()))
    );
}
