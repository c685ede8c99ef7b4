use sentinel_sre::config::ProviderConfig;
use sentinel_sre::domain::{ActionType, Environment, Hypothesis, IncidentInput, MitigationPlan, RiskLevel, Severity, ToolStatus, ToolResponse};
use sentinel_sre::providers::{
    authorization_value, baseline_from_outcomes, deploy_log_query, diagnostic_from_outcome, diagnostic_query,
    error_log_query, execution_from_outcome, k8s_label_selector, k8s_pods_url, loki_query_url, loki_top_line,
    prometheus_query_url, prometheus_scalar, remediation_fields, remediation_result, restart_count_summary,
    verification_from_outcomes, JsonValue, QueryBackend, CPU_QUERY, ERROR_RATE_QUERY, LATENCY_QUERY,
    OPEN_FDS_QUERY,
};

fn s(t: &str) -> JsonValue {
    JsonValue::Str(t.to_string())
}

fn obj(members: Vec<(&str, JsonValue)>) -> JsonValue {
    JsonValue::Object(members.into_iter().map(|(k, v)| (k.to_string(), v)).collect())
}

fn arr(items: Vec<JsonValue>) -> JsonValue {
    JsonValue::Array(items)
}

fn config() -> ProviderConfig {
    ProviderConfig::from_settings(None, None, None, Some("prod".to_string()), None, Some("abc".to_string()), None)
}

#[test]
fn prometheus_reply_value() {
    let reply = obj(vec![(
        "data",
        obj(vec![("result", arr(vec![obj(vec![("value", arr(vec![JsonValue::Number(Some(1725029869)), s("0.42")]))])]))]),
    )]);
    assert_eq!(prometheus_scalar(&reply).as_deref(), Some("0.42"));
    let empty = obj(vec![("data", obj(vec![("result", arr(vec![]))]))]);
    assert_eq!(prometheus_scalar(&empty), None);
    let not_text = obj(vec![(
        "data",
        obj(vec![("result", arr(vec![obj(vec![("value", arr(vec![JsonValue::Null, JsonValue::Number(Some(3))]))])]))]),
    )]);
    assert_eq!(prometheus_scalar(&not_text), None);
    assert_eq!(prometheus_scalar(&JsonValue::Bool(true)), None);
}

#[test]
fn loki_reply_line() {
    let reply = obj(vec![(
        "data",
        obj(vec![(
            "result",
            arr(vec![obj(vec![("values", arr(vec![arr(vec![s("1700000000000000000"), s("ERROR db timeout")])]))])]),
        )]),
    )]);
    assert_eq!(loki_top_line(&reply).as_deref(), Some("ERROR db timeout"));
    assert_eq!(loki_top_line(&obj(vec![])), None);
}

fn pod(counts: Vec<JsonValue>) -> JsonValue {
    obj(vec![(
        "status",
        obj(vec![(
            "containerStatuses",
            arr(counts.into_iter().map(|c| obj(vec![("name", s("c")), ("restartCount", c)])).collect()),
        )]),
    )])
}

#[test]
fn restart_counts_are_summed() {
    let listing = obj(vec![(
        "items",
        arr(vec![
            pod(vec![JsonValue::Number(Some(3)), JsonValue::Number(Some(4))]),
            pod(vec![JsonValue::Number(None), s("9")]),
            obj(vec![("status", obj(vec![]))]),
            pod(vec![JsonValue::Number(Some(5))]),
        ]),
    )]);
    assert_eq!(restart_count_summary(&listing), Ok(Some("12".to_string())));
    assert_eq!(restart_count_summary(&obj(vec![])), Ok(Some("0".to_string())));
    let negative = obj(vec![("items", arr(vec![pod(vec![JsonValue::Number(Some(-7))])]))]);
    assert_eq!(restart_count_summary(&negative), Ok(Some("-7".to_string())));
}

#[test]
fn restart_count_overflow_is_an_error() {
    let listing = obj(vec![(
        "items",
        arr(vec![pod(vec![JsonValue::Number(Some(i64::MAX))]), pod(vec![JsonValue::Number(Some(1))])]),
    )]);
    assert_eq!(restart_count_summary(&listing), Err("restart count overflow".to_string()));
    let min = obj(vec![("items", arr(vec![pod(vec![JsonValue::Number(Some(i64::MIN))])]))]);
    assert_eq!(restart_count_summary(&min), Ok(Some(i64::MIN.to_string())));
}

#[test]
fn queries_and_endpoints() {
    let c = config();
    assert_eq!(LATENCY_QUERY, "histogram_quantile(0.95, sum(rate(http_request_duration_seconds_bucket[5m])) by (le))");
    assert_eq!(ERROR_RATE_QUERY, "sum(rate(http_requests_total{status=~\"5..\"}[5m]))");
    assert_eq!(error_log_query("payments-api"), "{service=\"payments-api\"} |= \"error\"");
    assert_eq!(deploy_log_query("gw"), "{service=\"gw\"} |= \"deploy\" |~ \"rollout|revision\"");
    assert_eq!(prometheus_query_url(&c), "http://localhost:9090/api/v1/query");
    assert_eq!(loki_query_url(&c), "http://localhost:3100/loki/api/v1/query_range");
    assert_eq!(k8s_pods_url(&c), "https://kubernetes.default.svc/api/v1/namespaces/prod/pods");
    assert_eq!(k8s_label_selector(&c, "gw"), "app=gw");
    assert_eq!(authorization_value(&c).as_deref(), Some("Bearer abc"));
    let anonymous = ProviderConfig::from_settings(None, None, None, None, None, None, None);
    assert_eq!(authorization_value(&anonymous), None);
}

fn values(r: &ToolResponse) -> Vec<(String, String, Option<String>, u32)> {
    r.evidence.iter().map(|e| (e.source.clone(), e.detail.clone(), e.value.clone(), e.confidence)).collect()
}

fn ev(s: &str, d: &str, v: Option<&str>, c: u32) -> (String, String, Option<String>, u32) {
    (s.to_string(), d.to_string(), v.map(|x| x.to_string()), c)
}

#[test]
fn baseline_with_every_query_answered() {
    let r = baseline_from_outcomes(&Ok(Some("0.8".to_string())), &Ok(None), &Ok(Some("line".to_string())), &Ok(Some("2".to_string())));
    assert_eq!(r.len(), 1);
    assert_eq!(r[0].status, ToolStatus::Success);
    assert_eq!(r[0].confidence, 88);
    assert_eq!(
        values(&r[0]),
        vec![
            ev("prometheus", "p95 latency", Some("0.8"), 90),
            ev("prometheus", "5xx error rate", None, 88),
            ev("loki", "latest error log line", Some("line"), 75),
            ev("kubernetes", "aggregate pod restart count", Some("2"), 82),
        ]
    );
    assert_eq!(
        r[0].safe_next_actions,
        vec!["cross-check recent deployment and alert timeline", "evaluate dependency saturation vs regression"]
    );
}

#[test]
fn baseline_with_a_failed_query_is_partial() {
    let r = baseline_from_outcomes(&Ok(None), &Err("boom".to_string()), &Ok(None), &Ok(None));
    assert_eq!(r[0].status, ToolStatus::Partial);
    assert_eq!(r[0].confidence, 66);
    assert_eq!(values(&r[0])[1], ev("prometheus", "5xx query error", Some("boom"), 20));
}

fn incident() -> IncidentInput {
    IncidentInput {
        incident_id: "inc-9".to_string(),
        service: "gw".to_string(),
        summary: "s".to_string(),
        severity: Severity::Sev1,
        environment: Environment::Prod,
    }
}

fn hypothesis(title: &str) -> Hypothesis {
    Hypothesis { title: title.to_string(), rationale: "r".to_string(), confidence: 1 }
}

#[test]
fn diagnostic_query_follows_the_hypothesis() {
    let q = diagnostic_query(&incident(), &hypothesis("Capacity saturation"));
    assert_eq!(q.backend, QueryBackend::Prometheus);
    assert_eq!(q.query, CPU_QUERY);
    assert_eq!((q.source.as_str(), q.detail.as_str(), q.confidence, q.failure_detail.as_str()), ("prometheus", "cpu utilization signal", 84, "cpu query error"));
    let q = diagnostic_query(&incident(), &hypothesis("deployment regression"));
    assert_eq!(q.backend, QueryBackend::Loki);
    assert_eq!(q.query, "{service=\"gw\"} |= \"deploy\" |~ \"rollout|revision\"");
    assert_eq!((q.detail.as_str(), q.confidence), ("deployment trace in logs", 78));
    let q = diagnostic_query(&incident(), &hypothesis("dependency degradation"));
    assert_eq!(q.query, OPEN_FDS_QUERY);
    assert_eq!((q.detail.as_str(), q.confidence, q.failure_detail.as_str()), ("dependency pressure proxy", 73, "dependency proxy query error"));
}

#[test]
fn diagnostic_response_from_outcome() {
    let q = diagnostic_query(&incident(), &hypothesis("capacity"));
    let r = diagnostic_from_outcome(&q, &Ok(Some("0.91".to_string())));
    assert_eq!((r.status, r.confidence), (ToolStatus::Success, 82));
    assert_eq!(values(&r), vec![ev("prometheus", "cpu utilization signal", Some("0.91"), 84)]);
    assert_eq!(r.safe_next_actions, vec!["pick smallest blast-radius remediation candidate"]);
    let r = diagnostic_from_outcome(&q, &Err("timeout".to_string()));
    assert_eq!((r.status, r.confidence), (ToolStatus::Partial, 58));
    assert_eq!(values(&r), vec![ev("prometheus", "cpu query error", Some("timeout"), 20)]);
}

#[test]
fn execution_response_from_outcome() {
    let r = execution_from_outcome(&Ok("done".to_string()));
    assert_eq!((r.status, r.confidence), (ToolStatus::Success, 88));
    assert_eq!(values(&r), vec![ev("remediation", "execution gateway response", Some("done"), 88)]);
    assert_eq!(r.safe_next_actions, vec!["verify SLO recovery over 10-minute window"]);
    let r = execution_from_outcome(&Err("refused".to_string()));
    assert_eq!((r.status, r.confidence), (ToolStatus::Error, 20));
    assert_eq!(values(&r), vec![ev("remediation", "execution gateway failure", Some("refused"), 20)]);
    assert_eq!(r.safe_next_actions, vec!["stop automation and request manual operator action"]);
}

#[test]
fn verification_response_from_outcomes() {
    let r = verification_from_outcomes(&Ok(Some("0.3".to_string())), &Ok(Some("0.01".to_string())));
    assert_eq!((r.status, r.confidence), (ToolStatus::Success, 90));
    assert_eq!(
        values(&r),
        vec![
            ev("prometheus", "post-mitigation p95 latency", Some("0.3"), 92),
            ev("prometheus", "post-mitigation 5xx rate", Some("0.01"), 92)
        ]
    );
    let r = verification_from_outcomes(&Err("x".to_string()), &Ok(None));
    assert_eq!((r.status, r.confidence), (ToolStatus::Partial, 60));
    assert_eq!(values(&r)[0], ev("prometheus", "latency verify query error", Some("x"), 20));
}

#[test]
fn remediation_request_members() {
    let plan = MitigationPlan {
        action: ActionType::RollbackRelease,
        target: "gw".to_string(),
        reason: "why".to_string(),
        risk_level: RiskLevel::Medium,
        blast_radius_estimate: "single service: gw".to_string(),
        rollback_steps: vec![],
    };
    let fields = remediation_fields(&incident(), &plan);
    let expected: Vec<(String, String)> = [
        ("incident_id", "inc-9"),
        ("service", "gw"),
        ("action", "RollbackRelease"),
        ("target", "gw"),
        ("reason", "why"),
        ("risk_level", "Medium"),
    ]
    .iter()
    .map(|(k, v)| (k.to_string(), v.to_string()))
    .collect();
    assert_eq!(fields, expected);
}

#[test]
fn remediation_results() {
    assert_eq!(remediation_result(None), Ok("no remediation webhook configured; emitted dry-run only".to_string()));
    assert_eq!(
        remediation_result(Some(Ok(Some(obj(vec![("status", s("queued"))]))))),
        Ok("webhook accepted remediation request (queued)".to_string())
    );
    assert_eq!(
        remediation_result(Some(Ok(Some(obj(vec![("status", JsonValue::Number(Some(1)))]))))),
        Ok("webhook accepted remediation request (accepted)".to_string())
    );
    assert_eq!(remediation_result(Some(Ok(None))), Ok("webhook accepted remediation request (accepted)".to_string()));
    assert_eq!(remediation_result(Some(Err("non-success status".to_string()))), Err("non-success status".to_string()));
}
