use sentinel_sre::approval::{ApprovalGate, RuleBasedApprovalGate};
use sentinel_sre::domain::{ActionType, Environment, IncidentInput, MitigationPlan, RiskLevel, Severity};
use sentinel_sre::policy::PolicyEngine;

fn incident(env: Environment) -> IncidentInput {
    IncidentInput {
        incident_id: "inc-1".to_string(),
        service: "payments-api".to_string(),
        summary: "latency spike".to_string(),
        severity: Severity::Sev2,
        environment: env,
    }
}

fn plan(risk: RiskLevel, blast: &str, steps: usize) -> MitigationPlan {
    MitigationPlan {
        action: ActionType::ScaleService,
        target: "payments-api".to_string(),
        reason: "r".to_string(),
        risk_level: risk,
        blast_radius_estimate: blast.to_string(),
        rollback_steps: (0..steps).map(|i| format!("step {}", i)).collect(),
    }
}

fn decide(env: Environment, risk: RiskLevel) -> (bool, bool, String) {
    let d = PolicyEngine.evaluate(&incident(env), &plan(risk, "single service: payments-api", 2));
    (d.allowed, d.requires_approval, d.reason)
}

#[test]
fn missing_rollback_is_blocked_everywhere() {
    for env in [Environment::Prod, Environment::Staging, Environment::Dev] {
        for risk in [RiskLevel::Low, RiskLevel::Medium, RiskLevel::High] {
            let d = PolicyEngine.evaluate(&incident(env), &plan(risk, "single service: x", 0));
            assert!(!d.allowed);
            assert!(!d.requires_approval);
            assert_eq!(d.reason, "blocked: mitigation has no rollback steps");
        }
    }
}

#[test]
fn broad_blast_radius_is_blocked() {
    let d = PolicyEngine.evaluate(&incident(Environment::Dev), &plan(RiskLevel::Low, "ALL Services in region", 1));
    assert!(!d.allowed);
    assert!(!d.requires_approval);
    assert_eq!(d.reason, "blocked: blast radius too broad");
}

#[test]
fn rollback_check_comes_before_blast_check() {
    let d = PolicyEngine.evaluate(&incident(Environment::Dev), &plan(RiskLevel::Low, "all services", 0));
    assert_eq!(d.reason, "blocked: mitigation has no rollback steps");
}

#[test]
fn prod_decisions() {
    assert_eq!(decide(Environment::Prod, RiskLevel::Low), (true, true, "prod low-risk action requires approval".to_string()));
    assert_eq!(decide(Environment::Prod, RiskLevel::Medium), (true, true, "prod medium-risk action requires approval".to_string()));
    assert_eq!(decide(Environment::Prod, RiskLevel::High), (false, false, "prod high-risk action blocked by policy".to_string()));
}

#[test]
fn staging_decisions() {
    assert_eq!(decide(Environment::Staging, RiskLevel::Low), (true, false, "staging low-risk action allowed".to_string()));
    assert_eq!(decide(Environment::Staging, RiskLevel::Medium), (true, true, "staging medium/high risk requires approval".to_string()));
    assert_eq!(decide(Environment::Staging, RiskLevel::High), (true, true, "staging medium/high risk requires approval".to_string()));
}

#[test]
fn dev_decisions() {
    assert_eq!(decide(Environment::Dev, RiskLevel::Low), (true, false, "dev low/medium risk action allowed".to_string()));
    assert_eq!(decide(Environment::Dev, RiskLevel::Medium), (true, false, "dev low/medium risk action allowed".to_string()));
    assert_eq!(decide(Environment::Dev, RiskLevel::High), (true, true, "dev high-risk action requires approval".to_string()));
}

fn strictness(d: &(bool, bool, String)) -> u8 {
    if !d.0 {
        2
    } else if d.1 {
        1
    } else {
        0
    }
}

#[test]
fn policy_is_monotone_in_environment_and_risk() {
    let envs = [Environment::Dev, Environment::Staging, Environment::Prod];
    let risks = [RiskLevel::Low, RiskLevel::Medium, RiskLevel::High];
    for (ei, e1) in envs.iter().enumerate() {
        for e2 in &envs[ei..] {
            for (ri, r1) in risks.iter().enumerate() {
                for r2 in &risks[ri..] {
                    assert!(strictness(&decide(*e1, *r1)) <= strictness(&decide(*e2, *r2)));
                }
            }
        }
    }
}

#[test]
fn blocked_decisions_never_ask_for_approval() {
    for env in [Environment::Prod, Environment::Staging, Environment::Dev] {
        for risk in [RiskLevel::Low, RiskLevel::Medium, RiskLevel::High] {
            let d = decide(env, risk);
            assert!(d.0 || !d.1);
        }
    }
}

#[test]
fn rule_gate_denies_risky_prod_actions() {
    let gate = RuleBasedApprovalGate;
    let reason = "prod medium-risk action requires approval";
    let d = gate.request_approval(&incident(Environment::Prod), &plan(RiskLevel::Medium, "x", 1), reason);
    assert!(!d.approved);
    assert_eq!(d.approver, "oncall-human");
    assert_eq!(d.note, "approval denied: prod medium-risk action requires approval");
}

#[test]
fn rule_gate_grants_the_rest() {
    let gate = RuleBasedApprovalGate;
    let d = gate.request_approval(
        &incident(Environment::Prod),
        &plan(RiskLevel::Low, "x", 1),
        "prod low-risk action requires approval",
    );
    assert!(d.approved);
    assert_eq!(d.note, "approval granted: prod low-risk action requires approval");
    let due = [
        (Environment::Staging, RiskLevel::Medium, "staging medium/high risk requires approval"),
        (Environment::Staging, RiskLevel::High, "staging medium/high risk requires approval"),
        (Environment::Dev, RiskLevel::High, "dev high-risk action requires approval"),
    ];
    for (env, risk, reason) in due {
        let p = plan(risk, "x", 1);
        let decision = PolicyEngine.evaluate(&incident(env), &p);
        assert!(decision.allowed && decision.requires_approval);
        assert_eq!(decision.reason, reason);
        assert!(gate.request_approval(&incident(env), &p, reason).approved);
    }
}

#[test]
fn prod_goes_ahead_only_at_low_risk() {
    let gate = RuleBasedApprovalGate;
    for risk in [RiskLevel::Low, RiskLevel::Medium, RiskLevel::High] {
        let p = plan(risk, "single service: x", 1);
        let d = PolicyEngine.evaluate(&incident(Environment::Prod), &p);
        let goes_ahead = d.allowed
            && (!d.requires_approval || gate.request_approval(&incident(Environment::Prod), &p, &d.reason).approved);
        assert_eq!(goes_ahead, risk == RiskLevel::Low);
    }
}
