//! Guardrails for proposed mitigations: rollback and blast-radius checks,
//! then a per-environment decision by risk level.

use vstd::prelude::*;
use crate::domain::{Environment, IncidentInput, MitigationPlan, RiskLevel};
use crate::text::{contains, contains_ignore_case, lower};

verus! {

#[derive(Debug, Clone)]
pub struct PolicyDecision {
    pub allowed: bool,
    pub requires_approval: bool,
    pub reason: String,
}

/// The decision as a triple: allowed, requires approval, reason.
pub open spec fn decision_view(d: PolicyDecision) -> (bool, bool, Seq<char>) {
    (d.allowed, d.requires_approval, d.reason@)
}

pub open spec fn prod_outcome(risk: RiskLevel) -> (bool, bool, Seq<char>) {
    match risk {
        RiskLevel::Low => (true, true, "prod low-risk action requires approval"@),
        RiskLevel::Medium => (true, true, "prod medium-risk action requires approval"@),
        RiskLevel::High => (false, false, "prod high-risk action blocked by policy"@),
    }
}

pub open spec fn staging_outcome(risk: RiskLevel) -> (bool, bool, Seq<char>) {
    match risk {
        RiskLevel::Low => (true, false, "staging low-risk action allowed"@),
        _ => (true, true, "staging medium/high risk requires approval"@),
    }
}

pub open spec fn dev_outcome(risk: RiskLevel) -> (bool, bool, Seq<char>) {
    match risk {
        RiskLevel::High => (true, true, "dev high-risk action requires approval"@),
        _ => (true, false, "dev low/medium risk action allowed"@),
    }
}

/// The blast radius names every service (case-insensitively).
pub open spec fn blast_too_broad(blast: Seq<char>) -> bool {
    contains(lower(blast), "all services"@)
}

/// The policy's decision for a plan with `rollback_count` rollback steps,
/// blast-radius estimate `blast` and risk `risk`, proposed in `env`.
pub open spec fn policy_outcome(
    env: Environment,
    rollback_count: nat,
    blast: Seq<char>,
    risk: RiskLevel,
) -> (bool, bool, Seq<char>) {
    if rollback_count == 0 {
        (false, false, "blocked: mitigation has no rollback steps"@)
    } else if blast_too_broad(blast) {
        (false, false, "blocked: blast radius too broad"@)
    } else {
        match env {
            Environment::Prod => prod_outcome(risk),
            Environment::Staging => staging_outcome(risk),
            Environment::Dev => dev_outcome(risk),
        }
    }
}

/// The policy's decision for `plan` proposed for `incident`.
pub open spec fn spec_evaluate(incident: IncidentInput, plan: MitigationPlan) -> (bool, bool, Seq<char>) {
    policy_outcome(
        incident.environment,
        plan.rollback_steps@.len(),
        plan.blast_radius_estimate@,
        plan.risk_level,
    )
}

/// A plan may be carried out: the policy allows it and, where the policy
/// asks for approval, the approver granted it (`approved`).
pub open spec fn may_carry_out(incident: IncidentInput, plan: MitigationPlan, approved: bool) -> bool {
    let d = spec_evaluate(incident, plan);
    d.0 && (d.1 ==> approved)
}

/// Approval is due for a plan, for `reason`: the policy allows the plan,
/// asks for approval, and gives `reason` as its reason.
pub open spec fn approval_due(incident: IncidentInput, plan: MitigationPlan, reason: Seq<char>) -> bool {
    let d = spec_evaluate(incident, plan);
    d.0 && d.1 && reason == d.2
}

#[derive(Debug, Default, Clone)]
pub struct PolicyEngine;

fn decision(allowed: bool, requires_approval: bool, reason: &str) -> (d: PolicyDecision)
    ensures
        decision_view(d) == (allowed, requires_approval, reason@),
{
    PolicyDecision { allowed, requires_approval, reason: String::from_str(reason) }
}

impl PolicyEngine {
    pub fn evaluate(&self, incident: &IncidentInput, plan: &MitigationPlan) -> (d: PolicyDecision)
        ensures
            decision_view(d) == spec_evaluate(*incident, *plan),
    {
        if plan.rollback_steps.len() == 0 {
            return decision(false, false, "blocked: mitigation has no rollback steps");
        }
        if contains_ignore_case(plan.blast_radius_estimate.as_str(), "all services") {
            return decision(false, false, "blocked: blast radius too broad");
        }
        match incident.environment {
            Environment::Prod => self.prod_decision(plan),
            Environment::Staging => self.staging_decision(plan),
            Environment::Dev => self.dev_decision(plan),
        }
    }

    fn prod_decision(&self, plan: &MitigationPlan) -> (d: PolicyDecision)
        ensures
            decision_view(d) == prod_outcome(plan.risk_level),
    {
        match plan.risk_level {
            RiskLevel::Low => decision(true, true, "prod low-risk action requires approval"),
            RiskLevel::Medium => decision(true, true, "prod medium-risk action requires approval"),
            RiskLevel::High => decision(false, false, "prod high-risk action blocked by policy"),
        }
    }

    fn staging_decision(&self, plan: &MitigationPlan) -> (d: PolicyDecision)
        ensures
            decision_view(d) == staging_outcome(plan.risk_level),
    {
        match plan.risk_level {
            RiskLevel::Low => decision(true, false, "staging low-risk action allowed"),
            RiskLevel::Medium | RiskLevel::High => decision(
                true,
                true,
                "staging medium/high risk requires approval",
            ),
        }
    }

    fn dev_decision(&self, plan: &MitigationPlan) -> (d: PolicyDecision)
        ensures
            decision_view(d) == dev_outcome(plan.risk_level),
    {
        match plan.risk_level {
            RiskLevel::High => decision(true, true, "dev high-risk action requires approval"),
            RiskLevel::Low | RiskLevel::Medium => decision(
                true,
                false,
                "dev low/medium risk action allowed",
            ),
        }
    }
}

/// How strict a decision is: 0 allowed outright, 1 allowed after
/// approval, 2 blocked.
pub open spec fn strictness(outcome: (bool, bool, Seq<char>)) -> int {
    if !outcome.0 {
        2
    } else if outcome.1 {
        1
    } else {
        0
    }
}

pub open spec fn env_rank(env: Environment) -> int {
    match env {
        Environment::Dev => 0,
        Environment::Staging => 1,
        Environment::Prod => 2,
    }
}

pub open spec fn risk_rank(risk: RiskLevel) -> int {
    match risk {
        RiskLevel::Low => 0,
        RiskLevel::Medium => 1,
        RiskLevel::High => 2,
    }
}

/// A blocked action never asks for approval.
pub proof fn lemma_blocked_needs_no_approval(env: Environment, rollback_count: nat, blast: Seq<char>, risk: RiskLevel)
    ensures
        !policy_outcome(env, rollback_count, blast, risk).0 ==> !policy_outcome(env, rollback_count, blast, risk).1,
{
}

/// A plan without rollback steps is blocked in every environment at every risk.
pub proof fn lemma_no_rollback_is_blocked(env: Environment, blast: Seq<char>, risk: RiskLevel)
    ensures
        !policy_outcome(env, 0, blast, risk).0,
{
}

/// A plan whose blast radius names all services is blocked everywhere.
pub proof fn lemma_broad_blast_is_blocked(env: Environment, rollback_count: nat, blast: Seq<char>, risk: RiskLevel)
    requires
        blast_too_broad(blast),
    ensures
        !policy_outcome(env, rollback_count, blast, risk).0,
{
}

/// In production a high-risk action is always blocked, and nothing else
/// runs without approval.
pub proof fn lemma_prod_guardrails(rollback_count: nat, blast: Seq<char>, risk: RiskLevel)
    ensures
        risk == RiskLevel::High ==> !policy_outcome(Environment::Prod, rollback_count, blast, risk).0,
        policy_outcome(Environment::Prod, rollback_count, blast, risk).0
            ==> policy_outcome(Environment::Prod, rollback_count, blast, risk).1,
{
}

/// A stricter environment never decides more leniently, and a riskier
/// action is never treated more leniently in the same environment.
pub proof fn lemma_policy_monotone(
    env1: Environment,
    env2: Environment,
    risk1: RiskLevel,
    risk2: RiskLevel,
    rollback_count: nat,
    blast: Seq<char>,
)
    requires
        env_rank(env1) <= env_rank(env2),
        risk_rank(risk1) <= risk_rank(risk2),
    ensures
        strictness(policy_outcome(env1, rollback_count, blast, risk1)) <= strictness(
            policy_outcome(env2, rollback_count, blast, risk2),
        ),
{
}

/// The decision table for a plan with rollback steps whose blast radius
/// does not name all services: in production low- and medium-risk
/// actions need approval and high-risk ones are blocked; in staging
/// low-risk actions are allowed outright and the others need approval; in
/// development only high-risk actions need approval. A blast radius that
/// names all services (in any case) or a plan without rollback steps is
/// blocked.
pub proof fn lemma_policy_table(env: Environment, rollback_count: nat, blast: Seq<char>, risk: RiskLevel)
    ensures
        ({
            let d = policy_outcome(env, rollback_count, blast, risk);
            let open = rollback_count > 0 && !contains(lower(blast), "all services"@);
            &&& (rollback_count == 0 || contains(lower(blast), "all services"@)) ==> !d.0 && !d.1
            &&& open && env == Environment::Prod ==> (d.0 <==> risk != RiskLevel::High) && (d.1 <==> risk
                != RiskLevel::High)
            &&& open && env == Environment::Staging ==> d.0 && (d.1 <==> risk != RiskLevel::Low)
            &&& open && env == Environment::Dev ==> d.0 && (d.1 <==> risk == RiskLevel::High)
        }),
{
}

} // verus!
