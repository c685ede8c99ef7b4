//! Human-in-the-loop approval of mitigations that the policy flags.

use vstd::prelude::*;
use crate::domain::{Environment, IncidentInput, MitigationPlan, RiskLevel};
use crate::policy::{approval_due, policy_outcome};

verus! {

#[derive(Debug, Clone)]
pub struct ApprovalDecision {
    pub approved: bool,
    pub approver: String,
    pub note: String,
}

/// Approved, approver and note of an answer.
pub type ApprovalView = (bool, Seq<char>, Seq<char>);

pub open spec fn approval_view(d: ApprovalDecision) -> ApprovalView {
    (d.approved, d.approver@, d.note@)
}

/// A gate that answers approval requests for proposed mitigations.
pub trait ApprovalGate {
    /// `answer` is an answer this gate may give to a request for `plan`
    /// on `incident`, made for `reason`.
    spec fn answers(&self, incident: IncidentInput, plan: MitigationPlan, reason: Seq<char>, answer: ApprovalView) -> bool;

    fn request_approval(
        &self,
        incident: &IncidentInput,
        plan: &MitigationPlan,
        reason: &str,
    ) -> (d: ApprovalDecision)
        requires
            approval_due(*incident, *plan, reason@),
        ensures
            self.answers(*incident, *plan, reason@, approval_view(d)),
    ;
}

/// Whether the rule-based gate approves a plan of risk `risk` in `env`:
/// production medium- and high-risk actions are denied, all else granted.
pub open spec fn rule_approves(env: Environment, risk: RiskLevel) -> bool {
    !(env == Environment::Prod && (risk == RiskLevel::Medium || risk == RiskLevel::High))
}

/// The note the rule-based gate attaches to its answer.
pub open spec fn rule_note(approved: bool, reason: Seq<char>) -> Seq<char> {
    if approved {
        "approval granted: "@ + reason
    } else {
        "approval denied: "@ + reason
    }
}

/// An approval gate that decides by environment and risk.
#[derive(Debug, Default, Clone)]
pub struct RuleBasedApprovalGate;

impl ApprovalGate for RuleBasedApprovalGate {
    open spec fn answers(&self, incident: IncidentInput, plan: MitigationPlan, reason: Seq<char>, answer: ApprovalView) -> bool {
        let approved = rule_approves(incident.environment, plan.risk_level);
        answer == (approved, "oncall-human"@, rule_note(approved, reason))
    }

    fn request_approval(
        &self,
        incident: &IncidentInput,
        plan: &MitigationPlan,
        reason: &str,
    ) -> (d: ApprovalDecision)
        ensures
            d.approved == rule_approves(incident.environment, plan.risk_level),
            d.approver@ == "oncall-human"@,
            d.note@ == rule_note(d.approved, reason@),
    {
        let approved = match (incident.environment, plan.risk_level) {
            (Environment::Prod, RiskLevel::Medium) => false,
            (Environment::Prod, RiskLevel::High) => false,
            _ => true,
        };
        let note = if approved {
            String::from_str("approval granted: ").concat(reason)
        } else {
            String::from_str("approval denied: ").concat(reason)
        };
        ApprovalDecision { approved, approver: String::from_str("oncall-human"), note }
    }
}

/// In production the rule-based gate approves only low-risk actions; in
/// staging and development it approves everything.
pub proof fn lemma_rule_gate(env: Environment, risk: RiskLevel)
    ensures
        env == Environment::Prod ==> (rule_approves(env, risk) <==> risk == RiskLevel::Low),
        env != Environment::Prod ==> rule_approves(env, risk),
{
}

/// In production, with the rule-based gate answering approval requests,
/// only a low-risk plan can go ahead.
pub proof fn lemma_prod_goes_ahead_only_at_low_risk(rollback_count: nat, blast: Seq<char>, risk: RiskLevel)
    ensures
        ({
            let d = policy_outcome(Environment::Prod, rollback_count, blast, risk);
            d.0 && (!d.1 || rule_approves(Environment::Prod, risk))
        }) ==> risk == RiskLevel::Low,
{
}

} // verus!
