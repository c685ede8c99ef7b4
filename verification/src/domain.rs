//! The incident domain: severities, environments, workflow states, tool
//! evidence, hypotheses, mitigation plans and the final report.
//!
//! Confidence values are held in hundredths (`92` stands for `0.92`), the
//! precision in which the workflow states and reports them.

use vstd::prelude::*;
use crate::text::{lower, equals_ignore_case};

verus! {

#[derive(Debug, Clone, Copy, PartialEq, Eq, Structural)]
pub enum Severity {
    Sev1,
    Sev2,
    Sev3,
    Sev4,
}

impl Severity {

    /// The name the console shows.
    pub open spec fn spec_name(self) -> Seq<char> {
        match self {
            Severity::Sev1 => "Sev1"@,
            Severity::Sev2 => "Sev2"@,
            Severity::Sev3 => "Sev3"@,
            Severity::Sev4 => "Sev4"@,
        }
    }

    pub fn name(&self) -> (r: &'static str)
        ensures
            r@ == self.spec_name(),
    {
        match self {
            Severity::Sev1 => "Sev1",
            Severity::Sev2 => "Sev2",
            Severity::Sev3 => "Sev3",
            Severity::Sev4 => "Sev4",
        }
    }
    /// Case-insensitive reading of a severity; anything unknown is `Sev4`.
    pub open spec fn spec_from_str(value: Seq<char>) -> Severity {
        let l = lower(value);
        if l == "sev1"@ {
            Severity::Sev1
        } else if l == "sev2"@ {
            Severity::Sev2
        } else if l == "sev3"@ {
            Severity::Sev3
        } else {
            Severity::Sev4
        }
    }

    pub fn from_str(value: &str) -> (r: Self)
        ensures
            r == Self::spec_from_str(value@),
    {
        if equals_ignore_case(value, "sev1") {
            Severity::Sev1
        } else if equals_ignore_case(value, "sev2") {
            Severity::Sev2
        } else if equals_ignore_case(value, "sev3") {
            Severity::Sev3
        } else {
            Severity::Sev4
        }
    }
}

#[derive(Debug, Clone, Copy, PartialEq, Eq, Structural)]
pub enum Environment {
    Prod,
    Staging,
    Dev,
}

impl Environment {

    /// The name the console shows.
    pub open spec fn spec_name(self) -> Seq<char> {
        match self {
            Environment::Prod => "Prod"@,
            Environment::Staging => "Staging"@,
            Environment::Dev => "Dev"@,
        }
    }

    pub fn name(&self) -> (r: &'static str)
        ensures
            r@ == self.spec_name(),
    {
        match self {
            Environment::Prod => "Prod",
            Environment::Staging => "Staging",
            Environment::Dev => "Dev",
        }
    }
    /// Case-insensitive reading of an environment (`prod` or `production`,
    /// `staging`); anything else is `Dev`.
    pub open spec fn spec_from_str(value: Seq<char>) -> Environment {
        let l = lower(value);
        if l == "prod"@ || l == "production"@ {
            Environment::Prod
        } else if l == "staging"@ {
            Environment::Staging
        } else {
            Environment::Dev
        }
    }

    pub fn from_str(value: &str) -> (r: Self)
        ensures
            r == Self::spec_from_str(value@),
    {
        if equals_ignore_case(value, "prod") || equals_ignore_case(value, "production") {
            Environment::Prod
        } else if equals_ignore_case(value, "staging") {
            Environment::Staging
        } else {
            Environment::Dev
        }
    }
}

#[derive(Debug, Clone, Copy, PartialEq, Eq, Structural)]
pub enum AgentState {
    Intake,
    Triage,
    Hypothesis,
    Diagnose,
    MitigationPlan,
    Approval,
    Execute,
    Verify,
    Closeout,
    Closed,
    Blocked,
}

impl AgentState {
    /// The state's name as the timeline shows it.
    pub open spec fn spec_name(self) -> Seq<char> {
        match self {
            AgentState::Intake => "Intake"@,
            AgentState::Triage => "Triage"@,
            AgentState::Hypothesis => "Hypothesis"@,
            AgentState::Diagnose => "Diagnose"@,
            AgentState::MitigationPlan => "MitigationPlan"@,
            AgentState::Approval => "Approval"@,
            AgentState::Execute => "Execute"@,
            AgentState::Verify => "Verify"@,
            AgentState::Closeout => "Closeout"@,
            AgentState::Closed => "Closed"@,
            AgentState::Blocked => "Blocked"@,
        }
    }

    pub fn name(&self) -> (r: &'static str)
        ensures
            r@ == self.spec_name(),
    {
        match self {
            AgentState::Intake => "Intake",
            AgentState::Triage => "Triage",
            AgentState::Hypothesis => "Hypothesis",
            AgentState::Diagnose => "Diagnose",
            AgentState::MitigationPlan => "MitigationPlan",
            AgentState::Approval => "Approval",
            AgentState::Execute => "Execute",
            AgentState::Verify => "Verify",
            AgentState::Closeout => "Closeout",
            AgentState::Closed => "Closed",
            AgentState::Blocked => "Blocked",
        }
    }
}

#[derive(Debug, Clone)]
pub struct IncidentInput {
    pub incident_id: String,
    pub service: String,
    pub summary: String,
    pub severity: Severity,
    pub environment: Environment,
}

#[derive(Debug, Clone, Copy, PartialEq, Eq, Structural)]
/// `Success` is the status that a fully successful tool call reports.
pub enum ToolStatus {
    Success,
    Partial,
    Error,
}

/// One observation reported by a tool. `confidence` is in hundredths.
#[derive(Debug, Clone)]
pub struct Evidence {
    pub source: String,
    pub detail: String,
    pub value: Option<String>,
    pub confidence: u32,
    pub observed_at: String,
}

/// What one tool call reports. `confidence` is in hundredths.
#[derive(Debug, Clone)]
pub struct ToolResponse {
    pub status: ToolStatus,
    pub evidence: Vec<Evidence>,
    pub confidence: u32,
    pub safe_next_actions: Vec<String>,
}

/// A candidate root cause. `confidence` is in hundredths.
#[derive(Debug, Clone)]
pub struct Hypothesis {
    pub title: String,
    pub rationale: String,
    pub confidence: u32,
}

#[derive(Debug, Clone, Copy, PartialEq, Eq, Structural)]
pub enum RiskLevel {
    Low,
    Medium,
    High,
}

impl RiskLevel {
    pub open spec fn spec_name(self) -> Seq<char> {
        match self {
            RiskLevel::Low => "Low"@,
            RiskLevel::Medium => "Medium"@,
            RiskLevel::High => "High"@,
        }
    }

    pub fn name(&self) -> (r: &'static str)
        ensures
            r@ == self.spec_name(),
    {
        match self {
            RiskLevel::Low => "Low",
            RiskLevel::Medium => "Medium",
            RiskLevel::High => "High",
        }
    }
}

#[derive(Debug, Clone, Copy, PartialEq, Eq, Structural)]
pub enum ActionType {
    RestartService,
    ScaleService,
    RollbackRelease,
    FlipFeatureFlag,
}

impl ActionType {
    pub open spec fn spec_name(self) -> Seq<char> {
        match self {
            ActionType::RestartService => "RestartService"@,
            ActionType::ScaleService => "ScaleService"@,
            ActionType::RollbackRelease => "RollbackRelease"@,
            ActionType::FlipFeatureFlag => "FlipFeatureFlag"@,
        }
    }

    pub fn name(&self) -> (r: &'static str)
        ensures
            r@ == self.spec_name(),
    {
        match self {
            ActionType::RestartService => "RestartService",
            ActionType::ScaleService => "ScaleService",
            ActionType::RollbackRelease => "RollbackRelease",
            ActionType::FlipFeatureFlag => "FlipFeatureFlag",
        }
    }
}

#[derive(Debug, Clone)]
pub struct MitigationPlan {
    pub action: ActionType,
    pub target: String,
    pub reason: String,
    pub risk_level: RiskLevel,
    pub blast_radius_estimate: String,
    pub rollback_steps: Vec<String>,
}

#[derive(Debug, Clone)]
pub struct IncidentReport {
    pub final_state: AgentState,
    pub timeline: Vec<String>,
    pub findings: Vec<String>,
    pub selected_mitigation: Option<MitigationPlan>,
}

} // verus!
