//! What the command-line front end decides and shows: the interactive
//! session's commands, the status and doctor reports, the text report of
//! an incident, and the one-shot run of an incident.

use vstd::prelude::*;
use crate::approval::RuleBasedApprovalGate;
use crate::audit::{is_timestamp, unix_seconds_now};
use crate::cli::{OutputFormat, ReplConfig, RunConfig};
use crate::config::{ProviderConfig, RuntimeMode};
use crate::domain::{Environment, IncidentInput, IncidentReport, MitigationPlan, Severity};
use crate::providers::{json_view, lemma_object_view, str_array, strings_json, JsonValue, JsonView};
use crate::engine::{run_reported, RunAnswers, SreAgent};
use crate::memory::{default_runbooks, KnowledgeMemory};
use crate::policy::PolicyEngine;
use crate::text::{
    chars_of, equals_ignore_case, find_space, has_prefix, lower, space_index, starts_with, string_of_range,
    text_equals, texts, trim, trimmed,
};
use crate::tools::SreTools;

verus! {

/// `set` when the value holds something besides whitespace, else `missing`.
pub fn summarize_presence(value: &str) -> (r: &'static str)
    ensures
        r@ == (if trim(value@).len() == 0 { "missing"@ } else { "set"@ }),
{
    let t = trimmed(value);
    if t.unicode_len() == 0 {
        "missing"
    } else {
        "set"
    }
}

/// `set` when a value is given, else `not set`.
pub fn summarize_optional(value: &Option<String>) -> (r: &'static str)
    ensures
        r@ == (if value is Some { "set"@ } else { "not set"@ }),
{
    if value.is_some() {
        "set"
    } else {
        "not set"
    }
}

/// The status line of the interactive session.
pub open spec fn status_text(c: ReplConfig) -> Seq<char> {
    "service="@ + c.service@ + " severity="@ + c.severity.spec_name() + " env="@ + c.environment.spec_name()
        + " mode="@ + c.mode.spec_name() + " output="@ + c.output.spec_name()
}

/// The status line of the interactive session.
pub fn status_line(config: &ReplConfig) -> (s: String)
    ensures
        s@ == status_text(*config),
{
    let mut s = String::from_str("service=");
    s.append(config.service.as_str());
    s.append(" severity=");
    s.append(config.severity.name());
    s.append(" env=");
    s.append(config.environment.name());
    s.append(" mode=");
    s.append(config.mode.name());
    s.append(" output=");
    s.append(config.output.name());
    s
}

fn labelled(label: &str, value: &str) -> (s: String)
    ensures
        s@ == label@ + ": "@ + value@,
{
    let mut s = String::from_str(label);
    s.append(": ");
    s.append(value);
    s
}

/// What the doctor command reports in mock mode.
pub fn doctor_mock_lines() -> (lines: Vec<String>)
    ensures
        texts(lines@) == seq![
            "Sentinel-SRE doctor"@,
            "mode: "@ + "Mock"@,
            "mock mode ready"@,
            "no external integrations required"@,
        ],
{
    let mut lines: Vec<String> = Vec::new();
    lines.push(String::from_str("Sentinel-SRE doctor"));
    lines.push(String::from_str("mode: ").concat("Mock"));
    lines.push(String::from_str("mock mode ready"));
    lines.push(String::from_str("no external integrations required"));
    assert(texts(lines@) =~= seq![
        "Sentinel-SRE doctor"@,
        "mode: "@ + "Mock"@,
        "mock mode ready"@,
        "no external integrations required"@,
    ]);
    lines
}

pub open spec fn presence_text(value: Seq<char>) -> Seq<char> {
    if trim(value).len() == 0 { "missing"@ } else { "set"@ }
}

pub open spec fn optional_text(value: Option<String>) -> Seq<char> {
    if value is Some { "set"@ } else { "not set"@ }
}

/// What the doctor command reports in real mode for configuration `c`.
pub open spec fn doctor_real_text(c: ProviderConfig) -> Seq<Seq<char>> {
    seq![
        "Sentinel-SRE doctor"@,
        "mode: "@ + "Real"@,
        "SC_PROMETHEUS_URL"@ + ": "@ + presence_text(c.prometheus_url@),
        "SC_LOKI_URL"@ + ": "@ + presence_text(c.loki_url@),
        "SC_K8S_API_URL"@ + ": "@ + presence_text(c.k8s_api_url@),
        "SC_K8S_NAMESPACE"@ + ": "@ + presence_text(c.k8s_namespace@),
        "SC_SERVICE_LABEL_KEY"@ + ": "@ + presence_text(c.service_label_key@),
        "SC_API_BEARER_TOKEN"@ + ": "@ + optional_text(c.bearer_token),
        "SC_REMEDIATION_WEBHOOK_URL"@ + ": "@ + optional_text(c.remediation_webhook_url),
        "real mode configured (endpoint reachability depends on network and credentials)"@,
    ]
}

/// What the doctor command reports in real mode.
pub fn doctor_real_lines(config: &ProviderConfig) -> (lines: Vec<String>)
    ensures
        texts(lines@) == doctor_real_text(*config),
{
    let mut lines: Vec<String> = Vec::new();
    lines.push(String::from_str("Sentinel-SRE doctor"));
    lines.push(String::from_str("mode: ").concat("Real"));
    lines.push(labelled("SC_PROMETHEUS_URL", summarize_presence(config.prometheus_url.as_str())));
    lines.push(labelled("SC_LOKI_URL", summarize_presence(config.loki_url.as_str())));
    lines.push(labelled("SC_K8S_API_URL", summarize_presence(config.k8s_api_url.as_str())));
    lines.push(labelled("SC_K8S_NAMESPACE", summarize_presence(config.k8s_namespace.as_str())));
    lines.push(labelled("SC_SERVICE_LABEL_KEY", summarize_presence(config.service_label_key.as_str())));
    lines.push(labelled("SC_API_BEARER_TOKEN", summarize_optional(&config.bearer_token)));
    lines.push(labelled("SC_REMEDIATION_WEBHOOK_URL", summarize_optional(&config.remediation_webhook_url)));
    lines.push(String::from_str(
        "real mode configured (endpoint reachability depends on network and credentials)",
    ));
    assert(texts(lines@) =~= doctor_real_text(*config));
    lines
}


/// What the interactive session does with one input line.
#[derive(Debug, Clone)]
pub enum ReplAction {
    /// Nothing: the line was blank.
    Skip,
    /// Leave the session.
    Exit,
    ShowHelp,
    ShowBenefits,
    /// Show this status line.
    ShowStatus(String),
    /// Run the doctor for this mode.
    RunDoctor(RuntimeMode),
    /// Show this message.
    Say(String),
    /// Run the analysis of an incident.
    RunIncident(RunConfig),
}

/// `c` has these settings.
pub open spec fn config_is(
    c: ReplConfig,
    service: Seq<char>,
    severity: Severity,
    environment: Environment,
    mode: RuntimeMode,
    output: OutputFormat,
) -> bool {
    &&& c.service@ == service
    &&& c.severity == severity
    &&& c.environment == environment
    &&& c.mode == mode
    &&& c.output == output
}

pub open spec fn unchanged(old: ReplConfig, new: ReplConfig) -> bool {
    config_is(new, old.service@, old.severity, old.environment, old.mode, old.output)
}

pub open spec fn set_usage() -> Seq<char> {
    "usage: /set <service|severity|env|mode|output> <value>"@
}

/// The key of a `/set` command whose text after `/set ` is `rest`.
pub open spec fn set_key(rest: Seq<char>) -> Seq<char> {
    trim(rest.subrange(0, space_index(rest)))
}

/// The value of a `/set` command whose text after `/set ` is `rest`.
pub open spec fn set_value(rest: Seq<char>) -> Seq<char> {
    let p = space_index(rest);
    if p < rest.len() {
        trim(rest.subrange(p + 1, rest.len() as int))
    } else {
        Seq::<char>::empty()
    }
}

/// The effect of a `/set key value` command on `old`.
pub open spec fn set_outcome(old: ReplConfig, key: Seq<char>, value: Seq<char>, new: ReplConfig, a: ReplAction) -> bool {
    let updated = "updated "@ + key + "="@ + value;
    if value.len() == 0 {
        a matches ReplAction::Say(m) && m@ == set_usage() && unchanged(old, new)
    } else if key == "service"@ {
        a matches ReplAction::Say(m) && m@ == updated
            && config_is(new, value, old.severity, old.environment, old.mode, old.output)
    } else if key == "severity"@ {
        a matches ReplAction::Say(m) && m@ == updated
            && config_is(new, old.service@, Severity::spec_from_str(value), old.environment, old.mode, old.output)
    } else if key == "env"@ {
        a matches ReplAction::Say(m) && m@ == updated
            && config_is(new, old.service@, old.severity, Environment::spec_from_str(value), old.mode, old.output)
    } else if key == "mode"@ {
        a matches ReplAction::Say(m) && m@ == updated
            && config_is(new, old.service@, old.severity, old.environment, RuntimeMode::spec_from_str(value), old.output)
    } else if key == "output"@ {
        a matches ReplAction::Say(m) && m@ == updated
            && config_is(new, old.service@, old.severity, old.environment, old.mode, OutputFormat::spec_from_str(value))
    } else {
        a matches ReplAction::Say(m) && m@ == "unknown key '"@ + key + "'"@ && unchanged(old, new)
    }
}

/// What the session does with `input` when its settings are `old`, and
/// the settings `new` it keeps afterwards.
pub open spec fn repl_step(old: ReplConfig, input: Seq<char>, new: ReplConfig, a: ReplAction) -> bool {
    let line = trim(input);
    let l = lower(line);
    if line.len() == 0 {
        a is Skip && unchanged(old, new)
    } else if l == "/exit"@ || l == "/quit"@ {
        a is Exit && unchanged(old, new)
    } else if l == "/help"@ {
        a is ShowHelp && unchanged(old, new)
    } else if l == "/benefits"@ {
        a is ShowBenefits && unchanged(old, new)
    } else if l == "/status"@ {
        a matches ReplAction::ShowStatus(s) && s@ == status_text(old) && unchanged(old, new)
    } else if l == "/doctor"@ {
        a matches ReplAction::RunDoctor(m) && m == old.mode && unchanged(old, new)
    } else if has_prefix(line, "/set "@) {
        let rest = line.subrange("/set "@.len() as int, line.len() as int);
        set_outcome(old, set_key(rest), set_value(rest), new, a)
    } else {
        &&& a matches ReplAction::RunIncident(c) && {
            &&& c.service@ == old.service@
            &&& c.summary@ == line
            &&& c.severity == old.severity
            &&& c.environment == old.environment
            &&& c.mode == old.mode
            &&& c.output == old.output
        }
        &&& unchanged(old, new)
    }
}

fn updated_message(key: &String, value: &String) -> (m: String)
    ensures
        m@ == "updated "@ + key@ + "="@ + value@,
{
    let mut m = String::from_str("updated ");
    m.append(key.as_str());
    m.append("=");
    m.append(value.as_str());
    m
}

fn apply_setting(config: &mut ReplConfig, key: String, value: String) -> (a: ReplAction)
    ensures
        set_outcome(*old(config), key@, value@, *final(config), a),
{
    if value.unicode_len() == 0 {
        return ReplAction::Say(String::from_str("usage: /set <service|severity|env|mode|output> <value>"));
    }
    if text_equals(key.as_str(), "service") {
        let m = updated_message(&key, &value);
        config.service = value;
        ReplAction::Say(m)
    } else if text_equals(key.as_str(), "severity") {
        config.severity = Severity::from_str(value.as_str());
        ReplAction::Say(updated_message(&key, &value))
    } else if text_equals(key.as_str(), "env") {
        config.environment = Environment::from_str(value.as_str());
        ReplAction::Say(updated_message(&key, &value))
    } else if text_equals(key.as_str(), "mode") {
        config.mode = RuntimeMode::from_str(value.as_str());
        ReplAction::Say(updated_message(&key, &value))
    } else if text_equals(key.as_str(), "output") {
        config.output = OutputFormat::from_str(value.as_str());
        ReplAction::Say(updated_message(&key, &value))
    } else {
        let mut m = String::from_str("unknown key '");
        m.append(key.as_str());
        m.append("'");
        ReplAction::Say(m)
    }
}

/// Handles one line of the interactive session, updating its settings.
pub fn handle_repl_line(config: &mut ReplConfig, input: &str) -> (a: ReplAction)
    ensures
        repl_step(*old(config), input@, *final(config), a),
{
    let line = trimmed(input);
    let text = line.as_str();
    if line.unicode_len() == 0 {
        return ReplAction::Skip;
    }
    if equals_ignore_case(text, "/exit") || equals_ignore_case(text, "/quit") {
        return ReplAction::Exit;
    }
    if equals_ignore_case(text, "/help") {
        return ReplAction::ShowHelp;
    }
    if equals_ignore_case(text, "/benefits") {
        return ReplAction::ShowBenefits;
    }
    if equals_ignore_case(text, "/status") {
        return ReplAction::ShowStatus(status_line(config));
    }
    if equals_ignore_case(text, "/doctor") {
        return ReplAction::RunDoctor(config.mode);
    }
    let chars = chars_of(text);
    let prefix = chars_of("/set ");
    if starts_with(&chars, &prefix) {
        let start = prefix.len();
        let space = find_space(&chars, start);
        let key = trimmed(string_of_range(&chars, start, space).as_str());
        let value = if space < chars.len() {
            trimmed(string_of_range(&chars, space + 1, chars.len()).as_str())
        } else {
            String::new()
        };
        proof {
            let rest = line@.subrange("/set "@.len() as int, line@.len() as int);
            assert(chars@.subrange(start as int, chars@.len() as int) == rest);
            assert(rest.subrange(0, space_index(rest)) =~= chars@.subrange(start as int, space as int));
            if space < chars@.len() {
                assert(rest.subrange(space_index(rest) + 1, rest.len() as int) =~= chars@.subrange(
                    space + 1,
                    chars@.len() as int,
                ));
            }
        }
        return apply_setting(config, key, value);
    }
    ReplAction::RunIncident(RunConfig {
        service: config.service.clone(),
        summary: line,
        severity: config.severity,
        environment: config.environment,
        mode: config.mode,
        output: config.output,
    })
}


fn bullet(item: &String) -> (s: String)
    ensures
        s@ == "  - "@ + item@,
{
    String::from_str("  - ").concat(item.as_str())
}

pub open spec fn bullets(items: Seq<Seq<char>>) -> Seq<Seq<char>> {
    items.map_values(|i: Seq<char>| "  - "@ + i)
}

fn push_bullets(out: &mut Vec<String>, items: &Vec<String>)
    ensures
        texts(final(out)@) == texts(old(out)@) + bullets(texts(items@)),
{
    let ghost start = texts(out@);
    let mut i: usize = 0;
    while i < items.len()
        invariant
            i <= items@.len(),
            texts(out@) == start + bullets(texts(items@)).subrange(0, i as int),
        decreases items@.len() - i,
    {
        let ghost before = out@;
        out.push(bullet(&items[i]));
        assert(texts(items@)[i as int] == items@[i as int]@);
        assert(bullets(texts(items@))[i as int] == "  - "@ + items@[i as int]@);
        assert(texts(out@) =~= texts(before).push("  - "@ + items@[i as int]@));
        assert(texts(out@) =~= start + bullets(texts(items@)).subrange(0, i + 1));
        i = i + 1;
    }
    assert(bullets(texts(items@)).subrange(0, items@.len() as int) =~= bullets(texts(items@)));
}

/// The text report of an incident: final state, findings, the selected
/// mitigation if any, and the timeline.
pub open spec fn report_text(r: IncidentReport) -> Seq<Seq<char>> {
    let head = seq!["final_state: "@ + r.final_state.spec_name(), "findings:"@] + bullets(texts(r.findings@));
    head + plan_text(r) + seq!["timeline:"@] + bullets(texts(r.timeline@))
}

/// The lines that show the selected mitigation, if any.
pub open spec fn plan_text(r: IncidentReport) -> Seq<Seq<char>> {
    match r.selected_mitigation {
        Some(p) => seq![
            "selected_mitigation:"@,
            "  action: "@ + p.action.spec_name(),
            "  target: "@ + p.target@,
            "  risk: "@ + p.risk_level.spec_name(),
            "  reason: "@ + p.reason@,
        ],
        None => Seq::<Seq<char>>::empty(),
    }
}

/// The toolset mode a run uses: the requested one, except that real mode
/// falls back to the simulated tools, with a warning, when the real
/// providers could not be set up (`setup_error`).
pub fn toolset_mode(requested: RuntimeMode, setup_error: Option<String>) -> (r: (RuntimeMode, Option<String>))
    ensures
        requested == RuntimeMode::Mock ==> r.0 == RuntimeMode::Mock && r.1 is None,
        requested == RuntimeMode::Real ==> match setup_error {
            None => r.0 == RuntimeMode::Real && r.1 is None,
            Some(e) => r.0 == RuntimeMode::Mock && (r.1 matches Some(w) && w@ == "failed to initialize real tools ("@
                + e@ + "), falling back to mock mode"@),
        },
{
    match requested {
        RuntimeMode::Mock => (RuntimeMode::Mock, None),
        RuntimeMode::Real => match setup_error {
            None => (RuntimeMode::Real, None),
            Some(e) => {
                let mut w = String::from_str("failed to initialize real tools (");
                w.append(e.as_str());
                w.append("), falling back to mock mode");
                (RuntimeMode::Mock, Some(w))
            },
        },
    }
}

/// The JSON document of a plan: action, target, risk, reason, blast
/// radius estimate and rollback steps.
pub open spec fn plan_doc(p: MitigationPlan) -> JsonView {
    JsonView::Object(
        seq![
            ("action"@, JsonView::Str(p.action.spec_name())),
            ("target"@, JsonView::Str(p.target@)),
            ("risk"@, JsonView::Str(p.risk_level.spec_name())),
            ("reason"@, JsonView::Str(p.reason@)),
            ("blast_radius_estimate"@, JsonView::Str(p.blast_radius_estimate@)),
            ("rollback_steps"@, str_array(texts(p.rollback_steps@))),
        ],
    )
}

/// The JSON document of a report: final state, findings, timeline and the
/// selected mitigation (`null` when there is none).
pub open spec fn report_doc(r: IncidentReport) -> JsonView {
    JsonView::Object(
        seq![
            ("final_state"@, JsonView::Str(r.final_state.spec_name())),
            ("findings"@, str_array(texts(r.findings@))),
            ("timeline"@, str_array(texts(r.timeline@))),
            ("selected_mitigation"@, match r.selected_mitigation {
                Some(p) => plan_doc(p),
                None => JsonView::Null,
            }),
        ],
    )
}

fn text_json(s: &str) -> (v: JsonValue)
    ensures
        json_view(v) == JsonView::Str(s@),
{
    JsonValue::Str(String::from_str(s))
}

/// The JSON document of a plan.
pub fn plan_json(p: &MitigationPlan) -> (v: JsonValue)
    ensures
        json_view(v) == plan_doc(*p),
{
    let mut members: Vec<(String, JsonValue)> = Vec::new();
    members.push((String::from_str("action"), text_json(p.action.name())));
    members.push((String::from_str("target"), text_json(p.target.as_str())));
    members.push((String::from_str("risk"), text_json(p.risk_level.name())));
    members.push((String::from_str("reason"), text_json(p.reason.as_str())));
    members.push((String::from_str("blast_radius_estimate"), text_json(p.blast_radius_estimate.as_str())));
    members.push((String::from_str("rollback_steps"), strings_json(&p.rollback_steps)));
    proof {
        lemma_object_view(members);
        if let JsonView::Object(d) = plan_doc(*p) {
            assert(members@.map_values(|m: (String, JsonValue)| (m.0@, json_view(m.1))) =~= d);
        }
    }
    JsonValue::Object(members)
}

/// The JSON document of a report, as the JSON output prints it.
pub fn report_json(report: &IncidentReport) -> (v: JsonValue)
    ensures
        json_view(v) == report_doc(*report),
{
    let mitigation = match &report.selected_mitigation {
        Some(p) => plan_json(p),
        None => JsonValue::Null,
    };
    let mut members: Vec<(String, JsonValue)> = Vec::new();
    members.push((String::from_str("final_state"), text_json(report.final_state.name())));
    members.push((String::from_str("findings"), strings_json(&report.findings)));
    members.push((String::from_str("timeline"), strings_json(&report.timeline)));
    members.push((String::from_str("selected_mitigation"), mitigation));
    proof {
        lemma_object_view(members);
        if let JsonView::Object(d) = report_doc(*report) {
            assert(members@.map_values(|m: (String, JsonValue)| (m.0@, json_view(m.1))) =~= d);
        }
    }
    JsonValue::Object(members)
}

/// The text report of an incident, line by line.
pub fn report_text_lines(report: &IncidentReport) -> (lines: Vec<String>)
    ensures
        texts(lines@) == report_text(*report),
{
    let mut lines: Vec<String> = Vec::new();
    lines.push(String::from_str("final_state: ").concat(report.final_state.name()));
    lines.push(String::from_str("findings:"));
    assert(texts(lines@) =~= seq!["final_state: "@ + report.final_state.spec_name(), "findings:"@]);
    push_bullets(&mut lines, &report.findings);
    let ghost head = texts(lines@);
    let ghost plan_lines = plan_text(*report);
    match &report.selected_mitigation {
        Some(p) => {
            lines.push(String::from_str("selected_mitigation:"));
            lines.push(String::from_str("  action: ").concat(p.action.name()));
            lines.push(String::from_str("  target: ").concat(p.target.as_str()));
            lines.push(String::from_str("  risk: ").concat(p.risk_level.name()));
            lines.push(String::from_str("  reason: ").concat(p.reason.as_str()));
        },
        None => {},
    }
    assert(texts(lines@) =~= head + plan_lines);
    lines.push(String::from_str("timeline:"));
    assert(texts(lines@) =~= head + plan_lines + seq!["timeline:"@]);
    push_bullets(&mut lines, &report.timeline);
    assert(texts(lines@) =~= report_text(*report));
    lines
}

/// `i` is the incident that a run configuration `c` describes, under id `id`.
pub open spec fn incident_from_run(i: IncidentInput, c: RunConfig, id: Seq<char>) -> bool {
    &&& i.incident_id@ == id
    &&& i.service@ == c.service@
    &&& i.summary@ == c.summary@
    &&& i.severity == c.severity
    &&& i.environment == c.environment
}

/// A fresh incident id: `inc-` and the current Unix time.
pub fn new_incident_id() -> (id: String)
    ensures
        exists|t: Seq<char>| is_timestamp(t) && id@ == "inc-"@ + t,
{
    let stamp = unix_seconds_now();
    String::from_str("inc-").concat(stamp.as_str())
}

/// Analyses the incident that `config` describes with `tools`, under the
/// default policy, the rule-based approval gate and the built-in knowledge.
pub fn run_incident<T: SreTools>(config: &RunConfig, tools: T) -> (report: IncidentReport)
    ensures
        exists|incident: IncidentInput, runbooks: Seq<(String, String)>, ans: RunAnswers|
            #[trigger] run_reported(tools, RuleBasedApprovalGate, incident, runbooks, ans, report)
            && incident_from_run(incident, *config, incident.incident_id@)
            && (exists|t: Seq<char>| is_timestamp(t) && incident.incident_id@ == "inc-"@ + t)
            && default_runbooks(runbooks),
{
    let incident = IncidentInput {
        incident_id: new_incident_id(),
        service: config.service.clone(),
        summary: config.summary.clone(),
        severity: config.severity,
        environment: config.environment,
    };
    let ghost described = incident;
    let knowledge = KnowledgeMemory::with_defaults();
    let agent = SreAgent::new(tools, PolicyEngine, RuleBasedApprovalGate, knowledge);
    let report = agent.run(incident);
    assert(incident_from_run(described, *config, described.incident_id@));
    report
}

} // verus!
