use sentinel_sre::audit::{unix_seconds_now, AuditLog};
use sentinel_sre::domain::AgentState;
use sentinel_sre::memory::{KnowledgeMemory, SessionMemory};
use sentinel_sre::text::{
    contains_ignore_case, equals_ignore_case, join_texts, push_bool, push_decimal, push_fixed2, trimmed,
};

#[test]
fn case_insensitive_search() {
    assert!(contains_ignore_case("Latency SPIKE", "latency"));
    assert!(contains_ignore_case("abc", ""));
    assert!(!contains_ignore_case("lat", "latency"));
    assert!(!contains_ignore_case("error", "Error"));
    assert!(equals_ignore_case("ReAl", "real"));
    assert!(!equals_ignore_case("real ", "real"));
}

#[test]
fn trimming_removes_unicode_whitespace() {
    assert_eq!(trimmed("  a b \t\n"), "a b");
    assert_eq!(trimmed("\u{3000}x\u{a0}"), "x");
    assert_eq!(trimmed("   "), "");
    assert_eq!(trimmed(""), "");
}

#[test]
fn joining() {
    let parts = vec!["a".to_string(), "bc".to_string(), "".to_string()];
    assert_eq!(join_texts(&parts, " "), "a bc ");
    assert_eq!(join_texts(&[], " "), "");
}

#[test]
fn decimal_and_fixed_point_rendering() {
    let mut s = String::new();
    push_decimal(&mut s, 0);
    push_char_sep(&mut s);
    push_decimal(&mut s, 1725029869);
    assert_eq!(s, "0,1725029869");
    for (h, text) in [(92u32, "0.92"), (5, "0.05"), (100, "1.00"), (140, "1.40"), (0, "0.00")] {
        let mut f = String::from("x");
        push_fixed2(&mut f, h);
        assert_eq!(f, format!("x{}", text));
    }
    let mut b = String::new();
    push_bool(&mut b, true);
    push_bool(&mut b, false);
    assert_eq!(b, "truefalse");
}

fn push_char_sep(s: &mut String) {
    s.push(',');
}

#[test]
fn audit_timeline_lines() {
    let mut log = AuditLog::new();
    log.record_at(AgentState::Intake, "incident received".to_string(), 42);
    log.record_at(AgentState::MitigationPlan, "plan".to_string(), 7);
    assert_eq!(log.timeline(), vec!["[42][Intake] incident received".to_string(), "[7][MitigationPlan] plan".to_string()]);
}

#[test]
fn timeline_shows_records_in_order_and_is_repeatable() {
    let mut log = AuditLog::new();
    let entries = [
        (AgentState::Intake, "a"),
        (AgentState::Triage, "b"),
        (AgentState::Approval, "c"),
        (AgentState::Blocked, "d"),
    ];
    for (state, message) in entries {
        let before = log.timeline();
        log.record(state, message.to_string());
        let after = log.timeline();
        assert_eq!(after.len(), before.len() + 1);
        assert_eq!(&after[..before.len()], &before[..]);
    }
    let first = log.timeline();
    let second = log.timeline();
    assert_eq!(first, second);
    let names = ["Intake", "Triage", "Approval", "Blocked"];
    for (i, line) in first.iter().enumerate() {
        let stamp = &line[1..line.find(']').unwrap()];
        assert!(!stamp.is_empty() && stamp.chars().all(|c| c.is_ascii_digit()));
        assert!(line.ends_with(&format!("][{}] {}", names[i], entries[i].1)));
    }
}

#[test]
fn audit_record_stamps_with_the_clock() {
    let mut log = AuditLog::new();
    log.record(AgentState::Blocked, "stop".to_string());
    let lines = log.timeline();
    assert_eq!(lines.len(), 1);
    let line = &lines[0];
    assert!(line.ends_with("][Blocked] stop"));
    let stamp = &line[1..line.find(']').unwrap()];
    assert!(!stamp.is_empty() && stamp.chars().all(|c| c.is_ascii_digit()));
    let now = unix_seconds_now();
    assert!(now.parse::<u64>().unwrap() >= stamp.parse::<u64>().unwrap());
}

#[test]
fn session_memory_keeps_notes_in_order() {
    let mut m = SessionMemory::new();
    m.note_source("prometheus".to_string());
    m.note_source("grafana".to_string());
    m.note_hypothesis("capacity saturation".to_string());
    m.note("diagnostic confidence: 0.82".to_string());
    assert_eq!(m.checked_sources, vec!["prometheus", "grafana"]);
    assert_eq!(m.attempted_hypotheses, vec!["capacity saturation"]);
    assert_eq!(m.notes, vec!["diagnostic confidence: 0.82"]);
}

#[test]
fn default_knowledge() {
    let k = KnowledgeMemory::with_defaults();
    assert_eq!(k.runbook_for("payments-api").map(|s| s.as_str()), Some("payments-api-latency-runbook:v3"));
    assert_eq!(k.runbook_for("gateway").map(|s| s.as_str()), Some("gateway-error-budget-runbook:v2"));
    assert_eq!(k.runbook_for("Gateway"), None);
    assert_eq!(k.runbook_for("unknown"), None);
    assert_eq!(k.owners.len(), 2);
    assert_eq!(k.owners[0], ("gateway".to_string(), "sre-platform-oncall".to_string()));
    assert_eq!(k.owners[1], ("payments-api".to_string(), "sre-payments-oncall".to_string()));
    assert_eq!(k.runbooks[0].0, "gateway");
}

#[test]
fn inserting_knowledge_replaces_or_keeps_order() {
    let mut k = KnowledgeMemory::with_defaults();
    k.insert_runbook("checkout".to_string(), "checkout-runbook:v1".to_string());
    k.insert_runbook("zeta".to_string(), "z".to_string());
    k.insert_runbook("gateway".to_string(), "gateway-runbook:v3".to_string());
    let services: Vec<&str> = k.runbooks.iter().map(|(s, _)| s.as_str()).collect();
    assert_eq!(services, vec!["checkout", "gateway", "payments-api", "zeta"]);
    assert_eq!(k.runbook_for("gateway").map(|s| s.as_str()), Some("gateway-runbook:v3"));
    assert_eq!(k.runbook_for("checkout").map(|s| s.as_str()), Some("checkout-runbook:v1"));
    assert_eq!(k.runbook_for("payments-api").map(|s| s.as_str()), Some("payments-api-latency-runbook:v3"));
    k.insert_owner("api".to_string(), "team-a".to_string());
    k.insert_owner("payments-api".to_string(), "team-p".to_string());
    assert_eq!(
        k.owners,
        vec![
            ("api".to_string(), "team-a".to_string()),
            ("gateway".to_string(), "sre-platform-oncall".to_string()),
            ("payments-api".to_string(), "team-p".to_string()),
        ]
    );
}

