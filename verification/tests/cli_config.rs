use sentinel_sre::cli::{parse_cli, CliCommand, OutputFormat};
use sentinel_sre::config::{ProviderConfig, RuntimeMode};
use sentinel_sre::domain::{Environment, Severity};

fn args(list: &[&str]) -> Vec<String> {
    list.iter().map(|s| s.to_string()).collect()
}

#[test]
fn severity_parsing_ignores_case() {
    assert_eq!(Severity::from_str("sev1"), Severity::Sev1);
    assert_eq!(Severity::from_str("SeV2"), Severity::Sev2);
    assert_eq!(Severity::from_str("SEV3"), Severity::Sev3);
    assert_eq!(Severity::from_str("sev4"), Severity::Sev4);
    assert_eq!(Severity::from_str("critical"), Severity::Sev4);
    assert_eq!(Severity::from_str(""), Severity::Sev4);
}

#[test]
fn environment_parsing_ignores_case() {
    assert_eq!(Environment::from_str("prod"), Environment::Prod);
    assert_eq!(Environment::from_str("PRODUCTION"), Environment::Prod);
    assert_eq!(Environment::from_str("Staging"), Environment::Staging);
    assert_eq!(Environment::from_str("dev"), Environment::Dev);
    assert_eq!(Environment::from_str("qa"), Environment::Dev);
}

#[test]
fn mode_and_format_parsing() {
    assert_eq!(RuntimeMode::from_str("REAL"), RuntimeMode::Real);
    assert_eq!(RuntimeMode::from_str("mock"), RuntimeMode::Mock);
    assert_eq!(RuntimeMode::from_str("realtime"), RuntimeMode::Mock);
    assert_eq!(OutputFormat::from_str("Json"), OutputFormat::Json);
    assert_eq!(OutputFormat::from_str("yaml"), OutputFormat::Text);
}

#[test]
fn names_match_the_variants() {
    assert_eq!(Severity::Sev3.name(), "Sev3");
    assert_eq!(Environment::Staging.name(), "Staging");
    assert_eq!(RuntimeMode::Real.name(), "Real");
    assert_eq!(OutputFormat::Json.name(), "Json");
}

#[test]
fn no_arguments_start_the_interactive_session() {
    match parse_cli(&[]) {
        Ok(CliCommand::Repl(c)) => {
            assert_eq!(c.service, "payments-api");
            assert_eq!(c.severity, Severity::Sev2);
            assert_eq!(c.environment, Environment::Staging);
            assert_eq!(c.mode, RuntimeMode::Mock);
            assert_eq!(c.output, OutputFormat::Text);
        }
        other => panic!("unexpected {:?}", other),
    }
}

#[test]
fn run_reads_every_option() {
    let a = args(&[
        "run", "--service", "gateway", "--summary", "5xx spike in prod", "--severity", "SEV1", "--env", "production",
        "--mode", "Real", "--output", "json",
    ]);
    match parse_cli(&a) {
        Ok(CliCommand::Run(c)) => {
            assert_eq!(c.service, "gateway");
            assert_eq!(c.summary, "5xx spike in prod");
            assert_eq!(c.severity, Severity::Sev1);
            assert_eq!(c.environment, Environment::Prod);
            assert_eq!(c.mode, RuntimeMode::Real);
            assert_eq!(c.output, OutputFormat::Json);
        }
        other => panic!("unexpected {:?}", other),
    }
}

#[test]
fn run_defaults() {
    match parse_cli(&args(&["run"])) {
        Ok(CliCommand::Run(c)) => {
            assert_eq!(c.service, "payments-api");
            assert_eq!(c.summary, "high latency and elevated error rate after deploy");
            assert_eq!(c.severity, Severity::Sev2);
            assert_eq!(c.environment, Environment::Staging);
            assert_eq!(c.mode, RuntimeMode::Mock);
            assert_eq!(c.output, OutputFormat::Text);
        }
        other => panic!("unexpected {:?}", other),
    }
}

#[test]
fn first_occurrence_of_an_option_wins_and_a_trailing_key_is_ignored() {
    let a = args(&["run", "--service", "a", "--service", "b", "--env"]);
    match parse_cli(&a) {
        Ok(CliCommand::Run(c)) => {
            assert_eq!(c.service, "a");
            assert_eq!(c.environment, Environment::Staging);
        }
        other => panic!("unexpected {:?}", other),
    }
}

#[test]
fn repl_reads_its_options() {
    match parse_cli(&args(&["repl", "--env", "dev", "--output", "json"])) {
        Ok(CliCommand::Repl(c)) => {
            assert_eq!(c.environment, Environment::Dev);
            assert_eq!(c.output, OutputFormat::Json);
            assert_eq!(c.service, "payments-api");
        }
        other => panic!("unexpected {:?}", other),
    }
}

#[test]
fn doctor_defaults_to_real_mode() {
    assert!(matches!(parse_cli(&args(&["doctor"])), Ok(CliCommand::Doctor(RuntimeMode::Real))));
    assert!(matches!(parse_cli(&args(&["doctor", "--mode", "mock"])), Ok(CliCommand::Doctor(RuntimeMode::Mock))));
}

#[test]
fn benefits_and_help() {
    assert!(matches!(parse_cli(&args(&["benefits"])), Ok(CliCommand::Benefits)));
    assert!(matches!(parse_cli(&args(&["help"])), Ok(CliCommand::Help)));
    assert!(matches!(parse_cli(&args(&["--help"])), Ok(CliCommand::Help)));
    assert!(matches!(parse_cli(&args(&["-h"])), Ok(CliCommand::Help)));
}

#[test]
fn unknown_option_is_an_error() {
    match parse_cli(&args(&["--verbose", "x"])) {
        Err(e) => assert_eq!(e, "unknown option: --verbose"),
        other => panic!("unexpected {:?}", other),
    }
}

#[test]
fn bare_words_are_an_incident_summary() {
    match parse_cli(&args(&["latency", "spike", "--env", "prod"])) {
        Ok(CliCommand::Run(c)) => {
            assert_eq!(c.summary, "latency spike --env prod");
            assert_eq!(c.environment, Environment::Prod);
            assert_eq!(c.service, "payments-api");
            assert_eq!(c.mode, RuntimeMode::Mock);
        }
        other => panic!("unexpected {:?}", other),
    }
}

#[test]
fn provider_settings_fall_back_to_defaults() {
    let c = ProviderConfig::from_settings(None, Some("http://loki:3100".to_string()), None, None, None, None, None);
    assert_eq!(c.prometheus_url, "http://localhost:9090");
    assert_eq!(c.loki_url, "http://loki:3100");
    assert_eq!(c.k8s_api_url, "https://kubernetes.default.svc");
    assert_eq!(c.k8s_namespace, "default");
    assert_eq!(c.service_label_key, "app");
    assert_eq!(c.bearer_token, None);
    assert_eq!(c.remediation_webhook_url, None);
}

#[test]
fn provider_settings_keep_given_values() {
    let c = ProviderConfig::from_settings(
        Some("p".to_string()),
        Some("l".to_string()),
        Some("k".to_string()),
        Some("ns".to_string()),
        Some("svc".to_string()),
        Some("tok".to_string()),
        Some("hook".to_string()),
    );
    assert_eq!(c.prometheus_url, "p");
    assert_eq!(c.k8s_api_url, "k");
    assert_eq!(c.k8s_namespace, "ns");
    assert_eq!(c.service_label_key, "svc");
    assert_eq!(c.bearer_token.as_deref(), Some("tok"));
    assert_eq!(c.remediation_webhook_url.as_deref(), Some("hook"));
}
