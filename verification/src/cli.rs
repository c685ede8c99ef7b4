//! Command-line parsing: `run`, `repl`, `doctor`, `benefits`, `help`, or a
//! bare incident summary.

use vstd::prelude::*;
use crate::config::RuntimeMode;
use crate::domain::{Environment, Severity};
use crate::text::{
    chars_of, equals_ignore_case, join, join_texts, lower, same_chars, starts_with_char,
    text_equals, texts,
};

verus! {

#[derive(Debug, Clone, Copy, PartialEq, Eq, Structural)]
pub enum OutputFormat {
    Text,
    Json,
}

impl OutputFormat {

    /// The name the console shows.
    pub open spec fn spec_name(self) -> Seq<char> {
        match self {
            OutputFormat::Text => "Text"@,
            OutputFormat::Json => "Json"@,
        }
    }

    pub fn name(&self) -> (r: &'static str)
        ensures
            r@ == self.spec_name(),
    {
        match self {
            OutputFormat::Text => "Text",
            OutputFormat::Json => "Json",
        }
    }
    /// Case-insensitive reading of a format: `json`, anything else is `Text`.
    pub open spec fn spec_from_str(value: Seq<char>) -> OutputFormat {
        if lower(value) == "json"@ {
            OutputFormat::Json
        } else {
            OutputFormat::Text
        }
    }

    pub fn from_str(value: &str) -> (r: Self)
        ensures
            r == Self::spec_from_str(value@),
    {
        if equals_ignore_case(value, "json") {
            OutputFormat::Json
        } else {
            OutputFormat::Text
        }
    }
}

#[derive(Debug, Clone)]
pub struct RunConfig {
    pub service: String,
    pub summary: String,
    pub severity: Severity,
    pub environment: Environment,
    pub mode: RuntimeMode,
    pub output: OutputFormat,
}

#[derive(Debug, Clone)]
pub struct ReplConfig {
    pub service: String,
    pub severity: Severity,
    pub environment: Environment,
    pub mode: RuntimeMode,
    pub output: OutputFormat,
}

#[derive(Debug, Clone)]
pub enum CliCommand {
    Run(RunConfig),
    Repl(ReplConfig),
    Doctor(RuntimeMode),
    Benefits,
    Help,
}

/// Severities, environments, modes and output formats are read the same
/// whatever the case of their letters.
pub proof fn lemma_parsing_ignores_case(value: Seq<char>)
    ensures
        Severity::spec_from_str(value) == Severity::spec_from_str(lower(value)),
        Environment::spec_from_str(value) == Environment::spec_from_str(lower(value)),
        RuntimeMode::spec_from_str(value) == RuntimeMode::spec_from_str(lower(value)),
        OutputFormat::spec_from_str(value) == OutputFormat::spec_from_str(lower(value)),
{
    crate::text::lemma_lower_idempotent(value);
}

/// The argument that follows the first occurrence of `key` that has one.
pub open spec fn value_for_spec(args: Seq<Seq<char>>, key: Seq<char>) -> Option<Seq<char>>
    decreases args.len(),
{
    if args.len() < 2 {
        None
    } else if args[0] == key {
        Some(args[1])
    } else {
        value_for_spec(args.drop_first(), key)
    }
}

/// The value given for `key`, or `default`.
pub open spec fn value_or(args: Seq<Seq<char>>, key: Seq<char>, default: Seq<char>) -> Seq<char> {
    match value_for_spec(args, key) {
        Some(v) => v,
        None => default,
    }
}

/// The summary that `run` uses when none is given.
pub open spec fn default_summary() -> Seq<char> {
    "high latency and elevated error rate after deploy"@
}

/// `c` is the run configuration that `args` ask for, with summary `summary`.
pub open spec fn run_config_from(c: RunConfig, args: Seq<Seq<char>>, summary: Seq<char>) -> bool {
    &&& c.service@ == value_or(args, "--service"@, "payments-api"@)
    &&& c.summary@ == summary
    &&& c.severity == Severity::spec_from_str(value_or(args, "--severity"@, "sev2"@))
    &&& c.environment == Environment::spec_from_str(value_or(args, "--env"@, "staging"@))
    &&& c.mode == RuntimeMode::spec_from_str(value_or(args, "--mode"@, "mock"@))
    &&& c.output == OutputFormat::spec_from_str(value_or(args, "--output"@, "text"@))
}

/// `c` is the interactive configuration that `args` ask for.
pub open spec fn repl_config_from(c: ReplConfig, args: Seq<Seq<char>>) -> bool {
    &&& c.service@ == value_or(args, "--service"@, "payments-api"@)
    &&& c.severity == Severity::spec_from_str(value_or(args, "--severity"@, "sev2"@))
    &&& c.environment == Environment::spec_from_str(value_or(args, "--env"@, "staging"@))
    &&& c.mode == RuntimeMode::spec_from_str(value_or(args, "--mode"@, "mock"@))
    &&& c.output == OutputFormat::spec_from_str(value_or(args, "--output"@, "text"@))
}

/// `c` is the interactive configuration used when no argument is given.
pub open spec fn is_default_repl(c: ReplConfig) -> bool {
    &&& c.service@ == "payments-api"@
    &&& c.severity == Severity::Sev2
    &&& c.environment == Environment::Staging
    &&& c.mode == RuntimeMode::Mock
    &&& c.output == OutputFormat::Text
}

/// What the command line `args` asks for.
pub open spec fn parse_cli_matches(args: Seq<Seq<char>>, r: Result<CliCommand, String>) -> bool {
    if args.len() == 0 {
        r matches Ok(CliCommand::Repl(c)) && is_default_repl(c)
    } else if args[0] == "run"@ {
        r matches Ok(CliCommand::Run(c)) && run_config_from(
            c,
            args,
            value_or(args, "--summary"@, default_summary()),
        )
    } else if args[0] == "repl"@ {
        r matches Ok(CliCommand::Repl(c)) && repl_config_from(c, args)
    } else if args[0] == "doctor"@ {
        r matches Ok(CliCommand::Doctor(m)) && m == RuntimeMode::spec_from_str(
            value_or(args, "--mode"@, "real"@),
        )
    } else if args[0] == "benefits"@ {
        r matches Ok(CliCommand::Benefits)
    } else if args[0] == "help"@ || args[0] == "--help"@ || args[0] == "-h"@ {
        r matches Ok(CliCommand::Help)
    } else if args[0].len() > 0 && args[0][0] == '-' {
        r matches Err(e) && e@ == "unknown option: "@ + args[0]
    } else {
        r matches Ok(CliCommand::Run(c)) && run_config_from(c, args, join(args, " "@))
    }
}

/// When no argument before `i` equals `key`, the search is decided from `i` on.
proof fn lemma_value_for_skip(args: Seq<Seq<char>>, key: Seq<char>, i: int)
    requires
        0 <= i <= args.len(),
        forall|j: int| 0 <= j < i ==> args[j] != key,
    ensures
        value_for_spec(args, key) == value_for_spec(args.subrange(i, args.len() as int), key),
    decreases i,
{
    if i > 0 {
        if args.len() >= 2 {
            let rest = args.drop_first();
            assert forall|j: int| 0 <= j < i - 1 implies rest[j] != key by {
                assert(rest[j] == args[j + 1]);
            }
            lemma_value_for_skip(rest, key, i - 1);
            assert(rest.subrange(i - 1, rest.len() as int) =~= args.subrange(i, args.len() as int));
        }
    } else {
        assert(args.subrange(0, args.len() as int) =~= args);
    }
}

/// The value of an option is the argument right after its first
/// occurrence that has one.
pub proof fn lemma_value_after_first(args: Seq<Seq<char>>, key: Seq<char>, k: int)
    requires
        0 <= k,
        k + 1 < args.len(),
        args[k] == key,
        forall|j: int| 0 <= j < k ==> args[j] != key,
    ensures
        value_for_spec(args, key) == Some(args[k + 1]),
{
    lemma_value_for_skip(args, key, k);
    let rest = args.subrange(k, args.len() as int);
    assert(rest[0] == key && rest[1] == args[k + 1]);
}

/// An option that no argument (with one after it) names has no value.
pub proof fn lemma_value_absent(args: Seq<Seq<char>>, key: Seq<char>)
    requires
        forall|j: int| 0 <= j < args.len() - 1 ==> args[j] != key,
    ensures
        value_for_spec(args, key) is None,
    decreases args.len(),
{
    if args.len() >= 2 {
        let rest = args.drop_first();
        assert forall|j: int| 0 <= j < rest.len() - 1 implies rest[j] != key by {
            assert(rest[j] == args[j + 1]);
        }
        lemma_value_absent(rest, key);
    }
}

/// `repl` and `run` take their service from the argument after the first
/// `--service` that has one, and use `payments-api` when there is none.
pub proof fn lemma_service_option(args: Seq<Seq<char>>, r: Result<CliCommand, String>, k: int)
    requires
        parse_cli_matches(args, r),
        args.len() > 0,
        args[0] == "repl"@ || args[0] == "run"@,
    ensures
        (0 <= k && k + 1 < args.len() && args[k] == "--service"@ && forall|j: int|
            0 <= j < k ==> args[j] != "--service"@) ==> match r {
            Ok(CliCommand::Repl(c)) => c.service@ == args[k + 1],
            Ok(CliCommand::Run(c)) => c.service@ == args[k + 1],
            _ => false,
        },
        (forall|j: int| 0 <= j < args.len() - 1 ==> args[j] != "--service"@) ==> match r {
            Ok(CliCommand::Repl(c)) => c.service@ == "payments-api"@,
            Ok(CliCommand::Run(c)) => c.service@ == "payments-api"@,
            _ => false,
        },
{
    reveal_strlit("repl");
    reveal_strlit("run");
    assert("repl"@.len() != "run"@.len());
    if 0 <= k && k + 1 < args.len() && args[k] == "--service"@ && forall|j: int|
        0 <= j < k ==> args[j] != "--service"@ {
        lemma_value_after_first(args, "--service"@, k);
    }
    if forall|j: int| 0 <= j < args.len() - 1 ==> args[j] != "--service"@ {
        lemma_value_absent(args, "--service"@);
    }
}

/// `repl` and `run` work in production when the first `--env` that has a
/// value is followed by `prod` or `production` in any case, and in staging
/// when no `--env` is given.
pub proof fn lemma_env_option(args: Seq<Seq<char>>, r: Result<CliCommand, String>, k: int)
    requires
        parse_cli_matches(args, r),
        args.len() > 0,
        args[0] == "repl"@ || args[0] == "run"@,
    ensures
        (0 <= k && k + 1 < args.len() && args[k] == "--env"@ && (forall|j: int| 0 <= j < k ==> args[j] != "--env"@)
            && (lower(args[k + 1]) == "prod"@ || lower(args[k + 1]) == "production"@)) ==> match r {
            Ok(CliCommand::Repl(c)) => c.environment == Environment::Prod,
            Ok(CliCommand::Run(c)) => c.environment == Environment::Prod,
            _ => false,
        },
        (forall|j: int| 0 <= j < args.len() - 1 ==> args[j] != "--env"@) ==> match r {
            Ok(CliCommand::Repl(c)) => c.environment == Environment::Staging,
            Ok(CliCommand::Run(c)) => c.environment == Environment::Staging,
            _ => false,
        },
{
    reveal_strlit("repl");
    reveal_strlit("run");
    reveal_strlit("staging");
    assert("repl"@.len() != "run"@.len());
    if 0 <= k && k + 1 < args.len() && args[k] == "--env"@ && forall|j: int| 0 <= j < k ==> args[j] != "--env"@ {
        lemma_value_after_first(args, "--env"@, k);
    }
    if forall|j: int| 0 <= j < args.len() - 1 ==> args[j] != "--env"@ {
        lemma_value_absent(args, "--env"@);
        reveal_strlit("prod");
        reveal_strlit("production");
        assert(lower("staging"@) =~= "staging"@);
        assert("staging"@ != "prod"@ && "staging"@ != "production"@) by {
            assert("staging"@[0] != "prod"@[0]);
            assert("staging"@[0] != "production"@[0]);
        }
    }
}

/// The argument that follows the first occurrence of `key`.
fn value_for(args: &[String], key: &str) -> (r: Option<String>)
    ensures
        match r {
            Some(v) => value_for_spec(texts(args@), key@) == Some(v@),
            None => value_for_spec(texts(args@), key@) is None,
        },
{
    let ghost a = texts(args@);
    let k = chars_of(key);
    let mut i: usize = 0;
    while i < args.len() && i + 1 < args.len()
        invariant
            a == texts(args@),
            k@ == key@,
            i <= args@.len(),
            forall|j: int| 0 <= j < i ==> a[j] != key@,
        decreases args@.len() - i,
    {
        let candidate = chars_of(args[i].as_str());
        if same_chars(&candidate, &k) {
            proof {
                lemma_value_for_skip(a, key@, i as int);
            }
            return Some(args[i + 1].clone());
        }
        i = i + 1;
    }
    proof {
        if args@.len() > 0 {
            lemma_value_for_skip(a, key@, i as int);
        } else {
            assert(a.len() == 0);
        }
    }
    None
}

fn value_or_default(args: &[String], key: &str, default: &str) -> (r: String)
    ensures
        r@ == value_or(texts(args@), key@, default@),
{
    match value_for(args, key) {
        Some(v) => v,
        None => String::from_str(default),
    }
}

fn parse_run_config(args: &[String]) -> (c: RunConfig)
    ensures
        run_config_from(
            c,
            texts(args@),
            value_or(texts(args@), "--summary"@, default_summary()),
        ),
{
    let service = value_or_default(args, "--service", "payments-api");
    let summary = value_or_default(args, "--summary", "high latency and elevated error rate after deploy");
    run_config_with_summary(args, service, summary)
}

fn run_config_with_summary(args: &[String], service: String, summary: String) -> (c: RunConfig)
    requires
        service@ == value_or(texts(args@), "--service"@, "payments-api"@),
    ensures
        run_config_from(c, texts(args@), summary@),
{
    let severity = Severity::from_str(value_or_default(args, "--severity", "sev2").as_str());
    let environment = Environment::from_str(value_or_default(args, "--env", "staging").as_str());
    let mode = RuntimeMode::from_str(value_or_default(args, "--mode", "mock").as_str());
    let output = OutputFormat::from_str(value_or_default(args, "--output", "text").as_str());
    RunConfig { service, summary, severity, environment, mode, output }
}

fn parse_repl_config(args: &[String]) -> (c: ReplConfig)
    ensures
        repl_config_from(c, texts(args@)),
{
    let service = value_or_default(args, "--service", "payments-api");
    let severity = Severity::from_str(value_or_default(args, "--severity", "sev2").as_str());
    let environment = Environment::from_str(value_or_default(args, "--env", "staging").as_str());
    let mode = RuntimeMode::from_str(value_or_default(args, "--mode", "mock").as_str());
    let output = OutputFormat::from_str(value_or_default(args, "--output", "text").as_str());
    ReplConfig { service, severity, environment, mode, output }
}

fn default_repl_config() -> (c: ReplConfig)
    ensures
        is_default_repl(c),
{
    ReplConfig {
        service: String::from_str("payments-api"),
        severity: Severity::Sev2,
        environment: Environment::Staging,
        mode: RuntimeMode::Mock,
        output: OutputFormat::Text,
    }
}

/// Reads the command line (without the program name).
pub fn parse_cli(args: &[String]) -> (r: Result<CliCommand, String>)
    ensures
        parse_cli_matches(texts(args@), r),
{
    let ghost a = texts(args@);
    if args.len() == 0 {
        return Ok(CliCommand::Repl(default_repl_config()));
    }
    assert(a[0] == args@[0]@);
    let first = args[0].as_str();
    if text_equals(first, "run") {
        Ok(CliCommand::Run(parse_run_config(args)))
    } else if text_equals(first, "repl") {
        Ok(CliCommand::Repl(parse_repl_config(args)))
    } else if text_equals(first, "doctor") {
        let mode = RuntimeMode::from_str(value_or_default(args, "--mode", "real").as_str());
        Ok(CliCommand::Doctor(mode))
    } else if text_equals(first, "benefits") {
        Ok(CliCommand::Benefits)
    } else if text_equals(first, "help") || text_equals(first, "--help") || text_equals(first, "-h") {
        Ok(CliCommand::Help)
    } else if starts_with_char(first, '-') {
        Err(String::from_str("unknown option: ").concat(first))
    } else {
        let summary = join_texts(args, " ");
        let service = value_or_default(args, "--service", "payments-api");
        Ok(CliCommand::Run(run_config_with_summary(args, service, summary)))
    }
}

} // verus!
