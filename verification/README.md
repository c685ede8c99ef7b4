# sentinel_sre

A verified core for an SRE incident-response assistant. An incident runs
through a fixed workflow (intake, triage, hypotheses, diagnosis, mitigation
plan, policy and approval, execution, verification, closeout), guarded by a
policy on rollback steps, blast radius and risk, and by an approval gate.
Every step is written to an audit timeline.

Layout:

- `src/` — the library, verified with Verus:
  - `text.rs` — case folding, substring search, trimming, decimal rendering
  - `domain.rs` — incidents, evidence, hypotheses, plans, reports
  - `policy.rs`, `approval.rs` — the guardrails and their laws
  - `audit.rs`, `memory.rs` — timeline, session notes, runbooks and owners
    (kept sorted by service, as a map)
  - `engine.rs` — the workflow and its laws
  - `tools.rs` — the toolset interface, the simulated toolset and the
    adapter that lets a live backend serve as a toolset
  - `providers.rs` — queries, endpoints and reply reading of the real providers
  - `cli.rs`, `config.rs`, `console.rs` — command line, settings, interactive
    session, text and JSON reports
- `tests/` — tests of the library on concrete values.
- `app/` — the `sentinel-sre` program: terminal I/O, environment, HTTP calls,
  and rendering the library's JSON documents as text.

Confidence values are kept in hundredths (`92` is `0.92`).
