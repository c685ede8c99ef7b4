//! The logic of the real provider adapters: the queries and endpoints they
//! use, how the replies of Prometheus, Loki and the Kubernetes API are
//! read, and the tool responses built from the query outcomes. The network
//! calls themselves are made by the caller, which hands the replies here as
//! `JsonValue`s.

use vstd::prelude::*;
use crate::audit::is_timestamp;
use crate::config::ProviderConfig;
use crate::domain::{Hypothesis, IncidentInput, MitigationPlan, ToolResponse, ToolStatus, Evidence};
use crate::text::{contains, contains_ignore_case, decimal, lower, push_char, push_decimal, texts};
use crate::tools::{evidence_view, make_evidence, one_text, response_view, stamped, two_texts, EvidenceView, ResponseView};

verus! {

/// A JSON document as the provider replies carry it. A number is kept as
/// the `i64` it denotes, or `None` when it is not an integer in that range.
#[derive(Debug)]
pub enum JsonValue {
    Null,
    Bool(bool),
    Number(Option<i64>),
    Str(String),
    Array(Vec<JsonValue>),
    Object(Vec<(String, JsonValue)>),
}

/// A JSON document as a mathematical value.
pub enum JsonView {
    Null,
    Bool(bool),
    Number(Option<i64>),
    Str(Seq<char>),
    Array(Seq<JsonView>),
    Object(Seq<(Seq<char>, JsonView)>),
}

/// The document a `JsonValue` holds.
pub open spec fn json_view(v: JsonValue) -> JsonView
    decreases v,
{
    match v {
        JsonValue::Null => JsonView::Null,
        JsonValue::Bool(b) => JsonView::Bool(b),
        JsonValue::Number(n) => JsonView::Number(n),
        JsonValue::Str(s) => JsonView::Str(s@),
        JsonValue::Array(items) => JsonView::Array(
            Seq::new(
                items@.len(),
                |i: int|
                    if 0 <= i < items@.len() {
                        json_view(items@[i])
                    } else {
                        JsonView::Null
                    },
            ),
        ),
        JsonValue::Object(members) => JsonView::Object(
            Seq::new(
                members@.len(),
                |i: int|
                    if 0 <= i < members@.len() {
                        (members@[i].0@, json_view(members@[i].1))
                    } else {
                        (Seq::empty(), JsonView::Null)
                    },
            ),
        ),
    }
}

/// The document of an object is the list of its members' names and
/// documents.
pub proof fn lemma_object_view(members: Vec<(String, JsonValue)>)
    ensures
        json_view(JsonValue::Object(members)) == JsonView::Object(
            members@.map_values(|m: (String, JsonValue)| (m.0@, json_view(m.1))),
        ),
{
    if let JsonView::Object(a) = json_view(JsonValue::Object(members)) {
        assert forall|j: int| 0 <= j < a.len() implies a[j] == (members@[j].0@, json_view(members@[j].1)) by {}
        assert(a =~= members@.map_values(|m: (String, JsonValue)| (m.0@, json_view(m.1))));
    }
}

/// An array of strings.
pub open spec fn str_array(items: Seq<Seq<char>>) -> JsonView {
    JsonView::Array(items.map_values(|t: Seq<char>| JsonView::Str(t)))
}

/// An array of the given strings.
pub fn strings_json(items: &Vec<String>) -> (v: JsonValue)
    ensures
        json_view(v) == str_array(texts(items@)),
{
    let mut out: Vec<JsonValue> = Vec::new();
    let mut i: usize = 0;
    while i < items.len()
        invariant
            i <= items@.len(),
            out@.len() == i,
            forall|j: int| 0 <= j < i ==> #[trigger] json_view(out@[j]) == JsonView::Str(items@[j]@),
        decreases items@.len() - i,
    {
        out.push(JsonValue::Str(items[i].clone()));
        i = i + 1;
    }
    let v = JsonValue::Array(out);
    assert(json_view(v) =~= str_array(texts(items@))) by {
        if let JsonView::Array(a) = json_view(v) {
            assert(a.len() == out@.len());
            assert forall|j: int| 0 <= j < a.len() implies a[j] == JsonView::Str(items@[j]@) by {
                assert(a[j] == json_view(out@[j]));
            }
            assert(a =~= texts(items@).map_values(|t: Seq<char>| JsonView::Str(t)));
        }
    }
    v
}

/// The value of the first member named `key`.
pub open spec fn member(entries: Seq<(String, JsonValue)>, key: Seq<char>) -> Option<JsonValue>
    decreases entries.len(),
{
    if entries.len() == 0 {
        None
    } else if entries[0].0@ == key {
        Some(entries[0].1)
    } else {
        member(entries.drop_first(), key)
    }
}

/// The member `key` of an object.
pub open spec fn field(v: Option<JsonValue>, key: Seq<char>) -> Option<JsonValue> {
    match v {
        Some(JsonValue::Object(entries)) => member(entries@, key),
        _ => None,
    }
}

/// The element at position `i` of an array.
pub open spec fn element(v: Option<JsonValue>, i: int) -> Option<JsonValue> {
    match v {
        Some(JsonValue::Array(items)) => if 0 <= i < items@.len() {
            Some(items@[i])
        } else {
            None
        },
        _ => None,
    }
}

/// The text of a string.
pub open spec fn text_of(v: Option<JsonValue>) -> Option<Seq<char>> {
    match v {
        Some(JsonValue::Str(s)) => Some(s@),
        _ => None,
    }
}

pub open spec fn deref_opt(v: Option<&JsonValue>) -> Option<JsonValue> {
    match v {
        Some(x) => Some(*x),
        None => None,
    }
}

proof fn lemma_member_skip(entries: Seq<(String, JsonValue)>, key: Seq<char>, i: int)
    requires
        0 <= i <= entries.len(),
        forall|j: int| 0 <= j < i ==> entries[j].0@ != key,
    ensures
        member(entries, key) == member(entries.subrange(i, entries.len() as int), key),
    decreases i,
{
    if i > 0 {
        let rest = entries.drop_first();
        assert forall|j: int| 0 <= j < i - 1 implies rest[j].0@ != key by {
            assert(rest[j] == entries[j + 1]);
        }
        lemma_member_skip(rest, key, i - 1);
        assert(rest.subrange(i - 1, rest.len() as int) =~= entries.subrange(i, entries.len() as int));
    } else {
        assert(entries.subrange(0, entries.len() as int) =~= entries);
    }
}

/// The member `key` of an object.
pub fn json_field<'a>(v: Option<&'a JsonValue>, key: &str) -> (r: Option<&'a JsonValue>)
    ensures
        deref_opt(r) == field(deref_opt(v), key@),
{
    match v {
        Some(JsonValue::Object(entries)) => {
            assert(field(deref_opt(v), key@) == member(entries@, key@));
            let mut i: usize = 0;
            while i < entries.len()
                invariant
                    i <= entries@.len(),
                    field(deref_opt(v), key@) == member(entries@, key@),
                    forall|j: int| 0 <= j < i ==> entries@[j].0@ != key@,
                decreases entries@.len() - i,
            {
                if crate::text::text_equals(entries[i].0.as_str(), key) {
                    proof {
                        lemma_member_skip(entries@, key@, i as int);
                        let rest = entries@.subrange(i as int, entries@.len() as int);
                        assert(rest[0] == entries@[i as int]);
                        assert(member(rest, key@) == Some(entries@[i as int].1));
                    }
                    return Some(&entries[i].1);
                }
                i = i + 1;
            }
            proof {
                lemma_member_skip(entries@, key@, i as int);
            }
            None
        },
        _ => None,
    }
}

/// The element at position `i` of an array.
pub fn json_element<'a>(v: Option<&'a JsonValue>, i: usize) -> (r: Option<&'a JsonValue>)
    ensures
        deref_opt(r) == element(deref_opt(v), i as int),
{
    match v {
        Some(JsonValue::Array(items)) => {
            if i < items.len() {
                Some(&items[i])
            } else {
                None
            }
        },
        _ => None,
    }
}

/// The text of a string, copied.
pub fn json_text(v: Option<&JsonValue>) -> (r: Option<String>)
    ensures
        match r {
            Some(s) => text_of(deref_opt(v)) == Some(s@),
            None => text_of(deref_opt(v)) is None,
        },
{
    match v {
        Some(JsonValue::Str(s)) => Some(s.clone()),
        _ => None,
    }
}


/// The sample value of a Prometheus instant query: `data.result[0].value[1]`.
pub open spec fn prometheus_scalar_spec(payload: JsonValue) -> Option<Seq<char>> {
    text_of(element(field(element(field(field(Some(payload), "data"@), "result"@), 0), "value"@), 1))
}

/// The newest line of a Loki range query: `data.result[0].values[0][1]`.
pub open spec fn loki_top_line_spec(payload: JsonValue) -> Option<Seq<char>> {
    text_of(
        element(
            element(field(element(field(field(Some(payload), "data"@), "result"@), 0), "values"@), 0),
            1,
        ),
    )
}

/// The sample value of a Prometheus instant query reply.
pub fn prometheus_scalar(payload: &JsonValue) -> (r: Option<String>)
    ensures
        match r {
            Some(s) => prometheus_scalar_spec(*payload) == Some(s@),
            None => prometheus_scalar_spec(*payload) is None,
        },
{
    let data = json_field(Some(payload), "data");
    let result = json_field(data, "result");
    let first = json_element(result, 0);
    let value = json_field(first, "value");
    let sample = json_element(value, 1);
    json_text(sample)
}

/// The newest log line of a Loki range query reply.
pub fn loki_top_line(payload: &JsonValue) -> (r: Option<String>)
    ensures
        match r {
            Some(s) => loki_top_line_spec(*payload) == Some(s@),
            None => loki_top_line_spec(*payload) is None,
        },
{
    let data = json_field(Some(payload), "data");
    let result = json_field(data, "result");
    let first = json_element(result, 0);
    let values = json_field(first, "values");
    let newest = json_element(values, 0);
    let line = json_element(newest, 1);
    json_text(line)
}

/// The items of an array, or none.
pub open spec fn items_of(v: Option<JsonValue>) -> Seq<JsonValue> {
    match v {
        Some(JsonValue::Array(items)) => items@,
        _ => Seq::<JsonValue>::empty(),
    }
}

/// The restart count of a container status, zero where it has none.
pub open spec fn container_restarts(c: JsonValue) -> int {
    match field(Some(c), "restartCount"@) {
        Some(JsonValue::Number(Some(n))) => n as int,
        _ => 0,
    }
}

/// The container statuses of a pod.
pub open spec fn containers_of(pod: JsonValue) -> Seq<JsonValue> {
    items_of(field(field(Some(pod), "status"@), "containerStatuses"@))
}

/// The restart counts of all containers of all pods, pod by pod.
pub open spec fn restart_counts(pods: Seq<JsonValue>) -> Seq<int>
    decreases pods.len(),
{
    if pods.len() == 0 {
        Seq::<int>::empty()
    } else {
        restart_counts(pods.drop_last()) + containers_of(pods.last()).map_values(
            |c: JsonValue| container_restarts(c),
        )
    }
}

pub open spec fn fits_i64(n: int) -> bool {
    i64::MIN <= n <= i64::MAX
}

/// The running total of `counts`, or `None` once a partial sum leaves the
/// `i64` range.
pub open spec fn running_total(counts: Seq<int>) -> Option<int>
    decreases counts.len(),
{
    if counts.len() == 0 {
        Some(0)
    } else {
        match running_total(counts.drop_last()) {
            Some(t) => if fits_i64(t + counts.last()) {
                Some(t + counts.last())
            } else {
                None
            },
            None => None,
        }
    }
}

/// Decimal rendering of a signed integer.
pub open spec fn signed_decimal(n: int) -> Seq<char> {
    if n < 0 {
        seq!['-'] + decimal((-n) as nat)
    } else {
        decimal(n as nat)
    }
}

/// Appends the decimal rendering of `n`.
pub fn push_signed_decimal(s: &mut String, n: i64)
    ensures
        final(s)@ == old(s)@ + signed_decimal(n as int),
{
    if n < 0 {
        push_char(s, '-');
        let magnitude: u64 = if n == i64::MIN {
            9223372036854775808u64
        } else {
            (-n) as u64
        };
        push_decimal(s, magnitude);
    } else {
        push_decimal(s, n as u64);
    }
    assert(final(s)@ =~= old(s)@ + signed_decimal(n as int));
}

/// What the pod listing says of restarts: the total restart count of all
/// containers of all listed pods, or an error when a running total leaves
/// the `i64` range.
pub open spec fn restart_summary_spec(payload: JsonValue) -> Result<Seq<char>, Seq<char>> {
    match running_total(restart_counts(items_of(field(Some(payload), "items"@)))) {
        Some(t) => Ok(signed_decimal(t)),
        None => Err("restart count overflow"@),
    }
}

proof fn lemma_running_total_prefix(s: Seq<int>, k: int)
    requires
        0 <= k <= s.len(),
        running_total(s.subrange(0, k)) is None,
    ensures
        running_total(s) is None,
    decreases s.len() - k,
{
    if k == s.len() {
        assert(s.subrange(0, k) =~= s);
    } else {
        assert(s.drop_last().subrange(0, k) =~= s.subrange(0, k));
        lemma_running_total_prefix(s.drop_last(), k);
    }
}

proof fn lemma_restart_counts_concat(a: Seq<JsonValue>, b: Seq<JsonValue>)
    ensures
        restart_counts(a + b) == restart_counts(a) + restart_counts(b),
    decreases b.len(),
{
    if b.len() == 0 {
        assert(a + b =~= a);
        assert(restart_counts(a) + restart_counts(b) =~= restart_counts(a));
    } else {
        lemma_restart_counts_concat(a, b.drop_last());
        assert((a + b).drop_last() =~= a + b.drop_last());
        assert((a + b).last() == b.last());
        assert(restart_counts(a + b) =~= restart_counts(a) + restart_counts(b));
    }
}

/// The restart count of one container status.
fn restarts_of(c: &JsonValue) -> (n: i64)
    ensures
        n as int == container_restarts(*c),
{
    match json_field(Some(c), "restartCount") {
        Some(JsonValue::Number(Some(n))) => *n,
        _ => 0,
    }
}

/// The total restart count over a Kubernetes pod listing.
pub fn restart_count_summary(payload: &JsonValue) -> (r: Result<Option<String>, String>)
    ensures
        match r {
            Ok(Some(s)) => restart_summary_spec(*payload) == Ok::<Seq<char>, Seq<char>>(s@),
            Ok(None) => false,
            Err(e) => restart_summary_spec(*payload) == Err::<Seq<char>, Seq<char>>(e@),
        },
{
    let items = json_field(Some(payload), "items");
    let ghost pods = items_of(deref_opt(items));
    let empty: Vec<JsonValue> = Vec::new();
    let pod_list: &Vec<JsonValue> = match items {
        Some(JsonValue::Array(list)) => list,
        _ => &empty,
    };
    assert(pod_list@ == pods);
    let mut total: i64 = 0;
    let mut i: usize = 0;
    while i < pod_list.len()
        invariant
            i <= pod_list@.len(),
            pod_list@ == pods,
            pods == items_of(field(Some(*payload), "items"@)),
            running_total(restart_counts(pods.subrange(0, i as int))) == Some(total as int),
        decreases pod_list@.len() - i,
    {
        let statuses = json_field(json_field(Some(&pod_list[i]), "status"), "containerStatuses");
        let empty_statuses: Vec<JsonValue> = Vec::new();
        let containers: &Vec<JsonValue> = match statuses {
            Some(JsonValue::Array(list)) => list,
            _ => &empty_statuses,
        };
        let ghost done = restart_counts(pods.subrange(0, i as int));
        let ghost per_pod = containers@.map_values(|c: JsonValue| container_restarts(c));
        assert(containers@ == containers_of(pods[i as int]));
        let mut j: usize = 0;
        while j < containers.len()
            invariant
                j <= containers@.len(),
                i < pods.len(),
                pods == items_of(field(Some(*payload), "items"@)),
                done == restart_counts(pods.subrange(0, i as int)),
                containers@ == containers_of(pods[i as int]),
                per_pod == containers@.map_values(|c: JsonValue| container_restarts(c)),
                running_total(done + per_pod.subrange(0, j as int)) == Some(total as int),
            decreases containers@.len() - j,
        {
            let n = restarts_of(&containers[j]);
            proof {
                let next = done + per_pod.subrange(0, j + 1);
                assert(next.drop_last() =~= done + per_pod.subrange(0, j as int));
                assert(next.last() == n as int);
            }
            match total.checked_add(n) {
                Some(t) => {
                    total = t;
                },
                None => {
                    proof {
                        let next = done + per_pod.subrange(0, j + 1);
                        assert(running_total(next) is None);
                        let head = pods.subrange(0, i + 1);
                        let tail = pods.subrange(i + 1, pods.len() as int);
                        assert(head.drop_last() =~= pods.subrange(0, i as int));
                        assert(restart_counts(head) =~= done + per_pod);
                        assert(pods =~= head + tail);
                        lemma_restart_counts_concat(head, tail);
                        let full = restart_counts(pods);
                        assert(full.subrange(0, next.len() as int) =~= next);
                        lemma_running_total_prefix(full, next.len() as int);
                    }
                    return Err(String::from_str("restart count overflow"));
                },
            }
            j = j + 1;
        }
        proof {
            let next = pods.subrange(0, i + 1);
            assert(next.drop_last() =~= pods.subrange(0, i as int));
            assert(per_pod.subrange(0, j as int) =~= per_pod);
            assert(restart_counts(next) =~= done + per_pod);
        }
        i = i + 1;
    }
    assert(pods.subrange(0, pod_list@.len() as int) =~= pods);
    let mut s = String::new();
    push_signed_decimal(&mut s, total);
    Ok(Some(s))
}


/// The outcome of one provider query: a value (possibly absent) or the
/// error text.
pub type Outcome = Result<Option<String>, String>;

pub type OutcomeView = Result<Option<Seq<char>>, Seq<char>>;

pub open spec fn outcome_view(o: Outcome) -> OutcomeView {
    match o {
        Ok(Some(v)) => Ok(Some(v@)),
        Ok(None) => Ok(None),
        Err(e) => Err(e@),
    }
}

/// The observation reported for a query outcome: the value with the given
/// detail and confidence, or the error with the failure detail and a
/// confidence of 0.20.
pub open spec fn outcome_evidence(
    o: OutcomeView,
    source: Seq<char>,
    detail: Seq<char>,
    confidence: nat,
    failure_detail: Seq<char>,
) -> EvidenceView {
    match o {
        Ok(v) => (source, detail, v, confidence),
        Err(e) => (source, failure_detail, Some(e), 20),
    }
}

/// The observation reported for a query outcome.
pub fn evidence_from_outcome(
    o: &Outcome,
    source: &str,
    detail: &str,
    confidence: u32,
    failure_detail: &str,
) -> (e: Evidence)
    ensures
        evidence_view(e) == outcome_evidence(outcome_view(*o), source@, detail@, confidence as nat, failure_detail@),
        is_timestamp(e.observed_at@),
{
    match o {
        Ok(Some(v)) => make_evidence(source, detail, Some(v.as_str()), confidence),
        Ok(None) => make_evidence(source, detail, None, confidence),
        Err(err) => make_evidence(source, failure_detail, Some(err.as_str()), 20),
    }
}

/// The query for the 95th-percentile request latency.
pub const LATENCY_QUERY: &'static str = "histogram_quantile(0.95, sum(rate(http_request_duration_seconds_bucket[5m])) by (le))";

/// The query for the rate of 5xx responses.
pub const ERROR_RATE_QUERY: &'static str = "sum(rate(http_requests_total{status=~\"5..\"}[5m]))";

/// The query for CPU use, checked for a capacity hypothesis.
pub const CPU_QUERY: &'static str = "avg(rate(container_cpu_usage_seconds_total[5m]))";

/// The query for open descriptors, a proxy of dependency pressure.
pub const OPEN_FDS_QUERY: &'static str = "sum(rate(process_open_fds[5m]))";

/// The Loki query for error lines of `service`.
pub open spec fn error_log_query_spec(service: Seq<char>) -> Seq<char> {
    "{service=\""@ + service + "\"} |= \"error\""@
}

/// The Loki query for deployment traces of `service`.
pub open spec fn deploy_log_query_spec(service: Seq<char>) -> Seq<char> {
    "{service=\""@ + service + "\"} |= \"deploy\" |~ \"rollout|revision\""@
}

/// The Loki query for error lines of `service`.
pub fn error_log_query(service: &str) -> (q: String)
    ensures
        q@ == error_log_query_spec(service@),
{
    let mut q = String::from_str("{service=\"");
    q.append(service);
    q.append("\"} |= \"error\"");
    q
}

/// The Loki query for deployment traces of `service`.
pub fn deploy_log_query(service: &str) -> (q: String)
    ensures
        q@ == deploy_log_query_spec(service@),
{
    let mut q = String::from_str("{service=\"");
    q.append(service);
    q.append("\"} |= \"deploy\" |~ \"rollout|revision\"");
    q
}

/// The Prometheus instant-query endpoint.
pub fn prometheus_query_url(config: &ProviderConfig) -> (u: String)
    ensures
        u@ == config.prometheus_url@ + "/api/v1/query"@,
{
    config.prometheus_url.clone().concat("/api/v1/query")
}

/// The Loki range-query endpoint.
pub fn loki_query_url(config: &ProviderConfig) -> (u: String)
    ensures
        u@ == config.loki_url@ + "/loki/api/v1/query_range"@,
{
    config.loki_url.clone().concat("/loki/api/v1/query_range")
}

/// The Kubernetes endpoint listing the pods of the configured namespace.
pub fn k8s_pods_url(config: &ProviderConfig) -> (u: String)
    ensures
        u@ == config.k8s_api_url@ + "/api/v1/namespaces/"@ + config.k8s_namespace@ + "/pods"@,
{
    let mut u = config.k8s_api_url.clone();
    u.append("/api/v1/namespaces/");
    u.append(config.k8s_namespace.as_str());
    u.append("/pods");
    u
}

/// The label selector of the pods of `service`.
pub fn k8s_label_selector(config: &ProviderConfig, service: &str) -> (s: String)
    ensures
        s@ == config.service_label_key@ + "="@ + service@,
{
    let mut s = config.service_label_key.clone();
    s.append("=");
    s.append(service);
    s
}

/// The `Authorization` header value, when a bearer token is configured.
pub fn authorization_value(config: &ProviderConfig) -> (v: Option<String>)
    ensures
        match config.bearer_token {
            Some(t) => v matches Some(h) && h@ == "Bearer "@ + t@,
            None => v is None,
        },
{
    match &config.bearer_token {
        Some(t) => Some(String::from_str("Bearer ").concat(t.as_str())),
        None => None,
    }
}

pub open spec fn partial_unless(ok: bool) -> ToolStatus {
    if ok { ToolStatus::Success } else { ToolStatus::Partial }
}

/// The baseline built from the latency, error-rate, error-log and
/// restart-count query outcomes.
pub open spec fn real_baseline(l: OutcomeView, e: OutcomeView, g: OutcomeView, r: OutcomeView) -> ResponseView {
    let ok = l is Ok && e is Ok && g is Ok && r is Ok;
    (
        partial_unless(ok),
        seq![
            outcome_evidence(l, "prometheus"@, "p95 latency"@, 90, "p95 latency query error"@),
            outcome_evidence(e, "prometheus"@, "5xx error rate"@, 88, "5xx query error"@),
            outcome_evidence(g, "loki"@, "latest error log line"@, 75, "log query error"@),
            outcome_evidence(r, "kubernetes"@, "aggregate pod restart count"@, 82, "pod query error"@),
        ],
        if ok { 88 } else { 66 },
        seq![
            "cross-check recent deployment and alert timeline"@,
            "evaluate dependency saturation vs regression"@,
        ],
    )
}

/// The baseline response from the outcomes of its four queries.
pub fn baseline_from_outcomes(latency: &Outcome, errors: &Outcome, logs: &Outcome, restarts: &Outcome) -> (r: Vec<ToolResponse>)
    ensures
        r@.len() == 1,
        response_view(r@[0]) == real_baseline(
            outcome_view(*latency),
            outcome_view(*errors),
            outcome_view(*logs),
            outcome_view(*restarts),
        ),
        stamped(r@[0]),
        r@[0].status == (if latency is Ok && errors is Ok && logs is Ok && restarts is Ok {
            ToolStatus::Success
        } else {
            ToolStatus::Partial
        }),
        r@[0].confidence == (if latency is Ok && errors is Ok && logs is Ok && restarts is Ok {
            88u32
        } else {
            66u32
        }),
{
    let mut evidence: Vec<Evidence> = Vec::new();
    evidence.push(evidence_from_outcome(latency, "prometheus", "p95 latency", 90, "p95 latency query error"));
    evidence.push(evidence_from_outcome(errors, "prometheus", "5xx error rate", 88, "5xx query error"));
    evidence.push(evidence_from_outcome(logs, "loki", "latest error log line", 75, "log query error"));
    evidence.push(evidence_from_outcome(
        restarts,
        "kubernetes",
        "aggregate pod restart count",
        82,
        "pod query error",
    ));
    let ok = latency.is_ok() && errors.is_ok() && logs.is_ok() && restarts.is_ok();
    let response = ToolResponse {
        status: if ok { ToolStatus::Success } else { ToolStatus::Partial },
        evidence,
        confidence: if ok { 88 } else { 66 },
        safe_next_actions: two_texts(
            "cross-check recent deployment and alert timeline",
            "evaluate dependency saturation vs regression",
        ),
    };
    assert(response_view(response).1 =~= real_baseline(
        outcome_view(*latency),
        outcome_view(*errors),
        outcome_view(*logs),
        outcome_view(*restarts),
    ).1);
    let mut r: Vec<ToolResponse> = Vec::new();
    r.push(response);
    r
}


/// Which provider a diagnostic query goes to.
#[derive(Debug, Clone, Copy, PartialEq, Eq, Structural)]
pub enum QueryBackend {
    Prometheus,
    Loki,
}

/// The focused check for a hypothesis: the query, where it goes, and how
/// its outcome is reported.
#[derive(Debug, Clone)]
pub struct DiagnosticQuery {
    pub backend: QueryBackend,
    pub query: String,
    pub source: String,
    pub detail: String,
    pub confidence: u32,
    pub failure_detail: String,
}

pub type DiagnosticQueryView = (QueryBackend, Seq<char>, Seq<char>, Seq<char>, nat, Seq<char>);

pub open spec fn diagnostic_query_view(q: DiagnosticQuery) -> DiagnosticQueryView {
    (q.backend, q.query@, q.source@, q.detail@, q.confidence as nat, q.failure_detail@)
}

/// The check for a hypothesis titled `title` about `service`: CPU use for
/// a capacity hypothesis, deployment traces in the logs for a deployment
/// hypothesis, open descriptors otherwise.
pub open spec fn diagnostic_query_spec(service: Seq<char>, title: Seq<char>) -> DiagnosticQueryView {
    let t = lower(title);
    if contains(t, "capacity"@) {
        (QueryBackend::Prometheus, CPU_QUERY@, "prometheus"@, "cpu utilization signal"@, 84, "cpu query error"@)
    } else if contains(t, "deployment"@) {
        (
            QueryBackend::Loki,
            deploy_log_query_spec(service),
            "loki"@,
            "deployment trace in logs"@,
            78,
            "deployment log query error"@,
        )
    } else {
        (
            QueryBackend::Prometheus,
            OPEN_FDS_QUERY@,
            "prometheus"@,
            "dependency pressure proxy"@,
            73,
            "dependency proxy query error"@,
        )
    }
}

fn diagnostic_query_of(
    backend: QueryBackend,
    query: String,
    source: &str,
    detail: &str,
    confidence: u32,
    failure_detail: &str,
) -> (q: DiagnosticQuery)
    ensures
        diagnostic_query_view(q) == (backend, query@, source@, detail@, confidence as nat, failure_detail@),
{
    DiagnosticQuery {
        backend,
        query,
        source: String::from_str(source),
        detail: String::from_str(detail),
        confidence,
        failure_detail: String::from_str(failure_detail),
    }
}

/// The focused check for `hypothesis` about `incident`.
pub fn diagnostic_query(incident: &IncidentInput, hypothesis: &Hypothesis) -> (q: DiagnosticQuery)
    ensures
        diagnostic_query_view(q) == diagnostic_query_spec(incident.service@, hypothesis.title@),
{
    let title = hypothesis.title.as_str();
    if contains_ignore_case(title, "capacity") {
        diagnostic_query_of(
            QueryBackend::Prometheus,
            String::from_str(CPU_QUERY),
            "prometheus",
            "cpu utilization signal",
            84,
            "cpu query error",
        )
    } else if contains_ignore_case(title, "deployment") {
        diagnostic_query_of(
            QueryBackend::Loki,
            deploy_log_query(incident.service.as_str()),
            "loki",
            "deployment trace in logs",
            78,
            "deployment log query error",
        )
    } else {
        diagnostic_query_of(
            QueryBackend::Prometheus,
            String::from_str(OPEN_FDS_QUERY),
            "prometheus",
            "dependency pressure proxy",
            73,
            "dependency proxy query error",
        )
    }
}

/// The diagnostic response for the outcome of a focused check.
pub open spec fn real_diagnostic(q: DiagnosticQueryView, o: OutcomeView) -> ResponseView {
    (
        partial_unless(o is Ok),
        seq![outcome_evidence(o, q.2, q.3, q.4, q.5)],
        if o is Ok { 82 } else { 58 },
        seq!["pick smallest blast-radius remediation candidate"@],
    )
}

/// The diagnostic response for the outcome of a focused check.
pub fn diagnostic_from_outcome(q: &DiagnosticQuery, outcome: &Outcome) -> (r: ToolResponse)
    ensures
        response_view(r) == real_diagnostic(diagnostic_query_view(*q), outcome_view(*outcome)),
        stamped(r),
        r.status == (if outcome is Ok {
            ToolStatus::Success
        } else {
            ToolStatus::Partial
        }),
        r.confidence == (if outcome is Ok {
            82u32
        } else {
            58u32
        }),
{
    let mut evidence: Vec<Evidence> = Vec::new();
    evidence.push(evidence_from_outcome(
        outcome,
        q.source.as_str(),
        q.detail.as_str(),
        q.confidence,
        q.failure_detail.as_str(),
    ));
    let ok = outcome.is_ok();
    let r = ToolResponse {
        status: if ok { ToolStatus::Success } else { ToolStatus::Partial },
        evidence,
        confidence: if ok { 82 } else { 58 },
        safe_next_actions: one_text("pick smallest blast-radius remediation candidate"),
    };
    assert(response_view(r).1 =~= real_diagnostic(diagnostic_query_view(*q), outcome_view(*outcome)).1);
    r
}

/// The execution response for the outcome of a remediation request.
pub open spec fn real_execution(o: Result<Seq<char>, Seq<char>>) -> ResponseView {
    match o {
        Ok(m) => (
            ToolStatus::Success,
            seq![("remediation"@, "execution gateway response"@, Some(m), 88nat)],
            88,
            seq!["verify SLO recovery over 10-minute window"@],
        ),
        Err(e) => (
            ToolStatus::Error,
            seq![("remediation"@, "execution gateway failure"@, Some(e), 20nat)],
            20,
            seq!["stop automation and request manual operator action"@],
        ),
    }
}

pub open spec fn text_result(o: Result<String, String>) -> Result<Seq<char>, Seq<char>> {
    match o {
        Ok(m) => Ok(m@),
        Err(e) => Err(e@),
    }
}

/// The execution response for the outcome of a remediation request.
pub fn execution_from_outcome(outcome: &Result<String, String>) -> (r: ToolResponse)
    ensures
        response_view(r) == real_execution(text_result(*outcome)),
        stamped(r),
        r.status == (if outcome is Ok {
            ToolStatus::Success
        } else {
            ToolStatus::Error
        }),
{
    let mut evidence: Vec<Evidence> = Vec::new();
    let r = match outcome {
        Ok(message) => {
            evidence.push(make_evidence(
                "remediation",
                "execution gateway response",
                Some(message.as_str()),
                88,
            ));
            ToolResponse {
                status: ToolStatus::Success,
                evidence,
                confidence: 88,
                safe_next_actions: one_text("verify SLO recovery over 10-minute window"),
            }
        },
        Err(err) => {
            evidence.push(make_evidence("remediation", "execution gateway failure", Some(err.as_str()), 20));
            ToolResponse {
                status: ToolStatus::Error,
                evidence,
                confidence: 20,
                safe_next_actions: one_text("stop automation and request manual operator action"),
            }
        },
    };
    assert(response_view(r).1 =~= real_execution(text_result(*outcome)).1);
    r
}

/// A real response reports success only when every query behind it
/// succeeded: the verification needs both the latency and the error-rate
/// queries (0.90 confidence, else partial at 0.60), the baseline all four
/// queries (0.88, else partial at 0.66), a diagnostic its one check (0.82,
/// else partial at 0.58); a failed query is reported with its error at
/// confidence 0.20.
pub proof fn lemma_real_status_rules(
    l: OutcomeView,
    e: OutcomeView,
    g: OutcomeView,
    r: OutcomeView,
    q: DiagnosticQueryView,
)
    ensures
        real_verification(l, e).0 == ToolStatus::Success <==> l is Ok && e is Ok,
        real_verification(l, e).0 == ToolStatus::Success || real_verification(l, e).0 == ToolStatus::Partial,
        real_verification(l, e).2 == (if l is Ok && e is Ok { 90nat } else { 60nat }),
        real_baseline(l, e, g, r).0 == ToolStatus::Success <==> l is Ok && e is Ok && g is Ok && r is Ok,
        real_baseline(l, e, g, r).0 == ToolStatus::Success || real_baseline(l, e, g, r).0 == ToolStatus::Partial,
        real_baseline(l, e, g, r).2 == (if l is Ok && e is Ok && g is Ok && r is Ok { 88nat } else { 66nat }),
        real_diagnostic(q, l).0 == ToolStatus::Success <==> l is Ok,
        real_diagnostic(q, l).0 == ToolStatus::Success || real_diagnostic(q, l).0 == ToolStatus::Partial,
        real_diagnostic(q, l).2 == (if l is Ok { 82nat } else { 58nat }),
        l matches Err(m) ==> real_verification(l, e).1[0].2 == Some(m) && real_verification(l, e).1[0].3 == 20,
        e matches Err(m) ==> real_verification(l, e).1[1].2 == Some(m) && real_verification(l, e).1[1].3 == 20,
{
}

/// The verification response from the latency and error-rate outcomes.
pub open spec fn real_verification(l: OutcomeView, e: OutcomeView) -> ResponseView {
    let ok = l is Ok && e is Ok;
    (
        partial_unless(ok),
        seq![
            outcome_evidence(l, "prometheus"@, "post-mitigation p95 latency"@, 92, "latency verify query error"@),
            outcome_evidence(e, "prometheus"@, "post-mitigation 5xx rate"@, 92, "5xx verify query error"@),
        ],
        if ok { 90 } else { 60 },
        seq!["close incident after stable window"@, "attach timeline to postmortem seed"@],
    )
}

/// The verification response from the latency and error-rate outcomes.
pub fn verification_from_outcomes(latency: &Outcome, errors: &Outcome) -> (r: ToolResponse)
    ensures
        response_view(r) == real_verification(outcome_view(*latency), outcome_view(*errors)),
        stamped(r),
        r.status == (if latency is Ok && errors is Ok {
            ToolStatus::Success
        } else {
            ToolStatus::Partial
        }),
        r.confidence == (if latency is Ok && errors is Ok {
            90u32
        } else {
            60u32
        }),
{
    let mut evidence: Vec<Evidence> = Vec::new();
    evidence.push(evidence_from_outcome(
        latency,
        "prometheus",
        "post-mitigation p95 latency",
        92,
        "latency verify query error",
    ));
    evidence.push(evidence_from_outcome(
        errors,
        "prometheus",
        "post-mitigation 5xx rate",
        92,
        "5xx verify query error",
    ));
    let ok = latency.is_ok() && errors.is_ok();
    let r = ToolResponse {
        status: if ok { ToolStatus::Success } else { ToolStatus::Partial },
        evidence,
        confidence: if ok { 90 } else { 60 },
        safe_next_actions: two_texts("close incident after stable window", "attach timeline to postmortem seed"),
    };
    assert(response_view(r).1 =~= real_verification(outcome_view(*latency), outcome_view(*errors)).1);
    r
}

/// The members of a remediation request: incident, service, action,
/// target, reason and risk level.
pub open spec fn remediation_fields_spec(incident: IncidentInput, plan: MitigationPlan) -> Seq<(Seq<char>, Seq<char>)> {
    seq![
        ("incident_id"@, incident.incident_id@),
        ("service"@, incident.service@),
        ("action"@, plan.action.spec_name()),
        ("target"@, plan.target@),
        ("reason"@, plan.reason@),
        ("risk_level"@, plan.risk_level.spec_name()),
    ]
}

pub open spec fn pairs_view(v: Seq<(String, String)>) -> Seq<(Seq<char>, Seq<char>)> {
    v.map_values(|p: (String, String)| (p.0@, p.1@))
}

/// The members of the remediation request for `plan`, in order.
pub fn remediation_fields(incident: &IncidentInput, plan: &MitigationPlan) -> (r: Vec<(String, String)>)
    ensures
        pairs_view(r@) == remediation_fields_spec(*incident, *plan),
{
    let mut r: Vec<(String, String)> = Vec::new();
    r.push((String::from_str("incident_id"), incident.incident_id.clone()));
    r.push((String::from_str("service"), incident.service.clone()));
    r.push((String::from_str("action"), String::from_str(plan.action.name())));
    r.push((String::from_str("target"), plan.target.clone()));
    r.push((String::from_str("reason"), plan.reason.clone()));
    r.push((String::from_str("risk_level"), String::from_str(plan.risk_level.name())));
    assert(pairs_view(r@) =~= remediation_fields_spec(*incident, *plan));
    r
}

/// What the remediation step reports: a dry run when no webhook is
/// configured (`None`), the webhook's acceptance with the status its JSON
/// reply names (`accepted` when it names none or the reply is not JSON,
/// `Ok(None)`), or the request's error.
pub open spec fn remediation_result_spec(reply: Option<Result<Option<JsonValue>, String>>) -> Result<Seq<char>, Seq<char>> {
    match reply {
        None => Ok("no remediation webhook configured; emitted dry-run only"@),
        Some(Ok(body)) => Ok(
            "webhook accepted remediation request ("@ + match body {
                Some(v) => match text_of(field(Some(v), "status"@)) {
                    Some(s) => s,
                    None => "accepted"@,
                },
                None => "accepted"@,
            } + ")"@,
        ),
        Some(Err(e)) => Err(e@),
    }
}

/// What the remediation step reports, given the webhook's reply if a
/// webhook was called.
pub fn remediation_result(reply: Option<Result<Option<JsonValue>, String>>) -> (r: Result<String, String>)
    ensures
        text_result(r) == remediation_result_spec(reply),
{
    match reply {
        None => Ok(String::from_str("no remediation webhook configured; emitted dry-run only")),
        Some(Ok(body)) => {
            let status = match &body {
                Some(v) => json_text(json_field(Some(v), "status")),
                None => None,
            };
            let mut m = String::from_str("webhook accepted remediation request (");
            match status {
                Some(s) => m.append(s.as_str()),
                None => m.append("accepted"),
            }
            m.append(")");
            Ok(m)
        },
        Some(Err(e)) => Err(e),
    }
}

} // verus!
