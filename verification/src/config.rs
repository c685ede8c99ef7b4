//! Runtime mode and the endpoints of the observability and remediation
//! providers.

use vstd::prelude::*;
use crate::text::{lower, equals_ignore_case};

verus! {

#[derive(Debug, Clone, Copy, PartialEq, Eq, Structural)]
pub enum RuntimeMode {
    Mock,
    Real,
}

impl RuntimeMode {

    /// The name the console shows.
    pub open spec fn spec_name(self) -> Seq<char> {
        match self {
            RuntimeMode::Mock => "Mock"@,
            RuntimeMode::Real => "Real"@,
        }
    }

    pub fn name(&self) -> (r: &'static str)
        ensures
            r@ == self.spec_name(),
    {
        match self {
            RuntimeMode::Mock => "Mock",
            RuntimeMode::Real => "Real",
        }
    }
    /// Case-insensitive reading of a mode: `real`, anything else is `Mock`.
    pub open spec fn spec_from_str(value: Seq<char>) -> RuntimeMode {
        if lower(value) == "real"@ {
            RuntimeMode::Real
        } else {
            RuntimeMode::Mock
        }
    }

    pub fn from_str(value: &str) -> (r: Self)
        ensures
            r == Self::spec_from_str(value@),
    {
        if equals_ignore_case(value, "real") {
            RuntimeMode::Real
        } else {
            RuntimeMode::Mock
        }
    }
}

#[derive(Debug, Clone)]
pub struct ProviderConfig {
    pub prometheus_url: String,
    pub loki_url: String,
    pub k8s_api_url: String,
    pub k8s_namespace: String,
    pub service_label_key: String,
    pub bearer_token: Option<String>,
    pub remediation_webhook_url: Option<String>,
}

/// The given setting, or `default` where it is not set.
pub open spec fn setting_or(value: Option<String>, default: Seq<char>) -> Seq<char> {
    match value {
        Some(v) => v@,
        None => default,
    }
}

fn or_default(value: Option<String>, default: &str) -> (r: String)
    ensures
        r@ == setting_or(value, default@),
{
    match value {
        Some(v) => v,
        None => String::from_str(default),
    }
}

impl ProviderConfig {
    /// The configuration from the given settings (the `SC_*` variables of
    /// the environment), with the documented defaults for the endpoints.
    pub fn from_settings(
        prometheus_url: Option<String>,
        loki_url: Option<String>,
        k8s_api_url: Option<String>,
        k8s_namespace: Option<String>,
        service_label_key: Option<String>,
        bearer_token: Option<String>,
        remediation_webhook_url: Option<String>,
    ) -> (c: Self)
        ensures
            c.prometheus_url@ == setting_or(prometheus_url, "http://localhost:9090"@),
            c.loki_url@ == setting_or(loki_url, "http://localhost:3100"@),
            c.k8s_api_url@ == setting_or(k8s_api_url, "https://kubernetes.default.svc"@),
            c.k8s_namespace@ == setting_or(k8s_namespace, "default"@),
            c.service_label_key@ == setting_or(service_label_key, "app"@),
            c.bearer_token == bearer_token,
            c.remediation_webhook_url == remediation_webhook_url,
    {
        ProviderConfig {
            prometheus_url: or_default(prometheus_url, "http://localhost:9090"),
            loki_url: or_default(loki_url, "http://localhost:3100"),
            k8s_api_url: or_default(k8s_api_url, "https://kubernetes.default.svc"),
            k8s_namespace: or_default(k8s_namespace, "default"),
            service_label_key: or_default(service_label_key, "app"),
            bearer_token,
            remediation_webhook_url,
        }
    }
}

} // verus!
