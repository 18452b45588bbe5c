//! Endpoint definitions: method, URL template and slot policies, query rules, headers and
//! body/response settings.

use vstd::prelude::*;
use crate::query::SlottedQueryMode;
use crate::retry::EndpointRetryPolicy;
use crate::strmap::StringMap;
use crate::template::UrlTemplateChunk;

mod request;
mod validate;

pub use request::{
    chunk_text, emitted_pairs, header_layering_check, lookup_text, opt_string_view, override_check,
    override_checks, query_pair, resolve_chunks, resolve_param, text_result_matches,
    unknown_param_check, unknown_query_check, url_outcome,
};
pub use validate::{
    chunk_spec_check, endpoint_check, endpoint_parts_check, param_spec_check, prepared_for,
    query_slot_set, query_spec_check, slot_set, static_header_check,
    PreparedHttpEndpoint, PreparedModel,
};

verus! {

/// Supported HTTP methods for runtime-managed endpoint calls.
#[derive(Clone, Copy, Debug, PartialEq, Eq, Hash, Structural)]
pub enum HttpMethod {
    /// HTTP `GET`.
    Get,
    /// HTTP `POST`.
    Post,
    /// HTTP `PUT`.
    Put,
    /// HTTP `PATCH`.
    Patch,
    /// HTTP `DELETE`.
    Delete,
    /// HTTP `HEAD`.
    Head,
    /// HTTP `OPTIONS`.
    Options,
}

/// The canonical uppercase token of a method.
pub open spec fn method_token(m: HttpMethod) -> Seq<char> {
    match m {
        HttpMethod::Get => "GET"@,
        HttpMethod::Post => "POST"@,
        HttpMethod::Put => "PUT"@,
        HttpMethod::Patch => "PATCH"@,
        HttpMethod::Delete => "DELETE"@,
        HttpMethod::Head => "HEAD"@,
        HttpMethod::Options => "OPTIONS"@,
    }
}

/// The methods that carry a request body: `POST`, `PUT` and `PATCH`.
pub open spec fn carries_body(m: HttpMethod) -> bool {
    m == HttpMethod::Post || m == HttpMethod::Put || m == HttpMethod::Patch
}

impl HttpMethod {
    /// Returns the canonical uppercase method token.
    pub fn as_str(&self) -> (s: &'static str)
        ensures
            s@ == method_token(*self),
    {
        match self {
            HttpMethod::Get => "GET",
            HttpMethod::Post => "POST",
            HttpMethod::Put => "PUT",
            HttpMethod::Patch => "PATCH",
            HttpMethod::Delete => "DELETE",
            HttpMethod::Head => "HEAD",
            HttpMethod::Options => "OPTIONS",
        }
    }

    /// Whether this method supports a request body under mechanics semantics.
    pub fn supports_request_body(&self) -> (b: bool)
        ensures
            b == carries_body(*self),
    {
        match self {
            HttpMethod::Post | HttpMethod::Put | HttpMethod::Patch => true,
            _ => false,
        }
    }
}

/// Body encoding/decoding mode used for endpoint request/response handling.
#[derive(Clone, Copy, Debug, PartialEq, Eq, Hash, Structural)]
pub enum EndpointBodyType {
    /// JSON payload (`application/json`).
    Json,
    /// UTF-8 string payload (`text/plain; charset=utf-8`).
    Utf8,
    /// Raw bytes payload (`application/octet-stream`).
    Bytes,
}

impl Default for EndpointBodyType {
    fn default() -> (b: Self)
        ensures
            b == EndpointBodyType::Json,
    {
        EndpointBodyType::Json
    }
}

/// Validation and default policy for one URL template slot.
#[derive(Clone, Debug)]
pub struct UrlParamSpec {
    /// Optional fallback value used when the provided value is missing or empty.
    pub default: Option<String>,
    /// Optional minimum UTF-8 byte length accepted for the resolved value.
    pub min_bytes: Option<usize>,
    /// Optional maximum UTF-8 byte length accepted for the resolved value.
    pub max_bytes: Option<usize>,
}

impl Default for UrlParamSpec {
    fn default() -> (s: Self)
        ensures
            s.default is None,
            s.min_bytes is None,
            s.max_bytes is None,
    {
        UrlParamSpec { default: None, min_bytes: None, max_bytes: None }
    }
}

/// One query emission rule.
#[derive(Clone, Debug)]
pub enum QuerySpec {
    /// Emits a constant key/value pair.
    Const {
        /// Query key to emit.
        key: String,
        /// Constant value to emit.
        value: String,
    },
    /// Emits a query pair from a call-time slot (`queries[slot]`) under configured policy.
    Slotted {
        /// Query key to emit.
        key: String,
        /// `queries` slot name to read.
        slot: String,
        /// Resolution and omission policy.
        mode: SlottedQueryMode,
        /// Optional fallback value used when slot input is missing.
        default: Option<String>,
        /// Optional minimum UTF-8 byte length for emitted value.
        min_bytes: Option<usize>,
        /// Optional maximum UTF-8 byte length for emitted value.
        max_bytes: Option<usize>,
    },
}

/// The content of an [`HttpEndpoint`], field by field.
pub struct EndpointModel {
    pub method: HttpMethod,
    pub url_template: Seq<char>,
    pub url_param_specs: Seq<(String, UrlParamSpec)>,
    pub query_specs: Seq<QuerySpec>,
    pub headers: Seq<(String, String)>,
    pub overridable_request_headers: Seq<String>,
    pub exposed_response_headers: Seq<String>,
    pub request_body_type: Option<EndpointBodyType>,
    pub response_body_type: EndpointBodyType,
    pub response_max_bytes: Option<usize>,
    pub timeout_ms: Option<u64>,
    pub allow_non_2xx_status: bool,
    pub retry_policy: EndpointRetryPolicy,
}

/// HTTP endpoint configuration used by the runtime-provided helpers.
///
/// Endpoint definitions are pure configuration inputs and should be treated as stateless.
/// Any caching behavior should be implemented outside this crate.
#[derive(Clone, Debug)]
pub struct HttpEndpoint {
    method: HttpMethod,
    url_template: String,
    url_param_specs: StringMap<UrlParamSpec>,
    query_specs: Vec<QuerySpec>,
    headers: StringMap<String>,
    overridable_request_headers: Vec<String>,
    exposed_response_headers: Vec<String>,
    request_body_type: Option<EndpointBodyType>,
    response_body_type: EndpointBodyType,
    response_max_bytes: Option<usize>,
    timeout_ms: Option<u64>,
    allow_non_2xx_status: bool,
    retry_policy: EndpointRetryPolicy,
}

impl View for HttpEndpoint {
    type V = EndpointModel;

    closed spec fn view(&self) -> EndpointModel {
        EndpointModel {
            method: self.method,
            url_template: self.url_template@,
            url_param_specs: self.url_param_specs@,
            query_specs: self.query_specs@,
            headers: self.headers@,
            overridable_request_headers: self.overridable_request_headers@,
            exposed_response_headers: self.exposed_response_headers@,
            request_body_type: self.request_body_type,
            response_body_type: self.response_body_type,
            response_max_bytes: self.response_max_bytes,
            timeout_ms: self.timeout_ms,
            allow_non_2xx_status: self.allow_non_2xx_status,
            retry_policy: self.retry_policy,
        }
    }
}

impl HttpEndpoint {
    /// Constructs an endpoint definition used by runtime-owned HTTP helpers.
    pub fn new(method: HttpMethod, url_template: &str, headers: StringMap<String>) -> (e: Self)
        ensures
            e@.method == method,
            e@.url_template == url_template@,
            e@.url_param_specs == Seq::<(String, UrlParamSpec)>::empty(),
            e@.query_specs == Seq::<QuerySpec>::empty(),
            e@.headers == headers@,
            e@.overridable_request_headers == Seq::<String>::empty(),
            e@.exposed_response_headers == Seq::<String>::empty(),
            e@.request_body_type is None,
            e@.response_body_type == EndpointBodyType::Json,
            e@.response_max_bytes is None,
            e@.timeout_ms is None,
            !e@.allow_non_2xx_status,
            e@.retry_policy.max_attempts == 1,
            e@.retry_policy.base_backoff_ms == 0,
            e@.retry_policy.max_backoff_ms == 0,
            e@.retry_policy.rate_limit_backoff_ms == 0,
            e@.retry_policy.retry_on_status@ == Seq::<u16>::empty(),
    {
        HttpEndpoint {
            method,
            url_template: String::from_str(url_template),
            url_param_specs: StringMap::new(),
            query_specs: Vec::new(),
            headers,
            overridable_request_headers: Vec::new(),
            exposed_response_headers: Vec::new(),
            request_body_type: None,
            response_body_type: EndpointBodyType::Json,
            response_max_bytes: None,
            timeout_ms: None,
            allow_non_2xx_status: false,
            retry_policy: EndpointRetryPolicy::default(),
        }
    }

    /// Replaces URL slot constraints used by `url_template` placeholders.
    pub fn with_url_param_specs(self, url_param_specs: StringMap<UrlParamSpec>) -> (e: Self)
        ensures
            e@ == (EndpointModel { url_param_specs: url_param_specs@, ..self@ }),
    {
        HttpEndpoint { url_param_specs, ..self }
    }

    /// Replaces query emission rules.
    pub fn with_query_specs(self, query_specs: Vec<QuerySpec>) -> (e: Self)
        ensures
            e@ == (EndpointModel { query_specs: query_specs@, ..self@ }),
    {
        HttpEndpoint { query_specs, ..self }
    }

    /// Sets request body decoding mode.
    ///
    /// If unset, request body mode defaults to JSON.
    pub fn with_request_body_type(self, body_type: EndpointBodyType) -> (e: Self)
        ensures
            e@ == (EndpointModel { request_body_type: Some(body_type), ..self@ }),
    {
        HttpEndpoint { request_body_type: Some(body_type), ..self }
    }

    /// Sets request header names that callers may override at call time.
    ///
    /// Matching is case-insensitive.
    pub fn with_overridable_request_headers(self, headers: Vec<String>) -> (e: Self)
        ensures
            e@ == (EndpointModel { overridable_request_headers: headers@, ..self@ }),
    {
        HttpEndpoint { overridable_request_headers: headers, ..self }
    }

    /// Sets response header names that are exposed in endpoint response objects.
    ///
    /// Matching is case-insensitive.
    pub fn with_exposed_response_headers(self, headers: Vec<String>) -> (e: Self)
        ensures
            e@ == (EndpointModel { exposed_response_headers: headers@, ..self@ }),
    {
        HttpEndpoint { exposed_response_headers: headers, ..self }
    }

    /// Sets response body decoding mode.
    ///
    /// Defaults to JSON.
    pub fn with_response_body_type(self, body_type: EndpointBodyType) -> (e: Self)
        ensures
            e@ == (EndpointModel { response_body_type: body_type, ..self@ }),
    {
        HttpEndpoint { response_body_type: body_type, ..self }
    }

    /// Sets a per-endpoint maximum response-body size in bytes.
    ///
    /// If this is `Some`, it overrides the pool default response limit.
    /// If this is `None`, the pool default response limit is used.
    pub fn with_response_max_bytes(self, response_max_bytes: Option<usize>) -> (e: Self)
        ensures
            e@ == (EndpointModel { response_max_bytes, ..self@ }),
    {
        HttpEndpoint { response_max_bytes, ..self }
    }

    /// Sets a per-endpoint timeout in milliseconds.
    ///
    /// If this is `Some`, it overrides the pool default endpoint timeout.
    /// If this is `None`, the pool default timeout is used.
    pub fn with_timeout_ms(self, timeout_ms: Option<u64>) -> (e: Self)
        ensures
            e@ == (EndpointModel { timeout_ms, ..self@ }),
    {
        HttpEndpoint { timeout_ms, ..self }
    }

    /// Allows non-success (non-2xx) HTTP status responses to proceed.
    ///
    /// Defaults to `false`, which treats non-success statuses as request errors.
    pub fn with_allow_non_2xx_status(self, allow: bool) -> (e: Self)
        ensures
            e@ == (EndpointModel { allow_non_2xx_status: allow, ..self@ }),
    {
        HttpEndpoint { allow_non_2xx_status: allow, ..self }
    }

    /// Sets endpoint retry/backoff/rate-limit policy.
    pub fn with_retry_policy(self, retry_policy: EndpointRetryPolicy) -> (e: Self)
        ensures
            e@ == (EndpointModel { retry_policy, ..self@ }),
    {
        HttpEndpoint { retry_policy, ..self }
    }

    /// Returns the endpoint HTTP method.
    pub fn method(&self) -> (m: HttpMethod)
        ensures
            m == self@.method,
    {
        self.method
    }

    /// Returns configured URL template.
    pub fn url_template(&self) -> (t: &str)
        ensures
            t@ == self@.url_template,
    {
        self.url_template.as_str()
    }

    /// Returns configured URL parameter constraints.
    pub fn url_param_specs(&self) -> (s: &StringMap<UrlParamSpec>)
        ensures
            s@ == self@.url_param_specs,
    {
        &self.url_param_specs
    }

    /// Returns configured query emission rules.
    pub fn query_specs(&self) -> (q: &[QuerySpec])
        ensures
            q@ == self@.query_specs,
    {
        self.query_specs.as_slice()
    }

    /// Returns configured static request headers.
    pub fn headers(&self) -> (h: &StringMap<String>)
        ensures
            h@ == self@.headers,
    {
        &self.headers
    }

    /// Returns request header names that callers can override.
    pub fn overridable_request_headers(&self) -> (h: &[String])
        ensures
            h@ == self@.overridable_request_headers,
    {
        self.overridable_request_headers.as_slice()
    }

    /// Returns response header names that are exposed to callers.
    pub fn exposed_response_headers(&self) -> (h: &[String])
        ensures
            h@ == self@.exposed_response_headers,
    {
        self.exposed_response_headers.as_slice()
    }

    /// Returns request body mode if explicitly configured.
    pub fn request_body_type(&self) -> (b: Option<EndpointBodyType>)
        ensures
            b == self@.request_body_type,
    {
        self.request_body_type
    }

    /// Returns request body mode after applying endpoint defaults.
    pub fn effective_request_body_type(&self) -> (b: EndpointBodyType)
        ensures
            b == match self@.request_body_type {
                Some(t) => t,
                None => EndpointBodyType::Json,
            },
    {
        match self.request_body_type {
            Some(t) => t,
            None => EndpointBodyType::Json,
        }
    }

    /// Returns response body decoding mode.
    pub fn response_body_type(&self) -> (b: EndpointBodyType)
        ensures
            b == self@.response_body_type,
    {
        self.response_body_type
    }

    /// Returns endpoint-specific response byte limit.
    pub fn response_max_bytes(&self) -> (n: Option<usize>)
        ensures
            n == self@.response_max_bytes,
    {
        self.response_max_bytes
    }

    /// Returns endpoint-specific timeout in milliseconds.
    pub fn timeout_ms(&self) -> (t: Option<u64>)
        ensures
            t == self@.timeout_ms,
    {
        self.timeout_ms
    }

    /// Returns whether non-2xx statuses are allowed.
    pub fn allow_non_2xx_status(&self) -> (b: bool)
        ensures
            b == self@.allow_non_2xx_status,
    {
        self.allow_non_2xx_status
    }

    /// Returns endpoint retry policy.
    pub fn retry_policy(&self) -> (p: &EndpointRetryPolicy)
        ensures
            *p == self@.retry_policy,
    {
        &self.retry_policy
    }
}

} // verus!
