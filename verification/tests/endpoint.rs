use mechanics_config::{
    ConfigError, EndpointBodyType, EndpointRetryPolicy, ErrorKind, HttpEndpoint, HttpMethod,
    QuerySpec, SlottedQueryMode, StringMap, UrlParamSpec,
};

fn spec(default: Option<&str>, min_bytes: Option<usize>, max_bytes: Option<usize>) -> UrlParamSpec {
    UrlParamSpec {
        default: default.map(|s| s.to_owned()),
        min_bytes,
        max_bytes,
    }
}

fn map(pairs: &[(&str, &str)]) -> StringMap<String> {
    StringMap::from_pairs(
        pairs
            .iter()
            .map(|(k, v)| (k.to_string(), v.to_string()))
            .collect(),
    )
}

fn user_endpoint() -> HttpEndpoint {
    HttpEndpoint::new(
        HttpMethod::Get,
        "https://api.example.com/v1/users/{id}",
        StringMap::new(),
    )
    .with_url_param_specs(StringMap::from_pairs(vec![(
        "id".to_owned(),
        spec(None, Some(1), Some(64)),
    )]))
}

fn slotted(key: &str, slot: &str, mode: SlottedQueryMode, default: Option<&str>) -> QuerySpec {
    QuerySpec::Slotted {
        key: key.to_owned(),
        slot: slot.to_owned(),
        mode,
        default: default.map(|s| s.to_owned()),
        min_bytes: None,
        max_bytes: None,
    }
}

fn query_endpoint(specs: Vec<QuerySpec>) -> HttpEndpoint {
    HttpEndpoint::new(HttpMethod::Get, "https://example.com/items", StringMap::new())
        .with_query_specs(specs)
}

#[test]
fn method_tokens_and_body_support() {
    assert_eq!(HttpMethod::Get.as_str(), "GET");
    assert_eq!(HttpMethod::Post.as_str(), "POST");
    assert_eq!(HttpMethod::Put.as_str(), "PUT");
    assert_eq!(HttpMethod::Patch.as_str(), "PATCH");
    assert_eq!(HttpMethod::Delete.as_str(), "DELETE");
    assert_eq!(HttpMethod::Head.as_str(), "HEAD");
    assert_eq!(HttpMethod::Options.as_str(), "OPTIONS");
    assert!(HttpMethod::Post.supports_request_body());
    assert!(HttpMethod::Put.supports_request_body());
    assert!(HttpMethod::Patch.supports_request_body());
    assert!(!HttpMethod::Get.supports_request_body());
    assert!(!HttpMethod::Delete.supports_request_body());
    assert!(!HttpMethod::Head.supports_request_body());
    assert!(!HttpMethod::Options.supports_request_body());
}

#[test]
fn new_endpoint_defaults() {
    let e = HttpEndpoint::new(HttpMethod::Post, "https://example.com", StringMap::new());
    assert_eq!(e.method(), HttpMethod::Post);
    assert_eq!(e.url_template(), "https://example.com");
    assert!(e.url_param_specs().is_empty());
    assert!(e.query_specs().is_empty());
    assert!(e.headers().is_empty());
    assert!(e.overridable_request_headers().is_empty());
    assert!(e.exposed_response_headers().is_empty());
    assert_eq!(e.request_body_type(), None);
    assert_eq!(e.effective_request_body_type(), EndpointBodyType::Json);
    assert_eq!(e.response_body_type(), EndpointBodyType::Json);
    assert_eq!(e.response_max_bytes(), None);
    assert_eq!(e.timeout_ms(), None);
    assert!(!e.allow_non_2xx_status());
    assert_eq!(e.retry_policy(), &EndpointRetryPolicy::default());
}

#[test]
fn builders_set_one_field_each() {
    let policy = EndpointRetryPolicy {
        max_attempts: 3,
        base_backoff_ms: 100,
        max_backoff_ms: 1000,
        rate_limit_backoff_ms: 2000,
        retry_on_status: vec![429, 503],
    };
    let e = HttpEndpoint::new(HttpMethod::Post, "https://example.com", StringMap::new())
        .with_request_body_type(EndpointBodyType::Utf8)
        .with_response_body_type(EndpointBodyType::Bytes)
        .with_response_max_bytes(Some(4096))
        .with_timeout_ms(Some(2500))
        .with_allow_non_2xx_status(true)
        .with_exposed_response_headers(vec!["ETag".to_owned()])
        .with_retry_policy(policy.clone());
    assert_eq!(e.request_body_type(), Some(EndpointBodyType::Utf8));
    assert_eq!(e.effective_request_body_type(), EndpointBodyType::Utf8);
    assert_eq!(e.response_body_type(), EndpointBodyType::Bytes);
    assert_eq!(e.response_max_bytes(), Some(4096));
    assert_eq!(e.timeout_ms(), Some(2500));
    assert!(e.allow_non_2xx_status());
    assert_eq!(e.exposed_response_headers(), &["ETag".to_owned()]);
    assert_eq!(e.retry_policy(), &policy);
    assert_eq!(e.method(), HttpMethod::Post);
}

#[test]
fn build_url_substitutes_slot() {
    let url = user_endpoint()
        .build_url(&map(&[("id", "42")]), &StringMap::new())
        .expect("valid url");
    assert_eq!(url, "https://api.example.com/v1/users/42");
}

#[test]
fn build_url_percent_encodes_slot_values() {
    let url = user_endpoint()
        .build_url(&map(&[("id", "a b/c?d#e")]), &StringMap::new())
        .expect("valid url");
    assert_eq!(url, "https://api.example.com/v1/users/a%20b%2Fc%3Fd%23e");
}

#[test]
fn build_url_keeps_unreserved_and_encodes_utf8() {
    let url = user_endpoint()
        .build_url(&map(&[("id", "A-z_0.~é")]), &StringMap::new())
        .expect("valid url");
    assert_eq!(url, "https://api.example.com/v1/users/A-z_0.~%C3%A9");
}

#[test]
fn build_url_uses_default_for_missing_or_empty() {
    let e = HttpEndpoint::new(HttpMethod::Get, "https://example.com/{lang}/home", StringMap::new())
        .with_url_param_specs(StringMap::from_pairs(vec![(
            "lang".to_owned(),
            spec(Some("en"), None, None),
        )]));
    assert_eq!(
        e.build_url(&StringMap::new(), &StringMap::new()).unwrap(),
        "https://example.com/en/home"
    );
    assert_eq!(
        e.build_url(&map(&[("lang", "")]), &StringMap::new()).unwrap(),
        "https://example.com/en/home"
    );
    assert_eq!(
        e.build_url(&map(&[("lang", "fr")]), &StringMap::new()).unwrap(),
        "https://example.com/fr/home"
    );
}

#[test]
fn build_url_rejects_short_value() {
    let err = user_endpoint()
        .build_url(&StringMap::new(), &StringMap::new())
        .expect_err("empty id is below min_bytes");
    assert_eq!(err.kind(), ErrorKind::InvalidInput);
    assert_eq!(err.message(), "value for `id` is 0 bytes, below min_bytes 1");
}

#[test]
fn build_url_rejects_long_value() {
    let long = "x".repeat(65);
    let err = user_endpoint()
        .build_url(&map(&[("id", long.as_str())]), &StringMap::new())
        .expect_err("id above max_bytes");
    assert_eq!(err.message(), "value for `id` is 65 bytes, above max_bytes 64");
}

#[test]
fn build_url_counts_bytes_not_chars() {
    let e = HttpEndpoint::new(HttpMethod::Get, "https://example.com/{v}", StringMap::new())
        .with_url_param_specs(StringMap::from_pairs(vec![(
            "v".to_owned(),
            spec(None, None, Some(2)),
        )]));
    assert!(e.build_url(&map(&[("v", "ab")]), &StringMap::new()).is_ok());
    let err = e
        .build_url(&map(&[("v", "é!")]), &StringMap::new())
        .expect_err("three bytes");
    assert!(matches!(err, ConfigError::ValueTooLong { len: 3, max: 2, .. }));
}

#[test]
fn build_url_rejects_unknown_url_param() {
    let err = user_endpoint()
        .build_url(&map(&[("id", "1"), ("other", "2")]), &StringMap::new())
        .expect_err("unknown param");
    assert_eq!(err.kind(), ErrorKind::InvalidInput);
    assert_eq!(
        err.message(),
        "unknown urlParams key `other` for endpoint template `https://api.example.com/v1/users/{id}`"
    );
}

#[test]
fn validate_rejects_inconsistent_bounds() {
    let e = HttpEndpoint::new(HttpMethod::Get, "https://example.com/{v}", StringMap::new())
        .with_url_param_specs(StringMap::from_pairs(vec![(
            "v".to_owned(),
            spec(None, Some(5), Some(2)),
        )]));
    let err = e.validate_config().expect_err("min above max");
    assert_eq!(
        err.message(),
        "invalid byte bounds for `v`: min_bytes 5 exceeds max_bytes 2"
    );
}

#[test]
fn validate_rejects_template_faults() {
    let unclosed = HttpEndpoint::new(HttpMethod::Get, "https://example.com/{id", StringMap::new());
    assert!(matches!(
        unclosed.validate_config(),
        Err(ConfigError::UnclosedTemplateSlot { .. })
    ));
    let unmatched = HttpEndpoint::new(HttpMethod::Get, "https://example.com/id}", StringMap::new());
    assert!(matches!(
        unmatched.validate_config(),
        Err(ConfigError::UnmatchedTemplateBrace { .. })
    ));
    let bad_slot = HttpEndpoint::new(HttpMethod::Get, "https://example.com/{a b}", StringMap::new());
    let err = bad_slot.validate_config().expect_err("bad slot name");
    assert_eq!(
        err.message(),
        "invalid slot name `a b`: use ASCII letters, digits, `_` or `-`"
    );
    let empty_slot = HttpEndpoint::new(HttpMethod::Get, "https://example.com/{}", StringMap::new());
    assert!(matches!(
        empty_slot.validate_config(),
        Err(ConfigError::InvalidSlotName { .. })
    ));
}

#[test]
fn validate_requires_specs_to_match_slots() {
    let missing = HttpEndpoint::new(HttpMethod::Get, "https://example.com/{id}", StringMap::new());
    let err = missing.validate_config().expect_err("slot without spec");
    assert_eq!(err.message(), "missing url_param_specs entry for slot `id`");

    let unused = HttpEndpoint::new(HttpMethod::Get, "https://example.com/", StringMap::new())
        .with_url_param_specs(StringMap::from_pairs(vec![(
            "id".to_owned(),
            UrlParamSpec::default(),
        )]));
    let err = unused.validate_config().expect_err("spec without slot");
    assert_eq!(
        err.message(),
        "url_param_specs entry `id` does not match any url_template slot"
    );
}

#[test]
fn build_url_rejects_fragment_and_query_in_template() {
    let frag = HttpEndpoint::new(HttpMethod::Get, "https://example.com/a#top", StringMap::new());
    let err = frag.build_url(&StringMap::new(), &StringMap::new()).unwrap_err();
    assert_eq!(err.message(), "url_template must not include URL fragments");
    let query = HttpEndpoint::new(HttpMethod::Get, "https://example.com/a?x=1", StringMap::new());
    let err = query.build_url(&StringMap::new(), &StringMap::new()).unwrap_err();
    assert_eq!(
        err.message(),
        "url_template must not include query parameters; use query_specs instead"
    );
}

#[test]
fn build_url_reports_unparsable_url_as_other() {
    let e = HttpEndpoint::new(HttpMethod::Get, "not a url", StringMap::new());
    let err = e.build_url(&StringMap::new(), &StringMap::new()).unwrap_err();
    assert_eq!(err.kind(), ErrorKind::Other);
    assert!(matches!(err, ConfigError::UrlParse { .. }));
    assert_eq!(err.message(), "relative URL without a base");
}

#[test]
fn build_url_without_queries_returns_parsed_url() {
    let e = HttpEndpoint::new(HttpMethod::Get, "HTTPS://Example.COM", StringMap::new());
    assert_eq!(
        e.build_url(&StringMap::new(), &StringMap::new()).unwrap(),
        "https://example.com/"
    );
}

#[test]
fn build_url_emits_const_and_slotted_queries_in_order() {
    let e = query_endpoint(vec![
        QuerySpec::Const {
            key: "v".to_owned(),
            value: "2".to_owned(),
        },
        slotted("q", "search", SlottedQueryMode::Required, None),
    ]);
    let url = e
        .build_url(&StringMap::new(), &map(&[("search", "a b&c")]))
        .unwrap();
    assert_eq!(url, "https://example.com/items?v=2&q=a+b%26c");
}

#[test]
fn build_url_rejects_unknown_query_key() {
    let e = query_endpoint(vec![slotted("q", "search", SlottedQueryMode::Optional, None)]);
    let err = e
        .build_url(&StringMap::new(), &map(&[("other", "x")]))
        .unwrap_err();
    assert_eq!(err.message(), "unknown queries key `other` for endpoint");
}

#[test]
fn required_query_modes() {
    let e = query_endpoint(vec![slotted("q", "s", SlottedQueryMode::Required, None)]);
    let err = e.build_url(&StringMap::new(), &StringMap::new()).unwrap_err();
    assert_eq!(err.message(), "missing value for required query slot `s`");
    let err = e.build_url(&StringMap::new(), &map(&[("s", "")])).unwrap_err();
    assert_eq!(err.message(), "empty value for required query slot `s`");

    let e = query_endpoint(vec![slotted("q", "s", SlottedQueryMode::RequiredAllowEmpty, None)]);
    assert!(matches!(
        e.build_url(&StringMap::new(), &StringMap::new()),
        Err(ConfigError::MissingQueryValue { .. })
    ));
    assert_eq!(
        e.build_url(&StringMap::new(), &map(&[("s", "")])).unwrap(),
        "https://example.com/items?q="
    );
}

#[test]
fn optional_query_modes() {
    let e = query_endpoint(vec![slotted("q", "s", SlottedQueryMode::Optional, None)]);
    assert_eq!(
        e.build_url(&StringMap::new(), &StringMap::new()).unwrap(),
        "https://example.com/items"
    );
    assert_eq!(
        e.build_url(&StringMap::new(), &map(&[("s", "")])).unwrap(),
        "https://example.com/items"
    );
    assert_eq!(
        e.build_url(&StringMap::new(), &map(&[("s", "x")])).unwrap(),
        "https://example.com/items?q=x"
    );

    let e = query_endpoint(vec![slotted("q", "s", SlottedQueryMode::OptionalAllowEmpty, None)]);
    assert_eq!(
        e.build_url(&StringMap::new(), &StringMap::new()).unwrap(),
        "https://example.com/items"
    );
    assert_eq!(
        e.build_url(&StringMap::new(), &map(&[("s", "")])).unwrap(),
        "https://example.com/items?q="
    );
}

#[test]
fn query_default_applies_when_slot_missing() {
    let e = query_endpoint(vec![slotted("page", "p", SlottedQueryMode::Required, Some("1"))]);
    assert_eq!(
        e.build_url(&StringMap::new(), &StringMap::new()).unwrap(),
        "https://example.com/items?page=1"
    );
    assert_eq!(
        e.build_url(&StringMap::new(), &map(&[("p", "7")])).unwrap(),
        "https://example.com/items?page=7"
    );
}

#[test]
fn query_value_bounds() {
    let e = query_endpoint(vec![QuerySpec::Slotted {
        key: "q".to_owned(),
        slot: "s".to_owned(),
        mode: SlottedQueryMode::Required,
        default: None,
        min_bytes: Some(2),
        max_bytes: Some(3),
    }]);
    assert!(matches!(
        e.build_url(&StringMap::new(), &map(&[("s", "a")])),
        Err(ConfigError::ValueTooShort { len: 1, min: 2, .. })
    ));
    assert!(matches!(
        e.build_url(&StringMap::new(), &map(&[("s", "abcd")])),
        Err(ConfigError::ValueTooLong { len: 4, max: 3, .. })
    ));
    assert!(e.build_url(&StringMap::new(), &map(&[("s", "abc")])).is_ok());
}

#[test]
fn query_specs_are_validated() {
    let e = query_endpoint(vec![QuerySpec::Const {
        key: String::new(),
        value: "x".to_owned(),
    }]);
    let err = e.validate_config().unwrap_err();
    assert_eq!(err.message(), "query key must not be empty");
    let e = query_endpoint(vec![slotted("q", "bad slot", SlottedQueryMode::Optional, None)]);
    assert!(matches!(
        e.validate_config(),
        Err(ConfigError::InvalidSlotName { .. })
    ));
}

#[test]
fn build_headers_rejects_duplicate_override_case_insensitively() {
    let e = HttpEndpoint::new(HttpMethod::Post, "https://example.com", StringMap::new())
        .with_overridable_request_headers(vec!["x-a".to_owned()]);
    let overrides = map(&[("X-A", "1"), ("x-a", "2")]);
    let err = e.build_headers(&overrides).unwrap_err();
    assert_eq!(
        err.message(),
        "duplicate override header `x-a` in options.headers (case-insensitive)"
    );
}

#[test]
fn build_headers_rejects_invalid_value() {
    let e = HttpEndpoint::new(
        HttpMethod::Post,
        "https://example.com",
        map(&[("x-static", "bad\nvalue")]),
    );
    let err = e.build_headers(&StringMap::new()).unwrap_err();
    assert_eq!(err.kind(), ErrorKind::InvalidInput);
    assert_eq!(
        err.message(),
        "invalid header value for `x-static` in `headers`: failed to parse header value"
    );
}

#[test]
fn build_headers_accepts_tab_in_value_and_keeps_order() {
    let e = HttpEndpoint::new(
        HttpMethod::Post,
        "https://example.com",
        map(&[("b", "2"), ("a", "x\ty")]),
    );
    let headers = e.build_headers(&StringMap::new()).unwrap();
    assert_eq!(
        headers,
        vec![
            ("b".to_owned(), "2".to_owned()),
            ("a".to_owned(), "x\ty".to_owned())
        ]
    );
}

#[test]
fn invalid_allowlist_names_are_reported_with_their_field() {
    let e = HttpEndpoint::new(HttpMethod::Post, "https://example.com", StringMap::new())
        .with_overridable_request_headers(vec!["ok".to_owned(), "not ok".to_owned()]);
    let err = e.validate_config().unwrap_err();
    assert_eq!(
        err.message(),
        "invalid header name `not ok` in `overridable_request_headers`: invalid HTTP header name"
    );
    let e = HttpEndpoint::new(HttpMethod::Post, "https://example.com", StringMap::new())
        .with_exposed_response_headers(vec!["".to_owned()]);
    assert!(matches!(
        e.validate_config(),
        Err(ConfigError::InvalidHeaderName { .. })
    ));
}

#[test]
fn prepared_exposed_allowlist_is_lowercased_once() {
    let e = HttpEndpoint::new(HttpMethod::Get, "https://example.com", StringMap::new())
        .with_exposed_response_headers(vec![
            "ETag".to_owned(),
            "etag".to_owned(),
            "X-Request-Id".to_owned(),
        ]);
    let prepared = e.prepare_runtime().unwrap();
    assert_eq!(
        prepared.exposed_response_allowlist(),
        &["etag".to_owned(), "x-request-id".to_owned()]
    );
}

#[test]
fn error_kind_and_message_of_wrapped_url_error() {
    let e = HttpEndpoint::new(HttpMethod::Get, "https://example.com/{id}", StringMap::new());
    let err = e.build_url(&StringMap::new(), &StringMap::new()).unwrap_err();
    assert_eq!(err.kind(), ErrorKind::InvalidInput);
}

#[test]
fn distinct_values_substitute_as_distinct_text() {
    let a = user_endpoint()
        .build_url(&map(&[("id", "a/b")]), &StringMap::new())
        .unwrap();
    let b = user_endpoint()
        .build_url(&map(&[("id", "a%2Fb")]), &StringMap::new())
        .unwrap();
    assert_eq!(a, "https://api.example.com/v1/users/a%2Fb");
    assert_eq!(b, "https://api.example.com/v1/users/a%252Fb");
    assert_ne!(a, b);
}

#[test]
fn template_with_several_slots_and_literals() {
    let e = HttpEndpoint::new(
        HttpMethod::Get,
        "https://example.com/{org}/repos/{repo}-{repo}",
        StringMap::new(),
    )
    .with_url_param_specs(StringMap::from_pairs(vec![
        ("org".to_owned(), UrlParamSpec::default()),
        ("repo".to_owned(), UrlParamSpec::default()),
    ]));
    let url = e
        .build_url(&map(&[("repo", "r"), ("org", "o")]), &StringMap::new())
        .unwrap();
    assert_eq!(url, "https://example.com/o/repos/r-r");
}
