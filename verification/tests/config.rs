use mechanics_config::{
    ErrorKind, HttpEndpoint, HttpMethod, MechanicsConfig, StringMap, UrlParamSpec,
};

fn get_user() -> HttpEndpoint {
    HttpEndpoint::new(
        HttpMethod::Get,
        "https://api.example.com/v1/users/{id}",
        StringMap::new(),
    )
    .with_url_param_specs(StringMap::from_pairs(vec![(
        "id".to_owned(),
        UrlParamSpec {
            default: None,
            min_bytes: Some(1),
            max_bytes: Some(64),
        },
    )]))
}

fn broken() -> HttpEndpoint {
    HttpEndpoint::new(HttpMethod::Get, "https://example.com/{id}", StringMap::new())
}

fn names(config: &MechanicsConfig) -> Vec<String> {
    config
        .endpoints()
        .entries()
        .iter()
        .map(|(k, _)| k.clone())
        .collect()
}

#[test]
fn new_accepts_valid_endpoints() {
    let mut endpoints = StringMap::new();
    endpoints.insert("get_user".to_owned(), get_user());
    let config = MechanicsConfig::new(endpoints).expect("valid config");
    assert_eq!(config.endpoints().len(), 1);
    let endpoint = config.endpoints().get("get_user").expect("present");
    assert_eq!(endpoint.url_template(), "https://api.example.com/v1/users/{id}");
    assert!(config.validate().is_ok());
}

#[test]
fn new_rejects_invalid_endpoint_with_its_name() {
    let endpoints = StringMap::from_pairs(vec![
        ("good".to_owned(), get_user()),
        ("bad".to_owned(), broken()),
    ]);
    let err = MechanicsConfig::new(endpoints).expect_err("invalid endpoint");
    assert_eq!(err.kind(), ErrorKind::InvalidInput);
    assert_eq!(
        err.message(),
        "invalid endpoint `bad` config: missing url_param_specs entry for slot `id`"
    );
}

#[test]
fn with_endpoint_inserts_and_replaces() {
    let config = MechanicsConfig::new(StringMap::new()).unwrap();
    let config = config.with_endpoint("a".to_owned(), get_user()).unwrap();
    let other = HttpEndpoint::new(HttpMethod::Post, "https://example.com/b", StringMap::new());
    let config = config.with_endpoint("b".to_owned(), other).unwrap();
    let replacement = HttpEndpoint::new(HttpMethod::Delete, "https://example.com/a", StringMap::new());
    let config = config.with_endpoint("a".to_owned(), replacement).unwrap();
    assert_eq!(names(&config), vec!["a".to_owned(), "b".to_owned()]);
    assert_eq!(config.endpoints().get("a").unwrap().method(), HttpMethod::Delete);
    assert_eq!(config.endpoints().get("b").unwrap().method(), HttpMethod::Post);
}

#[test]
fn with_endpoint_rejects_invalid_endpoint() {
    let config = MechanicsConfig::new(StringMap::new()).unwrap();
    let err = config
        .with_endpoint("oops".to_owned(), broken())
        .expect_err("invalid endpoint");
    assert!(err.message().starts_with("invalid endpoint `oops` config: "));
}

#[test]
fn with_endpoint_overrides_replaces_matching_and_retains_others() {
    let base = StringMap::from_pairs(vec![
        ("a".to_owned(), get_user()),
        (
            "b".to_owned(),
            HttpEndpoint::new(HttpMethod::Get, "https://example.com/b", StringMap::new()),
        ),
    ]);
    let config = MechanicsConfig::new(base).unwrap();
    let overrides = StringMap::from_pairs(vec![
        (
            "b".to_owned(),
            HttpEndpoint::new(HttpMethod::Put, "https://example.com/b2", StringMap::new()),
        ),
        (
            "c".to_owned(),
            HttpEndpoint::new(HttpMethod::Head, "https://example.com/c", StringMap::new()),
        ),
    ]);
    let config = config.with_endpoint_overrides(overrides).unwrap();
    assert_eq!(
        names(&config),
        vec!["a".to_owned(), "b".to_owned(), "c".to_owned()]
    );
    assert_eq!(config.endpoints().get("a").unwrap().method(), HttpMethod::Get);
    assert_eq!(
        config.endpoints().get("b").unwrap().url_template(),
        "https://example.com/b2"
    );
    assert_eq!(config.endpoints().get("c").unwrap().method(), HttpMethod::Head);
}

#[test]
fn with_endpoint_overrides_rejects_invalid_override() {
    let config = MechanicsConfig::new(StringMap::new()).unwrap();
    let overrides = StringMap::from_pairs(vec![("x".to_owned(), broken())]);
    let err = config.with_endpoint_overrides(overrides).unwrap_err();
    assert!(err.message().starts_with("invalid endpoint `x` config: "));
}

#[test]
fn without_endpoint_removes_only_that_name() {
    let base = StringMap::from_pairs(vec![
        ("a".to_owned(), get_user()),
        (
            "b".to_owned(),
            HttpEndpoint::new(HttpMethod::Get, "https://example.com/b", StringMap::new()),
        ),
    ]);
    let config = MechanicsConfig::new(base).unwrap().without_endpoint("a");
    assert_eq!(names(&config), vec!["b".to_owned()]);
    let config = config.without_endpoint("missing");
    assert_eq!(names(&config), vec!["b".to_owned()]);
}

#[test]
fn validate_detects_changes_made_through_endpoints_mut() {
    let mut config = MechanicsConfig::new(StringMap::new()).unwrap();
    config.endpoints_mut().insert("late".to_owned(), broken());
    let err = config.validate().expect_err("invalid endpoint added in place");
    assert!(err.message().starts_with("invalid endpoint `late` config: "));
}
