use mechanics_config::headers::{normalize_header_name, validate_header_value};
use mechanics_config::template::UrlTemplateChunk;
use mechanics_config::{ErrorKind, HttpEndpoint, HttpMethod, MechanicsConfig, StringMap};

#[test]
fn header_name_error_carries_http_text() {
    let err = normalize_header_name("bad name", "headers").unwrap_err();
    assert_eq!(err.kind(), ErrorKind::InvalidInput);
    assert_eq!(
        err.message(),
        "invalid header name `bad name` in `headers`: invalid HTTP header name"
    );
}

#[test]
fn header_value_error_carries_http_text() {
    let err = validate_header_value("x-a", "a\nb", "headers").unwrap_err();
    assert_eq!(
        err.message(),
        "invalid header value for `x-a` in `headers`: failed to parse header value"
    );
}

#[test]
fn config_error_wraps_full_header_message() {
    let headers = StringMap::from_pairs(vec![("x-a".to_owned(), "a\nb".to_owned())]);
    let endpoint = HttpEndpoint::new(HttpMethod::Get, "https://example.com", headers);
    let cause = endpoint.validate_config().unwrap_err();
    let endpoints = StringMap::from_pairs(vec![("h".to_owned(), endpoint)]);
    let err = MechanicsConfig::new(endpoints).unwrap_err();
    assert_eq!(err.kind(), cause.kind());
    assert_eq!(
        err.message(),
        format!("invalid endpoint `h` config: {}", cause.message())
    );
    assert!(err.message().ends_with(": failed to parse header value"));
}

#[test]
fn url_error_carries_parser_text() {
    let e = HttpEndpoint::new(HttpMethod::Get, "http://[::1", StringMap::new());
    let err = e.build_url(&StringMap::new(), &StringMap::new()).unwrap_err();
    assert_eq!(err.kind(), ErrorKind::Other);
    assert_eq!(err.message(), "invalid IPv6 address");
}

#[test]
fn string_map_clone_keeps_keys_and_values() {
    let m = StringMap::from_pairs(vec![
        ("a".to_owned(), "1".to_owned()),
        ("b".to_owned(), "2".to_owned()),
    ]);
    let c = m.clone();
    assert_eq!(c.entries(), m.entries());
}

#[test]
fn prepared_endpoint_clone_has_same_content() {
    let e = HttpEndpoint::new(HttpMethod::Get, "https://example.com", StringMap::new())
        .with_exposed_response_headers(vec!["ETag".to_owned()]);
    let p = e.prepare_runtime();
    let p = match p {
        Ok(p) => p,
        Err(err) => panic!("{}", err.message()),
    };
    let q = p.clone();
    assert_eq!(q.exposed_response_allowlist(), p.exposed_response_allowlist());
}

#[test]
fn template_chunk_clone_keeps_text() {
    let c = UrlTemplateChunk::Slot("id".to_owned());
    let d = c.clone();
    assert!(matches!(d, UrlTemplateChunk::Slot(ref s) if s == "id"));
}
