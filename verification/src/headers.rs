//! Header-name and header-value validation on top of the `http` crate.

use vstd::prelude::*;
use vstd::string::StringSliceAdditionalSpecFns;
use http::header::{HeaderName, HeaderValue, InvalidHeaderName, InvalidHeaderValue};
use crate::error::{
    first_error, lemma_first_error_prefix, lemma_first_error_step, reports,
    ConfigError, ErrorView,
};
use crate::text::{ascii_lowercase, lower_text, text_set};

verus! {

#[verifier::external_type_specification]
#[verifier::external_body]
pub struct ExHeaderName(HeaderName);

#[verifier::external_type_specification]
#[verifier::external_body]
pub struct ExInvalidHeaderName(InvalidHeaderName);

#[verifier::external_type_specification]
#[verifier::external_body]
pub struct ExHeaderValue(HeaderValue);

#[verifier::external_type_specification]
#[verifier::external_body]
pub struct ExInvalidHeaderValue(InvalidHeaderValue);

/// An HTTP token character (`tchar` of RFC 9110): ASCII letters and digits and
/// ``!#$%&'*+-.^_`|~``.
pub open spec fn is_tchar(b: u8) -> bool {
    ||| 0x30 <= b <= 0x39
    ||| 0x41 <= b <= 0x5a
    ||| 0x61 <= b <= 0x7a
    ||| b == 0x21 || b == 0x23 || b == 0x24 || b == 0x25 || b == 0x26 || b == 0x27
    ||| b == 0x2a || b == 0x2b || b == 0x2d || b == 0x2e
    ||| b == 0x5e || b == 0x5f || b == 0x60 || b == 0x7c || b == 0x7e
}

/// The bytes form a header name that `HeaderName::from_bytes` accepts: one to 65535 token
/// characters.
pub open spec fn header_name_bytes_ok(bytes: Seq<u8>) -> bool {
    &&& 1 <= bytes.len() <= 65535
    &&& forall|i: int| 0 <= i < bytes.len() ==> is_tchar(#[trigger] bytes[i])
}

/// A byte that `HeaderValue::from_str` accepts: horizontal tab, or any byte from 32 up other
/// than 127.
pub open spec fn is_header_value_byte(b: u8) -> bool {
    (b >= 32 && b != 127) || b == 9
}

/// The bytes form a header value that `HeaderValue::from_str` accepts.
pub open spec fn header_value_bytes_ok(bytes: Seq<u8>) -> bool {
    forall|i: int| 0 <= i < bytes.len() ==> is_header_value_byte(#[trigger] bytes[i])
}

/// The text is a valid HTTP header name (judged on its UTF-8 bytes).
pub open spec fn header_name_ok(name: Seq<char>) -> bool {
    header_name_bytes_ok(vstd::utf8::encode_utf8(name))
}

/// The text is a valid HTTP header value (judged on its UTF-8 bytes).
pub open spec fn header_value_ok(value: Seq<char>) -> bool {
    header_value_bytes_ok(vstd::utf8::encode_utf8(value))
}

/// The text that `http`'s `InvalidHeaderName` displays.
pub open spec fn header_name_error_text() -> Seq<char> {
    "invalid HTTP header name"@
}

/// The text that `http`'s `InvalidHeaderValue` displays.
pub open spec fn header_value_error_text() -> Seq<char> {
    "failed to parse header value"@
}

/// The error reported for an invalid header name.
pub open spec fn name_error(header: Seq<char>, field: Seq<char>) -> ErrorView {
    ErrorView::InvalidHeaderName { header, field, detail: header_name_error_text() }
}

/// The error reported for an invalid header value.
pub open spec fn value_error(name: Seq<char>, field: Seq<char>) -> ErrorView {
    ErrorView::InvalidHeaderValue { name, field, detail: header_value_error_text() }
}

/// The outcome of checking one header name.
pub open spec fn name_check(header: Seq<char>, field: Seq<char>) -> Option<ErrorView> {
    if header_name_ok(header) {
        None
    } else {
        Some(name_error(header, field))
    }
}

/// The outcome of checking every name of a list, in order.
pub open spec fn name_list_check(headers: Seq<String>, field: Seq<char>) -> Option<ErrorView> {
    first_error(headers.map_values(|h: String| name_check(h@, field)))
}

/// The set of lowercased header names of a list.
pub open spec fn lowered_set(headers: Seq<String>) -> Set<Seq<char>> {
    headers.map_values(|h: String| lower_text(h@)).to_set()
}

/// An allowlist admits a name exactly when some entry equals it up to ASCII letter case.
pub proof fn law_allowlist_matches_case_insensitively(headers: Seq<String>, name: Seq<char>)
    ensures
        lowered_set(headers).contains(lower_text(name)) <==> exists|j: int|
            0 <= j < headers.len() && lower_text(#[trigger] headers[j]@) == lower_text(name),
{
    let lowered = headers.map_values(|h: String| lower_text(h@));
    if lowered_set(headers).contains(lower_text(name)) {
        let j = choose|j: int| 0 <= j < lowered.len() && #[trigger] lowered[j] == lower_text(name);
        assert(lower_text(headers[j]@) == lower_text(name));
    }
    if exists|j: int| 0 <= j < headers.len() && lower_text(#[trigger] headers[j]@) == lower_text(name) {
        let j = choose|j: int| 0 <= j < headers.len() && lower_text(#[trigger] headers[j]@) == lower_text(name);
        assert(lowered[j] == lower_text(name));
    }
}

/// `http::header::HeaderName::from_bytes`: by its source, it succeeds exactly on one to 65535
/// bytes that are all HTTP token characters.
pub assume_specification[ HeaderName::from_bytes ](src: &[u8]) -> (r: Result<
    HeaderName,
    InvalidHeaderName,
>)
    ensures
        r is Ok <==> header_name_bytes_ok(src@),
;

/// `http::header::HeaderValue::from_str`: by its source, it succeeds exactly when every byte
/// of the string is a tab or a byte from 32 up other than 127.
pub assume_specification[ HeaderValue::from_str ](src: &str) -> (r: Result<
    HeaderValue,
    InvalidHeaderValue,
>)
    ensures
        r is Ok <==> header_value_bytes_ok(src.spec_bytes()),
;

/// The `Display` text of `http::header::InvalidHeaderName`: by its source, the fixed text
/// "invalid HTTP header name".
#[verifier::external_body]
fn invalid_header_name_text(e: &InvalidHeaderName) -> (s: String)
    ensures
        s@ == header_name_error_text(),
{
    e.to_string()
}

/// The `Display` text of `http::header::InvalidHeaderValue`: by its source, the fixed text
/// "failed to parse header value".
#[verifier::external_body]
fn invalid_header_value_text(e: &InvalidHeaderValue) -> (s: String)
    ensures
        s@ == header_value_error_text(),
{
    e.to_string()
}

/// Validates `header` as an HTTP header name and returns its ASCII-lowercase form.
pub fn normalize_header_name(header: &str, field_name: &str) -> (r: Result<String, ConfigError>)
    ensures
        match r {
            Ok(n) => header_name_ok(header@) && n@ == lower_text(header@),
            Err(e) => !header_name_ok(header@) && e@ == name_error(header@, field_name@),
        },
{
    match HeaderName::from_bytes(header.as_bytes()) {
        Ok(_) => Ok(ascii_lowercase(header)),
        Err(e) => Err(
            ConfigError::InvalidHeaderName {
                header: String::from_str(header),
                field: String::from_str(field_name),
                detail: invalid_header_name_text(&e),
            },
        ),
    }
}

/// Checks that every entry of `headers` is a valid header name.
pub fn validate_header_name_list(headers: &[String], field_name: &str) -> (r: Result<
    (),
    ConfigError,
>)
    ensures
        reports(r, name_list_check(headers@, field_name@)),
{
    let ghost checks = headers@.map_values(|h: String| name_check(h@, field_name@));
    let mut i: usize = 0;
    while i < headers.len()
        invariant
            i <= headers@.len(),
            checks == headers@.map_values(|h: String| name_check(h@, field_name@)),
            first_error(checks.take(i as int)) is None,
        decreases headers@.len() - i,
    {
        proof {
            lemma_first_error_step(checks, i as int);
        }
        match normalize_header_name(headers[i].as_str(), field_name) {
            Ok(_) => {},
            Err(e) => {
                proof {
                    lemma_first_error_prefix(checks, i + 1);
                }
                return Err(e);
            },
        }
        i = i + 1;
    }
    assert(checks.take(i as int) =~= checks);
    Ok(())
}

/// The lowercased names of `headers`, each once, after checking every name.
pub fn allowlisted_header_names(headers: &[String], field_name: &str) -> (r: Result<
    Vec<String>,
    ConfigError,
>)
    ensures
        match r {
            Ok(v) => name_list_check(headers@, field_name@) is None && text_set(v@) == lowered_set(
                headers@,
            ) && (forall|i: int, j: int| 0 <= i < j < v@.len() ==> v@[i]@ != v@[j]@),
            Err(e) => reports(Err(e), name_list_check(headers@, field_name@)),
        },
{
    let ghost checks = headers@.map_values(|h: String| name_check(h@, field_name@));
    let mut out: Vec<String> = Vec::new();
    let mut i: usize = 0;
    while i < headers.len()
        invariant
            i <= headers@.len(),
            checks == headers@.map_values(|h: String| name_check(h@, field_name@)),
            first_error(checks.take(i as int)) is None,
            text_set(out@) == lowered_set(headers@.take(i as int)),
            forall|a: int, b: int| 0 <= a < b < out@.len() ==> out@[a]@ != out@[b]@,
        decreases headers@.len() - i,
    {
        proof {
            lemma_first_error_step(checks, i as int);
        }
        let lowered = match normalize_header_name(headers[i].as_str(), field_name) {
            Ok(n) => n,
            Err(e) => {
                proof {
                    lemma_first_error_prefix(checks, i + 1);
                }
                return Err(e);
            },
        };
        let ghost before = out@;
        let mut found = false;
        let mut j: usize = 0;
        while j < out.len()
            invariant
                j <= out@.len(),
                found <==> exists|k: int| 0 <= k < j && out@[k]@ == lowered@,
            decreases out@.len() - j,
        {
            if out[j] == lowered {
                found = true;
            }
            j = j + 1;
        }
        proof {
            let step = headers@.take(i + 1);
            assert(step.drop_last() =~= headers@.take(i as int));
            assert(step.map_values(|h: String| lower_text(h@)) =~= headers@.take(i as int).map_values(
                |h: String| lower_text(h@),
            ).push(lowered@));
            headers@.take(i as int).map_values(|h: String| lower_text(h@)).lemma_push_to_set_commute(
                lowered@,
            );
            before.map_values(|s: String| s@).lemma_push_to_set_commute(lowered@);
        }
        if !found {
            out.push(lowered);
            proof {
                assert(out@.map_values(|s: String| s@) =~= before.map_values(|s: String| s@).push(
                    lowered@,
                ));
            }
        } else {
            proof {
                let k = choose|k: int| 0 <= k < before.len() && before[k]@ == lowered@;
                assert(before.map_values(|s: String| s@)[k] == lowered@);
                assert(text_set(before).insert(lowered@) =~= text_set(before));
            }
        }
        i = i + 1;
    }
    assert(headers@.take(headers@.len() as int) =~= headers@);
    assert(checks.take(i as int) =~= checks);
    Ok(out)
}

/// Checks that `value` is a valid HTTP header value.
pub fn validate_header_value(name: &str, value: &str, field_name: &str) -> (r: Result<
    (),
    ConfigError,
>)
    ensures
        r is Ok <==> header_value_ok(value@),
        r matches Err(e) ==> e@ == value_error(name@, field_name@),
{
    match HeaderValue::from_str(value) {
        Ok(_) => Ok(()),
        Err(e) => Err(
            ConfigError::InvalidHeaderValue {
                name: String::from_str(name),
                field: String::from_str(field_name),
                detail: invalid_header_value_text(&e),
            },
        ),
    }
}

} // verus!
