//! Errors reported by endpoint and configuration validation.

use vstd::prelude::*;
use crate::text::{decimal, push_decimal};

verus! {

/// Broad category of a [`ConfigError`], mirroring the I/O error kinds callers match on.
#[derive(Clone, Copy, Debug, PartialEq, Eq, Structural)]
pub enum ErrorKind {
    /// The configuration or a call-time argument is malformed.
    InvalidInput,
    /// Any other failure (for example a URL the URL parser rejects).
    Other,
}

/// A validation or resolution failure, with the offending names kept as data.
#[derive(Debug)]
pub enum ConfigError {
    /// A header name is not a valid HTTP header name.
    InvalidHeaderName { header: String, field: String, detail: String },
    /// A header value holds bytes that HTTP header values may not hold.
    InvalidHeaderValue { name: String, field: String, detail: String },
    /// Two call-time header overrides differ only in letter case.
    DuplicateOverrideHeader { name: String },
    /// A call-time header override is not in `overridable_request_headers`.
    OverrideNotAllowlisted { name: String },
    /// A call-time URL parameter names no slot of the template.
    UnknownUrlParam { key: String, template: String },
    /// A template slot has no `url_param_specs` entry.
    MissingUrlParamSpec { slot: String },
    /// A `url_param_specs` entry names no slot of the template.
    UnusedUrlParamSpec { slot: String },
    /// The resolved URL carries a fragment.
    UrlHasFragment,
    /// The resolved URL carries a query string.
    UrlHasQuery,
    /// A call-time query slot is read by no slotted query rule.
    UnknownQueryKey { key: String },
    /// The template opens a slot with `{` and never closes it.
    UnclosedTemplateSlot { template: String },
    /// The template holds a `}` that closes no slot.
    UnmatchedTemplateBrace { template: String },
    /// A slot name is empty or holds characters other than ASCII letters, digits, `_`, `-`.
    InvalidSlotName { slot: String },
    /// A query rule has an empty key.
    EmptyQueryKey,
    /// A `min_bytes` bound exceeds its `max_bytes` bound.
    InvalidByteBounds { slot: String, min: usize, max: usize },
    /// A resolved value is shorter, in UTF-8 bytes, than `min_bytes`.
    ValueTooShort { slot: String, len: usize, min: usize },
    /// A resolved value is longer, in UTF-8 bytes, than `max_bytes`.
    ValueTooLong { slot: String, len: usize, max: usize },
    /// A required query slot resolved to nothing.
    MissingQueryValue { slot: String },
    /// A query slot that must not be empty resolved to the empty string.
    EmptyQueryValue { slot: String },
    /// The URL parser rejected the resolved URL; `detail` is its message.
    UrlParse { detail: String },
    /// An endpoint of a configuration failed validation.
    InvalidEndpoint { name: String, cause: Box<ConfigError> },
}

/// The mathematical content of a [`ConfigError`]: strings as character sequences.
pub enum ErrorView {
    InvalidHeaderName { header: Seq<char>, field: Seq<char>, detail: Seq<char> },
    InvalidHeaderValue { name: Seq<char>, field: Seq<char>, detail: Seq<char> },
    DuplicateOverrideHeader { name: Seq<char> },
    OverrideNotAllowlisted { name: Seq<char> },
    UnknownUrlParam { key: Seq<char>, template: Seq<char> },
    MissingUrlParamSpec { slot: Seq<char> },
    UnusedUrlParamSpec { slot: Seq<char> },
    UrlHasFragment,
    UrlHasQuery,
    UnknownQueryKey { key: Seq<char> },
    UnclosedTemplateSlot { template: Seq<char> },
    UnmatchedTemplateBrace { template: Seq<char> },
    InvalidSlotName { slot: Seq<char> },
    EmptyQueryKey,
    InvalidByteBounds { slot: Seq<char>, min: usize, max: usize },
    ValueTooShort { slot: Seq<char>, len: usize, min: usize },
    ValueTooLong { slot: Seq<char>, len: usize, max: usize },
    MissingQueryValue { slot: Seq<char> },
    EmptyQueryValue { slot: Seq<char> },
    UrlParse { detail: Seq<char> },
    InvalidEndpoint { name: Seq<char>, cause: Box<ErrorView> },
}

/// The view of an error, field by field.
pub open spec fn error_view(e: ConfigError) -> ErrorView
    decreases e,
{
    match e {
        ConfigError::InvalidHeaderName { header, field, detail } => ErrorView::InvalidHeaderName {
            header: header@,
            field: field@,
            detail: detail@,
        },
        ConfigError::InvalidHeaderValue { name, field, detail } => ErrorView::InvalidHeaderValue {
            name: name@,
            field: field@,
            detail: detail@,
        },
        ConfigError::DuplicateOverrideHeader { name } => ErrorView::DuplicateOverrideHeader {
            name: name@,
        },
        ConfigError::OverrideNotAllowlisted { name } => ErrorView::OverrideNotAllowlisted {
            name: name@,
        },
        ConfigError::UnknownUrlParam { key, template } => ErrorView::UnknownUrlParam {
            key: key@,
            template: template@,
        },
        ConfigError::MissingUrlParamSpec { slot } => ErrorView::MissingUrlParamSpec { slot: slot@ },
        ConfigError::UnusedUrlParamSpec { slot } => ErrorView::UnusedUrlParamSpec { slot: slot@ },
        ConfigError::UrlHasFragment => ErrorView::UrlHasFragment,
        ConfigError::UrlHasQuery => ErrorView::UrlHasQuery,
        ConfigError::UnknownQueryKey { key } => ErrorView::UnknownQueryKey { key: key@ },
        ConfigError::UnclosedTemplateSlot { template } => ErrorView::UnclosedTemplateSlot {
            template: template@,
        },
        ConfigError::UnmatchedTemplateBrace { template } => ErrorView::UnmatchedTemplateBrace {
            template: template@,
        },
        ConfigError::InvalidSlotName { slot } => ErrorView::InvalidSlotName { slot: slot@ },
        ConfigError::EmptyQueryKey => ErrorView::EmptyQueryKey,
        ConfigError::InvalidByteBounds { slot, min, max } => ErrorView::InvalidByteBounds {
            slot: slot@,
            min,
            max,
        },
        ConfigError::ValueTooShort { slot, len, min } => ErrorView::ValueTooShort {
            slot: slot@,
            len,
            min,
        },
        ConfigError::ValueTooLong { slot, len, max } => ErrorView::ValueTooLong {
            slot: slot@,
            len,
            max,
        },
        ConfigError::MissingQueryValue { slot } => ErrorView::MissingQueryValue { slot: slot@ },
        ConfigError::EmptyQueryValue { slot } => ErrorView::EmptyQueryValue { slot: slot@ },
        ConfigError::UrlParse { detail } => ErrorView::UrlParse { detail: detail@ },
        ConfigError::InvalidEndpoint { name, cause } => ErrorView::InvalidEndpoint {
            name: name@,
            cause: Box::new(error_view(*cause)),
        },
    }
}

/// The first error of a sequence of check outcomes, if any.
pub open spec fn first_error(checks: Seq<Option<ErrorView>>) -> Option<ErrorView>
    decreases checks.len(),
{
    if checks.len() == 0 {
        None
    } else {
        match first_error(checks.drop_last()) {
            Some(e) => Some(e),
            None => checks.last(),
        }
    }
}

/// The first of two outcomes that is an error.
pub open spec fn either(a: Option<ErrorView>, b: Option<ErrorView>) -> Option<ErrorView> {
    if a is Some {
        a
    } else {
        b
    }
}

/// Extending the checked prefix by one check.
pub proof fn lemma_first_error_step(checks: Seq<Option<ErrorView>>, i: int)
    requires
        0 <= i < checks.len(),
    ensures
        first_error(checks.take(i + 1)) == either(first_error(checks.take(i)), checks[i]),
{
    assert(checks.take(i + 1).drop_last() =~= checks.take(i));
}

/// No check fails exactly when every check passes.
pub proof fn lemma_first_error_none(checks: Seq<Option<ErrorView>>)
    ensures
        first_error(checks) is None <==> forall|i: int| 0 <= i < checks.len() ==> checks[i] is None,
    decreases checks.len(),
{
    if checks.len() > 0 {
        lemma_first_error_none(checks.drop_last());
        if first_error(checks) is None {
            assert forall|i: int| 0 <= i < checks.len() implies checks[i] is None by {
                if i < checks.len() - 1 {
                    assert(checks[i] == checks.drop_last()[i]);
                }
            }
        }
        if forall|i: int| 0 <= i < checks.len() ==> checks[i] is None {
            assert forall|i: int| 0 <= i < checks.drop_last().len() implies checks.drop_last()[i] is None by {
                assert(checks.drop_last()[i] == checks[i]);
            }
        }
    }
}

/// Once a prefix of the checks has failed, later checks do not matter.
pub proof fn lemma_first_error_prefix(checks: Seq<Option<ErrorView>>, k: int)
    requires
        0 <= k <= checks.len(),
        first_error(checks.take(k)) is Some,
    ensures
        first_error(checks) == first_error(checks.take(k)),
    decreases checks.len() - k,
{
    if k < checks.len() {
        lemma_first_error_step(checks, k);
        lemma_first_error_prefix(checks, k + 1);
    } else {
        assert(checks.take(k) =~= checks);
    }
}

/// When no check of a list fails, the whole list passes.
pub proof fn lemma_first_error_all(checks: Seq<Option<ErrorView>>)
    requires
        first_error(checks.take(checks.len() as int)) is None,
    ensures
        first_error(checks) is None,
{
    assert(checks.take(checks.len() as int) =~= checks);
}

/// `r` succeeds exactly when no check failed, and otherwise reports the first failure.
pub open spec fn reports(r: Result<(), ConfigError>, expected: Option<ErrorView>) -> bool {
    match expected {
        None => r is Ok,
        Some(x) => r matches Err(e) && e@ == x,
    }
}

impl View for ConfigError {
    type V = ErrorView;

    open spec fn view(&self) -> ErrorView {
        error_view(*self)
    }
}

impl ErrorView {
    /// The error kind: URL parser failures are `Other`, a wrapped endpoint error keeps the
    /// kind of its cause, everything else is `InvalidInput`.
    pub open spec fn kind(self) -> ErrorKind
        decreases self,
    {
        match self {
            ErrorView::UrlParse { .. } => ErrorKind::Other,
            ErrorView::InvalidEndpoint { cause, .. } => (*cause).kind(),
            _ => ErrorKind::InvalidInput,
        }
    }

    /// The human-readable message of the error.
    pub open spec fn message(self) -> Seq<char>
        decreases self,
    {
        match self {
            ErrorView::InvalidHeaderName { header, field, detail } => "invalid header name `"@
                + header + "` in `"@ + field + "`: "@ + detail,
            ErrorView::InvalidHeaderValue { name, field, detail } => "invalid header value for `"@
                + name + "` in `"@ + field + "`: "@ + detail,
            ErrorView::DuplicateOverrideHeader { name } => "duplicate override header `"@ + name
                + "` in options.headers (case-insensitive)"@,
            ErrorView::OverrideNotAllowlisted { name } => "override header `"@ + name
                + "` is not allowlisted in overridable_request_headers"@,
            ErrorView::UnknownUrlParam { key, template } => "unknown urlParams key `"@ + key
                + "` for endpoint template `"@ + template + "`"@,
            ErrorView::MissingUrlParamSpec { slot } => "missing url_param_specs entry for slot `"@
                + slot + "`"@,
            ErrorView::UnusedUrlParamSpec { slot } => "url_param_specs entry `"@ + slot
                + "` does not match any url_template slot"@,
            ErrorView::UrlHasFragment => "url_template must not include URL fragments"@,
            ErrorView::UrlHasQuery =>
                "url_template must not include query parameters; use query_specs instead"@,
            ErrorView::UnknownQueryKey { key } => "unknown queries key `"@ + key
                + "` for endpoint"@,
            ErrorView::UnclosedTemplateSlot { template } => "url_template `"@ + template
                + "` has an unclosed `{`"@,
            ErrorView::UnmatchedTemplateBrace { template } => "url_template `"@ + template
                + "` has an unmatched `}`"@,
            ErrorView::InvalidSlotName { slot } => "invalid slot name `"@ + slot
                + "`: use ASCII letters, digits, `_` or `-`"@,
            ErrorView::EmptyQueryKey => "query key must not be empty"@,
            ErrorView::InvalidByteBounds { slot, min, max } => "invalid byte bounds for `"@ + slot
                + "`: min_bytes "@ + decimal(min as nat) + " exceeds max_bytes "@ + decimal(
                max as nat,
            ),
            ErrorView::ValueTooShort { slot, len, min } => "value for `"@ + slot + "` is "@
                + decimal(len as nat) + " bytes, below min_bytes "@ + decimal(min as nat),
            ErrorView::ValueTooLong { slot, len, max } => "value for `"@ + slot + "` is "@
                + decimal(len as nat) + " bytes, above max_bytes "@ + decimal(max as nat),
            ErrorView::MissingQueryValue { slot } => "missing value for required query slot `"@
                + slot + "`"@,
            ErrorView::EmptyQueryValue { slot } => "empty value for required query slot `"@ + slot
                + "`"@,
            ErrorView::UrlParse { detail } => detail,
            ErrorView::InvalidEndpoint { name, cause } => "invalid endpoint `"@ + name
                + "` config: "@ + (*cause).message(),
        }
    }
}

impl ConfigError {
    /// The error kind, as `std::io::Error::kind` reports it for the same failure.
    pub fn kind(&self) -> (k: ErrorKind)
        ensures
            k == self@.kind(),
        decreases self,
    {
        match self {
            ConfigError::UrlParse { .. } => ErrorKind::Other,
            ConfigError::InvalidEndpoint { cause, .. } => cause.kind(),
            _ => ErrorKind::InvalidInput,
        }
    }

    /// The error message, as the error's display text.
    pub fn message(&self) -> (m: String)
        ensures
            m@ == self@.message(),
        decreases self,
    {
        let mut m = String::new();
        self.write_message(&mut m);
        assert(m@ =~= self@.message());
        m
    }

    fn write_message(&self, m: &mut String)
        ensures
            final(m)@ == old(m)@ + self@.message(),
        decreases self,
    {
        match self {
            ConfigError::InvalidHeaderName { header, field, detail } => {
                m.append("invalid header name `");
                m.append(header.as_str());
                m.append("` in `");
                m.append(field.as_str());
                m.append("`: ");
                m.append(detail.as_str());
            },
            ConfigError::InvalidHeaderValue { name, field, detail } => {
                m.append("invalid header value for `");
                m.append(name.as_str());
                m.append("` in `");
                m.append(field.as_str());
                m.append("`: ");
                m.append(detail.as_str());
            },
            ConfigError::DuplicateOverrideHeader { name } => {
                m.append("duplicate override header `");
                m.append(name.as_str());
                m.append("` in options.headers (case-insensitive)");
            },
            ConfigError::OverrideNotAllowlisted { name } => {
                m.append("override header `");
                m.append(name.as_str());
                m.append("` is not allowlisted in overridable_request_headers");
            },
            ConfigError::UnknownUrlParam { key, template } => {
                m.append("unknown urlParams key `");
                m.append(key.as_str());
                m.append("` for endpoint template `");
                m.append(template.as_str());
                m.append("`");
            },
            ConfigError::MissingUrlParamSpec { slot } => {
                m.append("missing url_param_specs entry for slot `");
                m.append(slot.as_str());
                m.append("`");
            },
            ConfigError::UnusedUrlParamSpec { slot } => {
                m.append("url_param_specs entry `");
                m.append(slot.as_str());
                m.append("` does not match any url_template slot");
            },
            ConfigError::UrlHasFragment => {
                m.append("url_template must not include URL fragments");
            },
            ConfigError::UrlHasQuery => {
                m.append("url_template must not include query parameters; use query_specs instead");
            },
            ConfigError::UnknownQueryKey { key } => {
                m.append("unknown queries key `");
                m.append(key.as_str());
                m.append("` for endpoint");
            },
            ConfigError::UnclosedTemplateSlot { template } => {
                m.append("url_template `");
                m.append(template.as_str());
                m.append("` has an unclosed `{`");
            },
            ConfigError::UnmatchedTemplateBrace { template } => {
                m.append("url_template `");
                m.append(template.as_str());
                m.append("` has an unmatched `}`");
            },
            ConfigError::InvalidSlotName { slot } => {
                m.append("invalid slot name `");
                m.append(slot.as_str());
                m.append("`: use ASCII letters, digits, `_` or `-`");
            },
            ConfigError::EmptyQueryKey => {
                m.append("query key must not be empty");
            },
            ConfigError::InvalidByteBounds { slot, min, max } => {
                m.append("invalid byte bounds for `");
                m.append(slot.as_str());
                m.append("`: min_bytes ");
                push_decimal(m, *min);
                m.append(" exceeds max_bytes ");
                push_decimal(m, *max);
            },
            ConfigError::ValueTooShort { slot, len, min } => {
                m.append("value for `");
                m.append(slot.as_str());
                m.append("` is ");
                push_decimal(m, *len);
                m.append(" bytes, below min_bytes ");
                push_decimal(m, *min);
            },
            ConfigError::ValueTooLong { slot, len, max } => {
                m.append("value for `");
                m.append(slot.as_str());
                m.append("` is ");
                push_decimal(m, *len);
                m.append(" bytes, above max_bytes ");
                push_decimal(m, *max);
            },
            ConfigError::MissingQueryValue { slot } => {
                m.append("missing value for required query slot `");
                m.append(slot.as_str());
                m.append("`");
            },
            ConfigError::EmptyQueryValue { slot } => {
                m.append("empty value for required query slot `");
                m.append(slot.as_str());
                m.append("`");
            },
            ConfigError::UrlParse { detail } => {
                m.append(detail.as_str());
            },
            ConfigError::InvalidEndpoint { name, cause } => {
                m.append("invalid endpoint `");
                m.append(name.as_str());
                m.append("` config: ");
                cause.write_message(m);
            },
        }
        assert(final(m)@ =~= old(m)@ + self@.message());
    }
}

} // verus!
