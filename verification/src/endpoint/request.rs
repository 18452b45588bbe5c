//! Building request URLs and request headers from an endpoint and call-time inputs.

use vstd::prelude::*;
use super::{EndpointModel, HttpEndpoint, QuerySpec, UrlParamSpec};
use super::validate::{
    endpoint_check, prepared_for, query_slot_set, slot_set, static_header_check,
    PreparedHttpEndpoint,
};
use crate::error::{
    either, first_error, lemma_first_error_none, lemma_first_error_prefix, lemma_first_error_step,
    reports, ConfigError, ErrorView,
};
use crate::headers::{
    header_name_ok, header_value_ok, lowered_set, name_error, normalize_header_name,
    validate_header_value, value_error,
};
use crate::query::{
    bounds_error, len_error, opt_view, resolve_slotted_query_value, slotted_outcome,
    validate_byte_len, validate_min_max_bounds, validate_query_key, validate_slot_name,
};
use crate::strmap::{lookup, StringMap};
use crate::template::{
    chunk_views, is_encoded_char, lemma_percent_encode_chars, parse_template, percent_encode,
    percent_encode_component, slot_name_ok, ChunkView, UrlTemplateChunk,
};
use crate::text::{byte_count, contains_text, lower_text, text_set};
use crate::urls::{
    form_query, is_plain_web_url, pair_views, parse_url, url_append_query_pairs, url_parse_outcome,
    url_with_query_pairs,
};

verus! {

/// The text stored under `k` in a string-valued entry list, if any.
pub open spec fn lookup_text(s: Seq<(String, String)>, k: Seq<char>) -> Option<Seq<char>> {
    match lookup(s, k) {
        Some(v) => Some(v@),
        None => None,
    }
}

/// The view of an optional owned string.
pub open spec fn opt_string_view(o: Option<String>) -> Option<Seq<char>> {
    match o {
        Some(s) => Some(s@),
        None => None,
    }
}

/// `r` holds the text or the error that `expected` describes.
pub open spec fn text_result_matches(r: Result<String, ConfigError>, expected: Result<Seq<char>, ErrorView>) -> bool {
    match (r, expected) {
        (Ok(a), Ok(b)) => a@ == b,
        (Err(e), Err(x)) => e@ == x,
        _ => false,
    }
}

/// The value a URL slot resolves to: bounds must be consistent; a provided non-empty value
/// wins, else the default, else the empty string; its UTF-8 length must lie within bounds.
pub open spec fn resolve_param(spec: UrlParamSpec, slot: Seq<char>, provided: Option<Seq<char>>) -> Result<
    Seq<char>,
    ErrorView,
> {
    match bounds_error(slot, spec.min_bytes, spec.max_bytes) {
        Some(e) => Err(e),
        None => {
            let value = match provided {
                Some(v) => if v.len() > 0 {
                    v
                } else {
                    match spec.default {
                        Some(d) => d@,
                        None => Seq::empty(),
                    }
                },
                None => match spec.default {
                    Some(d) => d@,
                    None => Seq::empty(),
                },
            };
            match len_error(slot, byte_count(value), spec.min_bytes, spec.max_bytes) {
                Some(e) => Err(e),
                None => Ok(value),
            }
        },
    }
}

/// The URL text of one template chunk: a literal as it stands, a slot as its resolved value,
/// percent-encoded.
pub open spec fn chunk_text(
    c: ChunkView,
    specs: Seq<(String, UrlParamSpec)>,
    params: Seq<(String, String)>,
) -> Result<Seq<char>, ErrorView> {
    match c {
        ChunkView::Literal(l) => Ok(l),
        ChunkView::Slot(n) => match lookup(specs, n) {
            None => Err(ErrorView::MissingUrlParamSpec { slot: n }),
            Some(spec) => match resolve_param(spec, n, lookup_text(params, n)) {
                Err(e) => Err(e),
                Ok(v) => Ok(percent_encode(vstd::utf8::encode_utf8(v))),
            },
        },
    }
}

/// The URL text of a chunk list, chunk after chunk, stopping at the first failure.
pub open spec fn resolve_chunks(
    cs: Seq<ChunkView>,
    specs: Seq<(String, UrlParamSpec)>,
    params: Seq<(String, String)>,
) -> Result<Seq<char>, ErrorView>
    decreases cs.len(),
{
    if cs.len() == 0 {
        Ok(Seq::empty())
    } else {
        match resolve_chunks(cs.drop_last(), specs, params) {
            Err(e) => Err(e),
            Ok(prefix) => match chunk_text(cs.last(), specs, params) {
                Err(e) => Err(e),
                Ok(t) => Ok(prefix + t),
            },
        }
    }
}

/// The pair one query rule emits, if any.
pub open spec fn query_pair(q: QuerySpec, queries: Seq<(String, String)>) -> Result<
    Option<(Seq<char>, Seq<char>)>,
    ErrorView,
> {
    match q {
        QuerySpec::Const { key, value } => if key@.len() == 0 {
            Err(ErrorView::EmptyQueryKey)
        } else {
            Ok(Some((key@, value@)))
        },
        QuerySpec::Slotted { key, slot, mode, default, min_bytes, max_bytes } => if key@.len() == 0 {
            Err(ErrorView::EmptyQueryKey)
        } else if !slot_name_ok(slot@) {
            Err(ErrorView::InvalidSlotName { slot: slot@ })
        } else {
            match bounds_error(slot@, min_bytes, max_bytes) {
                Some(e) => Err(e),
                None => match slotted_outcome(
                    slot@,
                    mode,
                    opt_string_view(default),
                    lookup_text(queries, slot@),
                    min_bytes,
                    max_bytes,
                ) {
                    Err(e) => Err(e),
                    Ok(None) => Ok(None),
                    Ok(Some(v)) => Ok(Some((key@, v))),
                },
            }
        },
    }
}

/// The pairs the query rules emit, rule after rule, stopping at the first failure.
pub open spec fn emitted_pairs(qs: Seq<QuerySpec>, queries: Seq<(String, String)>) -> Result<
    Seq<(Seq<char>, Seq<char>)>,
    ErrorView,
>
    decreases qs.len(),
{
    if qs.len() == 0 {
        Ok(Seq::empty())
    } else {
        match emitted_pairs(qs.drop_last(), queries) {
            Err(e) => Err(e),
            Ok(prefix) => match query_pair(qs.last(), queries) {
                Err(e) => Err(e),
                Ok(None) => Ok(prefix),
                Ok(Some(p)) => Ok(prefix.push(p)),
            },
        }
    }
}

/// Every provided URL parameter must name a template slot.
pub open spec fn unknown_param_check(
    params: Seq<(String, String)>,
    slots: Set<Seq<char>>,
    template: Seq<char>,
) -> Option<ErrorView> {
    first_error(
        params.map_values(
            |p: (String, String)|
                if slots.contains(p.0@) {
                    None
                } else {
                    Some(ErrorView::UnknownUrlParam { key: p.0@, template })
                },
        ),
    )
}

/// Every provided query slot must be read by a slotted query rule.
pub open spec fn unknown_query_check(queries: Seq<(String, String)>, slots: Set<Seq<char>>) -> Option<
    ErrorView,
> {
    first_error(
        queries.map_values(
            |p: (String, String)|
                if slots.contains(p.0@) {
                    None
                } else {
                    Some(ErrorView::UnknownQueryKey { key: p.0@ })
                },
        ),
    )
}

/// The URL an endpoint whose template parsed into `cs` builds from `params` and `queries`:
/// unknown parameters are refused; slots are resolved and percent-encoded into the template;
/// the result must parse as an absolute URL without fragment or query; unknown query slots
/// are refused; the query rules' pairs are appended, in order, when there are any.
pub open spec fn url_outcome(
    e: EndpointModel,
    cs: Seq<ChunkView>,
    params: Seq<(String, String)>,
    queries: Seq<(String, String)>,
) -> Result<Seq<char>, ErrorView> {
    match unknown_param_check(params, slot_set(cs), e.url_template) {
        Some(x) => Err(x),
        None => match resolve_chunks(cs, e.url_param_specs, params) {
            Err(x) => Err(x),
            Ok(resolved) => match url_parse_outcome(resolved) {
                Err(msg) => Err(ErrorView::UrlParse { detail: msg }),
                Ok((href, has_fragment, has_query)) => if has_fragment {
                    Err(ErrorView::UrlHasFragment)
                } else if has_query {
                    Err(ErrorView::UrlHasQuery)
                } else {
                    match unknown_query_check(queries, query_slot_set(e.query_specs)) {
                        Some(x) => Err(x),
                        None => match emitted_pairs(e.query_specs, queries) {
                            Err(x) => Err(x),
                            Ok(pairs) => Ok(
                                if pairs.len() == 0 {
                                    href
                                } else {
                                    url_with_query_pairs(resolved, pairs)
                                },
                            ),
                        },
                    }
                },
            },
        },
    }
}

/// The text of URL `href` with `pairs` appended to its query as the `url` crate writes them:
/// `href` alone when there are none, else `href`, `?`, and every pair form-encoded as
/// `name=value`, joined by `&`, in order.
pub open spec fn with_query_text(href: Seq<char>, pairs: Seq<(Seq<char>, Seq<char>)>) -> Seq<char> {
    if pairs.len() == 0 {
        href
    } else {
        href + "?"@ + form_query(pairs)
    }
}

/// `u` is the `url` crate's serialization of the resolved template with every pair the query
/// rules emit appended, in order; a resolved template already in serialized form is kept as
/// it stands.
pub open spec fn built_url_text(
    e: EndpointModel,
    cs: Seq<ChunkView>,
    params: Seq<(String, String)>,
    queries: Seq<(String, String)>,
    u: Seq<char>,
) -> bool {
    match (resolve_chunks(cs, e.url_param_specs, params), emitted_pairs(e.query_specs, queries)) {
        (Ok(t), Ok(ps)) => match url_parse_outcome(t) {
            Ok((h, _, _)) => u == with_query_text(h, ps) && (is_plain_web_url(t) ==> h == t),
            Err(_) => false,
        },
        _ => false,
    }
}

/// The check of the call-time override at position `i`: a valid name, not a case-insensitive
/// repeat of an earlier override, allowlisted (case-insensitively), with a valid value.
pub open spec fn override_check(
    overrides: Seq<(String, String)>,
    i: int,
    allowed: Set<Seq<char>>,
) -> Option<ErrorView> {
    let name = overrides[i].0@;
    if !header_name_ok(name) {
        Some(name_error(name, "headers"@))
    } else if exists|j: int| 0 <= j < i && lower_text(#[trigger] overrides[j].0@) == lower_text(name) {
        Some(ErrorView::DuplicateOverrideHeader { name })
    } else if !allowed.contains(lower_text(name)) {
        Some(ErrorView::OverrideNotAllowlisted { name })
    } else if !header_value_ok(overrides[i].1@) {
        Some(value_error(name, "headers"@))
    } else {
        None
    }
}

/// The checks of all overrides, in order.
pub open spec fn override_checks(overrides: Seq<(String, String)>, allowed: Set<Seq<char>>) -> Seq<
    Option<ErrorView>,
> {
    Seq::new(overrides.len(), |i: int| override_check(overrides, i, allowed))
}

/// The first fault of layering `overrides` over static headers `statics`, if any.
pub open spec fn header_layering_check(
    statics: Seq<(String, String)>,
    overrides: Seq<(String, String)>,
    allowed: Set<Seq<char>>,
) -> Option<ErrorView> {
    either(
        first_error(statics.map_values(|h: (String, String)| static_header_check(h))),
        first_error(override_checks(overrides, allowed)),
    )
}

/// A resolved URL parameter always lies within its byte bounds.
pub proof fn law_resolved_param_within_bounds(
    spec: UrlParamSpec,
    slot: Seq<char>,
    provided: Option<Seq<char>>,
)
    ensures
        resolve_param(spec, slot, provided) matches Ok(v) ==> {
            &&& spec.min_bytes matches Some(lo) ==> byte_count(v) >= lo
            &&& spec.max_bytes matches Some(hi) ==> byte_count(v) <= hi
        },
{
}

/// A provided non-empty value whose UTF-8 length lies within consistent byte bounds, ends
/// included, resolves to itself.
pub proof fn law_value_within_bounds_resolves_to_itself(
    spec: UrlParamSpec,
    slot: Seq<char>,
    v: Seq<char>,
)
    requires
        v.len() > 0,
        !(spec.min_bytes matches Some(lo) && spec.max_bytes matches Some(hi) && lo > hi),
        spec.min_bytes matches Some(lo) ==> lo <= byte_count(v),
        spec.max_bytes matches Some(hi) ==> byte_count(v) <= hi,
    ensures
        resolve_param(spec, slot, Some(v)) == Ok::<Seq<char>, ErrorView>(v),
{
}

/// Resolution fails on inconsistent bounds, and a provided non-empty value outside the
/// bounds is refused rather than cut or replaced.
pub proof fn law_value_outside_bounds_is_refused(
    spec: UrlParamSpec,
    slot: Seq<char>,
    v: Seq<char>,
)
    requires
        v.len() > 0,
        (spec.min_bytes matches Some(lo) && byte_count(v) < lo) || (spec.max_bytes matches Some(hi)
            && byte_count(v) > hi) || (spec.min_bytes matches Some(lo) && spec.max_bytes matches Some(
            hi,
        ) && lo > hi),
    ensures
        resolve_param(spec, slot, Some(v)) is Err,
{
}

/// The text substituted for a slot holds only ASCII letters, digits, `-._~` and `%`: a
/// call-time value cannot add path segments, a query or a fragment to the URL.
pub proof fn law_slot_text_is_encoded(
    name: Seq<char>,
    specs: Seq<(String, UrlParamSpec)>,
    params: Seq<(String, String)>,
)
    ensures
        chunk_text(ChunkView::Slot(name), specs, params) matches Ok(t) ==> forall|i: int|
            0 <= i < t.len() ==> is_encoded_char(#[trigger] t[i]),
{
    if let Some(spec) = lookup(specs, name) {
        if let Ok(v) = resolve_param(spec, name, lookup_text(params, name)) {
            lemma_percent_encode_chars(vstd::utf8::encode_utf8(v));
        }
    }
}

/// Layering succeeds only on valid headers: every static and every override header has a
/// valid HTTP name and value, every override is allowlisted up to letter case, and no two
/// overrides differ only in letter case.
pub proof fn law_layered_headers_are_valid(
    statics: Seq<(String, String)>,
    overrides: Seq<(String, String)>,
    allowed: Set<Seq<char>>,
)
    requires
        header_layering_check(statics, overrides, allowed) is None,
    ensures
        forall|i: int|
            0 <= i < statics.len() ==> header_name_ok((#[trigger] statics[i]).0@) && header_value_ok(
                statics[i].1@,
            ),
        forall|i: int|
            0 <= i < overrides.len() ==> header_name_ok((#[trigger] overrides[i]).0@)
                && header_value_ok(overrides[i].1@) && allowed.contains(lower_text(overrides[i].0@)),
        forall|i: int, j: int|
            0 <= i < j < overrides.len() ==> lower_text((#[trigger] overrides[i]).0@) != lower_text(
                (#[trigger] overrides[j]).0@,
            ),
{
    let sc = statics.map_values(|h: (String, String)| static_header_check(h));
    let oc = override_checks(overrides, allowed);
    lemma_first_error_none(sc);
    lemma_first_error_none(oc);
    assert forall|i: int| 0 <= i < statics.len() implies header_name_ok((#[trigger] statics[i]).0@)
        && header_value_ok(statics[i].1@) by {
        assert(sc[i] is None);
    }
    assert forall|i: int| 0 <= i < overrides.len() implies header_name_ok((#[trigger] overrides[i]).0@)
        && header_value_ok(overrides[i].1@) && allowed.contains(lower_text(overrides[i].0@)) by {
        assert(oc[i] is None);
    }
    assert forall|i: int, j: int| 0 <= i < j < overrides.len() implies lower_text(
        (#[trigger] overrides[i]).0@,
    ) != lower_text((#[trigger] overrides[j]).0@) by {
        assert(oc[j] is None);
    }
}

/// In layered headers every call-time override comes after every static header, so a
/// consumer that lets later entries win applies the override.
pub proof fn law_overrides_follow_statics(
    statics: Seq<(String, String)>,
    overrides: Seq<(String, String)>,
    i: int,
    j: int,
)
    requires
        0 <= i < statics.len(),
        0 <= j < overrides.len(),
    ensures
        (statics + overrides)[i] == statics[i],
        (statics + overrides)[statics.len() + j] == overrides[j],
        i < statics.len() + j,
{
}

proof fn lemma_resolve_chunks_step(
    cs: Seq<ChunkView>,
    specs: Seq<(String, UrlParamSpec)>,
    params: Seq<(String, String)>,
    i: int,
)
    requires
        0 <= i < cs.len(),
    ensures
        resolve_chunks(cs.take(i + 1), specs, params) == match resolve_chunks(cs.take(i), specs, params) {
            Err(e) => Err(e),
            Ok(prefix) => match chunk_text(cs[i], specs, params) {
                Err(e) => Err(e),
                Ok(t) => Ok(prefix + t),
            },
        },
{
    assert(cs.take(i + 1).drop_last() =~= cs.take(i));
}

proof fn lemma_resolve_chunks_prefix(
    cs: Seq<ChunkView>,
    specs: Seq<(String, UrlParamSpec)>,
    params: Seq<(String, String)>,
    k: int,
)
    requires
        0 <= k <= cs.len(),
        resolve_chunks(cs.take(k), specs, params) is Err,
    ensures
        resolve_chunks(cs, specs, params) == resolve_chunks(cs.take(k), specs, params),
    decreases cs.len() - k,
{
    if k < cs.len() {
        lemma_resolve_chunks_step(cs, specs, params, k);
        lemma_resolve_chunks_prefix(cs, specs, params, k + 1);
    } else {
        assert(cs.take(k) =~= cs);
    }
}

proof fn lemma_emitted_pairs_step(qs: Seq<QuerySpec>, queries: Seq<(String, String)>, i: int)
    requires
        0 <= i < qs.len(),
    ensures
        emitted_pairs(qs.take(i + 1), queries) == match emitted_pairs(qs.take(i), queries) {
            Err(e) => Err(e),
            Ok(prefix) => match query_pair(qs[i], queries) {
                Err(e) => Err(e),
                Ok(None) => Ok(prefix),
                Ok(Some(p)) => Ok(prefix.push(p)),
            },
        },
{
    assert(qs.take(i + 1).drop_last() =~= qs.take(i));
}

proof fn lemma_emitted_pairs_prefix(qs: Seq<QuerySpec>, queries: Seq<(String, String)>, k: int)
    requires
        0 <= k <= qs.len(),
        emitted_pairs(qs.take(k), queries) is Err,
    ensures
        emitted_pairs(qs, queries) == emitted_pairs(qs.take(k), queries),
    decreases qs.len() - k,
{
    if k < qs.len() {
        lemma_emitted_pairs_step(qs, queries, k);
        lemma_emitted_pairs_prefix(qs, queries, k + 1);
    } else {
        assert(qs.take(k) =~= qs);
    }
}

/// The value stored under `key`, as a string slice.
fn lookup_str<'a>(m: &'a StringMap<String>, key: &str) -> (r: Option<&'a str>)
    ensures
        opt_view(r) == lookup_text(m@, key@),
{
    match m.get(key) {
        Some(v) => Some(v.as_str()),
        None => None,
    }
}

impl UrlParamSpec {
    fn resolve_value(&self, slot: &str, provided: Option<&str>) -> (r: Result<String, ConfigError>)
        ensures
            text_result_matches(r, resolve_param(*self, slot@, opt_view(provided))),
    {
        let b = validate_min_max_bounds(slot, self.min_bytes, self.max_bytes);
        if let Err(e) = b {
            return Err(e);
        }
        let value: &str = match provided {
            Some(v) => if !v.is_empty() {
                v
            } else {
                match &self.default {
                    Some(d) => d.as_str(),
                    None => "",
                }
            },
            None => match &self.default {
                Some(d) => d.as_str(),
                None => "",
            },
        };
        proof {
            reveal_strlit("");
            assert(""@ =~= Seq::<char>::empty());
        }
        assert(bounds_error(slot@, self.min_bytes, self.max_bytes) is None);
        assert(value@ == match opt_view(provided) {
            Some(v) => if v.len() > 0 {
                v
            } else {
                match self.default {
                    Some(d) => d@,
                    None => Seq::empty(),
                }
            },
            None => match self.default {
                Some(d) => d@,
                None => Seq::empty(),
            },
        });
        match validate_byte_len(slot, value, self.min_bytes, self.max_bytes) {
            Ok(()) => Ok(String::from_str(value)),
            Err(e) => {
                Err(e)
            },
        }
    }
}

impl HttpEndpoint {
    /// Builds an absolute request URL from provided URL params and query slots.
    pub fn build_url(&self, url_params: &StringMap<String>, queries: &StringMap<String>) -> (r: Result<
        String,
        ConfigError,
    >)
        ensures
            match endpoint_check(self@) {
                Some(x) => r matches Err(e) && e@ == x,
                None => text_result_matches(
                    r,
                    url_outcome(self@, parse_template(self@.url_template)->Ok_0, url_params@, queries@),
                ),
            },
            r matches Ok(u) ==> built_url_text(
                self@,
                parse_template(self@.url_template)->Ok_0,
                url_params@,
                queries@,
                u@,
            ),
    {
        let prepared = match self.prepare_runtime() {
            Ok(p) => p,
            Err(e) => {
                return Err(e);
            },
        };
        self.build_url_prepared(url_params, queries, &prepared)
    }

    /// Validates and layers endpoint-configured headers with call-time overrides: the static
    /// headers in their order, then the overrides in theirs.
    pub fn build_headers(&self, overrides: &StringMap<String>) -> (r: Result<
        Vec<(String, String)>,
        ConfigError,
    >)
        ensures
            r matches Ok(v) ==> forall|i: int|
                0 <= i < v@.len() ==> header_name_ok((#[trigger] v@[i]).0@) && header_value_ok(
                    v@[i].1@,
                ),
            r matches Ok(v) ==> forall|i: int|
                0 <= i < overrides@.len() ==> lowered_set(self@.overridable_request_headers).contains(
                    lower_text((#[trigger] overrides@[i]).0@),
                ),
            match r {
                Ok(v) => endpoint_check(self@) is None && header_layering_check(
                    self@.headers,
                    overrides@,
                    lowered_set(self@.overridable_request_headers),
                ) is None && v@ == self@.headers + overrides@,
                Err(e) => reports(
                    Err(e),
                    either(
                        endpoint_check(self@),
                        header_layering_check(
                            self@.headers,
                            overrides@,
                            lowered_set(self@.overridable_request_headers),
                        ),
                    ),
                ),
            },
    {
        let prepared = match self.prepare_runtime() {
            Ok(p) => p,
            Err(e) => {
                return Err(e);
            },
        };
        self.build_headers_prepared(overrides, &prepared)
    }

    fn check_url_params(&self, url_params: &StringMap<String>, slots: &[String], Ghost(cs): Ghost<Seq<ChunkView>>) -> (r: Result<(), ConfigError>)
        requires
            text_set(slots@) == slot_set(cs),
        ensures
            reports(r, unknown_param_check(url_params@, slot_set(cs), self@.url_template)),
    {
        let params = url_params.entries();
        let ghost checks = url_params@.map_values(
            |p: (String, String)|
                if slot_set(cs).contains(p.0@) {
                    None
                } else {
                    Some(ErrorView::UnknownUrlParam { key: p.0@, template: self@.url_template })
                },
        );
        let mut i: usize = 0;
        while i < params.len()
            invariant
                i <= params@.len(),
                params@ == url_params@,
                text_set(slots@) == slot_set(cs),
                checks == url_params@.map_values(
                    |p: (String, String)|
                        if slot_set(cs).contains(p.0@) {
                            None
                        } else {
                            Some(ErrorView::UnknownUrlParam { key: p.0@, template: self@.url_template })
                        },
                ),
                first_error(checks.take(i as int)) is None,
            decreases params@.len() - i,
        {
            proof {
                lemma_first_error_step(checks, i as int);
            }
            if !contains_text(slots, params[i].0.as_str()) {
                let e = ConfigError::UnknownUrlParam {
                    key: params[i].0.clone(),
                    template: self.url_template.clone(),
                };
                proof {
                    assert(checks[i as int] == Some(e@));
                    lemma_first_error_prefix(checks, i + 1);
                }
                return Err(e);
            }
            i = i + 1;
        }
        assert(checks.take(i as int) =~= checks);
        Ok(())
    }

    fn resolve_template(&self, chunks: &[UrlTemplateChunk], url_params: &StringMap<String>) -> (r: Result<
        String,
        ConfigError,
    >)
        ensures
            text_result_matches(r, resolve_chunks(chunk_views(chunks@), self@.url_param_specs, url_params@)),
    {
        let ghost cv = chunk_views(chunks@);
        let mut resolved = String::new();
        let mut k: usize = 0;
        assert(cv.take(0) =~= Seq::<ChunkView>::empty());
        while k < chunks.len()
            invariant
                k <= chunks@.len(),
                cv == chunk_views(chunks@),
                resolve_chunks(cv.take(k as int), self@.url_param_specs, url_params@) == Ok::<
                    Seq<char>,
                    ErrorView,
                >(resolved@),
            decreases chunks@.len() - k,
        {
            proof {
                lemma_resolve_chunks_step(cv, self@.url_param_specs, url_params@, k as int);
                assert(cv[k as int] == chunks@[k as int]@);
            }
            match &chunks[k] {
                UrlTemplateChunk::Literal(text) => {
                    resolved.append(text.as_str());
                },
                UrlTemplateChunk::Slot(slot) => {
                    let spec = match self.url_param_specs.get(slot.as_str()) {
                        Some(spec) => spec,
                        None => {
                            let e = ConfigError::MissingUrlParamSpec { slot: slot.clone() };
                            proof {
                                lemma_resolve_chunks_prefix(cv, self@.url_param_specs, url_params@, k + 1);
                            }
                            return Err(e);
                        },
                    };
                    let provided = lookup_str(url_params, slot.as_str());
                    let value = match spec.resolve_value(slot.as_str(), provided) {
                        Ok(v) => v,
                        Err(e) => {
                            proof {
                                lemma_resolve_chunks_prefix(cv, self@.url_param_specs, url_params@, k + 1);
                            }
                            return Err(e);
                        },
                    };
                    let encoded = percent_encode_component(value.as_str());
                    resolved.append(encoded.as_str());
                },
            }
            k = k + 1;
        }
        assert(cv.take(k as int) =~= cv);
        Ok(resolved)
    }

    fn check_query_keys(&self, queries: &StringMap<String>, qslots: &[String]) -> (r: Result<(), ConfigError>)
        requires
            text_set(qslots@) == query_slot_set(self@.query_specs),
        ensures
            reports(r, unknown_query_check(queries@, query_slot_set(self@.query_specs))),
    {
        let qentries = queries.entries();
        let ghost checks = queries@.map_values(
            |p: (String, String)|
                if query_slot_set(self@.query_specs).contains(p.0@) {
                    None
                } else {
                    Some(ErrorView::UnknownQueryKey { key: p.0@ })
                },
        );
        let mut j: usize = 0;
        while j < qentries.len()
            invariant
                j <= qentries@.len(),
                qentries@ == queries@,
                text_set(qslots@) == query_slot_set(self@.query_specs),
                checks == queries@.map_values(
                    |p: (String, String)|
                        if query_slot_set(self@.query_specs).contains(p.0@) {
                            None
                        } else {
                            Some(ErrorView::UnknownQueryKey { key: p.0@ })
                        },
                ),
                first_error(checks.take(j as int)) is None,
            decreases qentries@.len() - j,
        {
            proof {
                lemma_first_error_step(checks, j as int);
            }
            if !contains_text(qslots, qentries[j].0.as_str()) {
                let e = ConfigError::UnknownQueryKey { key: qentries[j].0.clone() };
                proof {
                    assert(checks[j as int] == Some(e@));
                    lemma_first_error_prefix(checks, j + 1);
                }
                return Err(e);
            }
            j = j + 1;
        }
        assert(checks.take(j as int) =~= checks);
        Ok(())
    }

    fn emit_query_pair(&self, q: &QuerySpec, queries: &StringMap<String>) -> (r: Result<
        Option<(String, String)>,
        ConfigError,
    >)
        ensures
            match (r, query_pair(*q, queries@)) {
                (Ok(Some(p)), Ok(Some(x))) => p.0@ == x.0 && p.1@ == x.1,
                (Ok(None), Ok(None)) => true,
                (Err(e), Err(x)) => e@ == x,
                _ => false,
            },
    {
        match q {
            QuerySpec::Const { key, value } => {
                if let Err(e) = validate_query_key(key.as_str()) {
                    return Err(e);
                }
                Ok(Some((key.clone(), value.clone())))
            },
            QuerySpec::Slotted { key, slot, mode, default, min_bytes, max_bytes } => {
                if let Err(e) = validate_query_key(key.as_str()) {
                    return Err(e);
                }
                if let Err(e) = validate_slot_name(slot.as_str()) {
                    return Err(e);
                }
                if let Err(e) = validate_min_max_bounds(slot.as_str(), *min_bytes, *max_bytes) {
                    return Err(e);
                }
                let provided = lookup_str(queries, slot.as_str());
                let dflt: Option<&str> = match default {
                    Some(d) => Some(d.as_str()),
                    None => None,
                };
                assert(opt_view(dflt) == opt_string_view(*default));
                match resolve_slotted_query_value(
                    slot.as_str(),
                    *mode,
                    dflt,
                    provided,
                    *min_bytes,
                    *max_bytes,
                ) {
                    Ok(Some(v)) => Ok(Some((key.clone(), v))),
                    Ok(None) => Ok(None),
                    Err(e) => {
                        Err(e)
                    },
                }
            },
        }
    }

    fn emit_query_pairs(&self, queries: &StringMap<String>) -> (r: Result<Vec<(String, String)>, ConfigError>)
        ensures
            match (r, emitted_pairs(self@.query_specs, queries@)) {
                (Ok(v), Ok(p)) => pair_views(v@) == p,
                (Err(e), Err(x)) => e@ == x,
                _ => false,
            },
    {
        let ghost qs = self@.query_specs;
        let mut pairs: Vec<(String, String)> = Vec::new();
        let mut n: usize = 0;
        assert(qs.take(0) =~= Seq::<QuerySpec>::empty());
        assert(pair_views(pairs@) =~= Seq::<(Seq<char>, Seq<char>)>::empty());
        while n < self.query_specs.len()
            invariant
                n <= qs.len(),
                qs == self@.query_specs,
                emitted_pairs(qs.take(n as int), queries@) == Ok::<
                    Seq<(Seq<char>, Seq<char>)>,
                    ErrorView,
                >(pair_views(pairs@)),
            decreases qs.len() - n,
        {
            proof {
                lemma_emitted_pairs_step(qs, queries@, n as int);
            }
            let ghost before = pairs@;
            match self.emit_query_pair(&self.query_specs[n], queries) {
                Ok(Some(p)) => {
                    pairs.push(p);
                    assert(pair_views(pairs@) =~= pair_views(before).push(
                        (pairs@[pairs@.len() - 1].0@, pairs@[pairs@.len() - 1].1@),
                    ));
                },
                Ok(None) => {},
                Err(e) => {
                    proof {
                        lemma_emitted_pairs_prefix(qs, queries@, n + 1);
                    }
                    return Err(e);
                },
            }
            n = n + 1;
        }
        assert(qs.take(n as int) =~= qs);
        Ok(pairs)
    }

    /// Builds the request URL with an already prepared endpoint.
    pub(crate) fn build_url_prepared(
        &self,
        url_params: &StringMap<String>,
        queries: &StringMap<String>,
        prepared: &PreparedHttpEndpoint,
    ) -> (r: Result<String, ConfigError>)
        requires
            prepared_for(prepared@, self@),
        ensures
            text_result_matches(r, url_outcome(self@, prepared@.chunks, url_params@, queries@)),
            r matches Ok(u) ==> built_url_text(self@, prepared@.chunks, url_params@, queries@, u@),
    {
        if let Err(e) = self.check_url_params(url_params, prepared.url_slot_names(), Ghost(prepared@.chunks)) {
            return Err(e);
        }
        let resolved = match self.resolve_template(prepared.chunks(), url_params) {
            Ok(s) => s,
            Err(e) => {
                return Err(e);
            },
        };
        let parsed = match parse_url(resolved.as_str()) {
            Ok(p) => p,
            Err(err) => {
                return Err(ConfigError::UrlParse { detail: err });
            },
        };
        if parsed.has_fragment {
            return Err(ConfigError::UrlHasFragment);
        }
        if parsed.has_query {
            return Err(ConfigError::UrlHasQuery);
        }
        if let Err(e) = self.check_query_keys(queries, prepared.allowed_query_slots()) {
            return Err(e);
        }
        let pairs = match self.emit_query_pairs(queries) {
            Ok(p) => p,
            Err(e) => {
                return Err(e);
            },
        };
        if pairs.len() == 0 {
            Ok(parsed.href)
        } else {
            Ok(url_append_query_pairs(resolved.as_str(), &pairs))
        }
    }

    /// Layers call-time overrides over the static headers with an already prepared endpoint.
    pub(crate) fn build_headers_prepared(&self, overrides: &StringMap<String>, prepared: &PreparedHttpEndpoint) -> (r:
        Result<Vec<(String, String)>, ConfigError>)
        ensures
            r matches Ok(v) ==> forall|i: int|
                0 <= i < v@.len() ==> header_name_ok((#[trigger] v@[i]).0@) && header_value_ok(
                    v@[i].1@,
                ),
            r matches Ok(v) ==> forall|i: int|
                0 <= i < overrides@.len() ==> prepared@.allowed_overrides.contains(
                    lower_text((#[trigger] overrides@[i]).0@),
                ),
            match r {
                Ok(v) => header_layering_check(self@.headers, overrides@, prepared@.allowed_overrides)
                    is None && v@ == self@.headers + overrides@,
                Err(e) => reports(
                    Err(e),
                    header_layering_check(self@.headers, overrides@, prepared@.allowed_overrides),
                ),
            },
    {
        let ghost statics = self@.headers;
        let ghost schecks = statics.map_values(|h: (String, String)| static_header_check(h));
        let entries = self.headers.entries();
        let mut layered: Vec<(String, String)> = Vec::new();
        let mut i: usize = 0;
        while i < entries.len()
            invariant
                i <= entries@.len(),
                entries@ == statics,
                statics == self@.headers,
                schecks == statics.map_values(|h: (String, String)| static_header_check(h)),
                first_error(schecks.take(i as int)) is None,
                layered@ == statics.take(i as int),
            decreases entries@.len() - i,
        {
            proof {
                lemma_first_error_step(schecks, i as int);
            }
            let (name, value) = &entries[i];
            if let Err(e) = normalize_header_name(name.as_str(), "headers") {
                proof {
                    lemma_first_error_prefix(schecks, i + 1);
                }
                return Err(e);
            }
            if let Err(e) = validate_header_value(name.as_str(), value.as_str(), "headers") {
                proof {
                    lemma_first_error_prefix(schecks, i + 1);
                }
                return Err(e);
            }
            layered.push((name.clone(), value.clone()));
            assert(layered@ =~= statics.take(i + 1));
            i = i + 1;
        }
        assert(schecks.take(i as int) =~= schecks);
        let allowed = prepared.allowed_overrides();
        let ghost os = overrides@;
        let ghost ochecks = override_checks(os, prepared@.allowed_overrides);
        let oentries = overrides.entries();
        let mut seen: Vec<String> = Vec::new();
        let mut j: usize = 0;
        while j < oentries.len()
            invariant
                j <= oentries@.len(),
                oentries@ == os,
                os == overrides@,
                text_set(allowed@) == prepared@.allowed_overrides,
                ochecks == override_checks(os, prepared@.allowed_overrides),
                first_error(ochecks.take(j as int)) is None,
                first_error(schecks) is None,
                schecks == self@.headers.map_values(|h: (String, String)| static_header_check(h)),
                forall|x: Seq<char>| #[trigger] text_set(seen@).contains(x) <==> exists|k: int|
                    0 <= k < j && lower_text(os[k].0@) == x,
                layered@ == statics + os.take(j as int),
            decreases oentries@.len() - j,
        {
            proof {
                lemma_first_error_step(ochecks, j as int);
            }
            let (name, value) = &oentries[j];
            let normalized = match normalize_header_name(name.as_str(), "headers") {
                Ok(n) => n,
                Err(e) => {
                    proof {
                        assert(ochecks[j as int] == override_check(os, j as int, prepared@.allowed_overrides));
                        lemma_first_error_prefix(ochecks, j + 1);
                    }
                    return Err(e);
                },
            };
            if contains_text(seen.as_slice(), normalized.as_str()) {
                let e = ConfigError::DuplicateOverrideHeader { name: name.clone() };
                proof {
                    let k = choose|k: int| 0 <= k < j && lower_text(#[trigger] os[k].0@) == normalized@;
                    assert(ochecks[j as int] == Some(e@));
                    lemma_first_error_prefix(ochecks, j + 1);
                }
                return Err(e);
            }
            if !contains_text(allowed, normalized.as_str()) {
                let e = ConfigError::OverrideNotAllowlisted { name: name.clone() };
                proof {
                    assert(!(exists|k: int| 0 <= k < j && lower_text(#[trigger] os[k].0@) == lower_text(name@)));
                    assert(ochecks[j as int] == Some(e@));
                    lemma_first_error_prefix(ochecks, j + 1);
                }
                return Err(e);
            }
            if let Err(e) = validate_header_value(name.as_str(), value.as_str(), "headers") {
                proof {
                    assert(!(exists|k: int| 0 <= k < j && lower_text(#[trigger] os[k].0@) == lower_text(name@)));
                    lemma_first_error_prefix(ochecks, j + 1);
                }
                return Err(e);
            }
            proof {
                assert(!(exists|k: int| 0 <= k < j && lower_text(#[trigger] os[k].0@) == lower_text(name@)));
            }
            let ghost seen_before = seen@;
            seen.push(normalized);
            proof {
                seen_before.map_values(|s: String| s@).lemma_push_to_set_commute(lower_text(name@));
                assert(seen@.map_values(|s: String| s@) =~= seen_before.map_values(|s: String| s@).push(
                    lower_text(name@),
                ));
                assert forall|x: Seq<char>| #[trigger] text_set(seen@).contains(x) <==> exists|k: int|
                    0 <= k < j + 1 && lower_text(os[k].0@) == x by {
                    if text_set(seen_before).contains(x) {
                        let k = choose|k: int| 0 <= k < j && lower_text(#[trigger] os[k].0@) == x;
                        assert(0 <= k < j + 1 && lower_text(os[k].0@) == x);
                    }
                    if x == lower_text(name@) {
                        assert(os[j as int].0@ == name@);
                    }
                }
            }
            layered.push((name.clone(), value.clone()));
            assert(layered@ =~= statics + os.take(j + 1));
            j = j + 1;
        }
        assert(ochecks.take(j as int) =~= ochecks);
        assert(os.take(j as int) =~= os);
        proof {
            law_layered_headers_are_valid(statics, os, prepared@.allowed_overrides);
            assert forall|i: int| 0 <= i < layered@.len() implies header_name_ok(
                (#[trigger] layered@[i]).0@,
            ) && header_value_ok(layered@[i].1@) by {
                if i < statics.len() {
                    assert(layered@[i] == statics[i]);
                } else {
                    assert(layered@[i] == os[i - statics.len()]);
                }
            }
        }
        Ok(layered)
    }
}

} // verus!
