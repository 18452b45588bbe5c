//! Structural validation of an endpoint and its preparation for repeated request building.

use vstd::prelude::*;
use super::{EndpointModel, HttpEndpoint, QuerySpec, UrlParamSpec};
use crate::error::{
    either, first_error, lemma_first_error_none, lemma_first_error_prefix, lemma_first_error_step,
    reports, ConfigError, ErrorView,
};
use crate::headers::{
    allowlisted_header_names, header_name_ok, header_value_ok, lowered_set, name_error,
    name_check, name_list_check, normalize_header_name, validate_header_value,
    value_error,
};
use crate::query::{
    bounds_error, validate_min_max_bounds, validate_query_key, validate_slot_name,
};
use crate::strmap::has_key;
use crate::template::{
    chunk_views, parse_template, parse_url_template, slot_name_ok, template_error, ChunkView,
    TemplateFault, UrlTemplateChunk,
};
use crate::text::{contains_text, text_set};

verus! {

/// The slot names that occur in a chunk list.
pub open spec fn slot_set(cs: Seq<ChunkView>) -> Set<Seq<char>> {
    Set::new(|n: Seq<char>| exists|i: int| 0 <= i < cs.len() && #[trigger] cs[i] == ChunkView::Slot(n))
}

/// The slots that the slotted query rules read.
pub open spec fn query_slot_set(qs: Seq<QuerySpec>) -> Set<Seq<char>> {
    Set::new(
        |n: Seq<char>|
            exists|i: int|
                0 <= i < qs.len() && (#[trigger] qs[i] matches QuerySpec::Slotted { slot, .. } && slot@ == n),
    )
}

/// A template slot must have a `url_param_specs` entry.
pub open spec fn chunk_spec_check(c: ChunkView, specs: Seq<(String, UrlParamSpec)>) -> Option<
    ErrorView,
> {
    match c {
        ChunkView::Slot(n) => if has_key(specs, n) {
            None
        } else {
            Some(ErrorView::MissingUrlParamSpec { slot: n })
        },
        ChunkView::Literal(_) => None,
    }
}

/// A `url_param_specs` entry must name a template slot and have consistent bounds.
pub open spec fn param_spec_check(entry: (String, UrlParamSpec), slots: Set<Seq<char>>) -> Option<
    ErrorView,
> {
    if !slots.contains(entry.0@) {
        Some(ErrorView::UnusedUrlParamSpec { slot: entry.0@ })
    } else {
        bounds_error(entry.0@, entry.1.min_bytes, entry.1.max_bytes)
    }
}

/// A query rule must have a non-empty key; a slotted rule also a valid slot name and
/// consistent bounds.
pub open spec fn query_spec_check(q: QuerySpec) -> Option<ErrorView> {
    match q {
        QuerySpec::Const { key, .. } => if key@.len() == 0 {
            Some(ErrorView::EmptyQueryKey)
        } else {
            None
        },
        QuerySpec::Slotted { key, slot, min_bytes, max_bytes, .. } => if key@.len() == 0 {
            Some(ErrorView::EmptyQueryKey)
        } else if !slot_name_ok(slot@) {
            Some(ErrorView::InvalidSlotName { slot: slot@ })
        } else {
            bounds_error(slot@, min_bytes, max_bytes)
        },
    }
}

/// A static header must have a valid name and a valid value.
pub open spec fn static_header_check(h: (String, String)) -> Option<ErrorView> {
    if !header_name_ok(h.0@) {
        Some(name_error(h.0@, "headers"@))
    } else if !header_value_ok(h.1@) {
        Some(value_error(h.0@, "headers"@))
    } else {
        None
    }
}

/// The checks on the parts of an endpoint after its template parsed into `cs`, in the order
/// they are made.
pub open spec fn endpoint_parts_check(e: EndpointModel, cs: Seq<ChunkView>) -> Option<ErrorView> {
    either(
        first_error(cs.map_values(|c: ChunkView| chunk_spec_check(c, e.url_param_specs))),
        either(
            first_error(
                e.url_param_specs.map_values(
                    |p: (String, UrlParamSpec)| param_spec_check(p, slot_set(cs)),
                ),
            ),
            either(
                first_error(e.query_specs.map_values(|q: QuerySpec| query_spec_check(q))),
                either(
                    first_error(e.headers.map_values(|h: (String, String)| static_header_check(h))),
                    either(
                        name_list_check(e.overridable_request_headers, "overridable_request_headers"@),
                        name_list_check(e.exposed_response_headers, "exposed_response_headers"@),
                    ),
                ),
            ),
        ),
    )
}

/// The first structural fault of an endpoint, if any: the template must parse; slots and
/// `url_param_specs` entries must match one to one with consistent bounds; query rules must be
/// well formed; static headers must be valid; the override and exposure allowlists must hold
/// valid header names.
pub open spec fn endpoint_check(e: EndpointModel) -> Option<ErrorView> {
    match parse_template(e.url_template) {
        Err(f) => Some(template_error(f, e.url_template)),
        Ok(cs) => endpoint_parts_check(e, cs),
    }
}

/// A valid endpoint's parts are each well formed: every URL parameter and slotted query
/// rule has consistent byte bounds, every query rule a non-empty key and every slotted rule
/// a valid slot name, every static header a valid name and value, and every name of the two
/// header lists is a valid header name.
pub proof fn law_valid_endpoint_parts_are_well_formed(e: EndpointModel)
    requires
        endpoint_check(e) is None,
    ensures
        forall|i: int|
            0 <= i < e.url_param_specs.len() ==> !((#[trigger] e.url_param_specs[i]).1.min_bytes matches Some(
                lo,
            ) && e.url_param_specs[i].1.max_bytes matches Some(hi) && lo > hi),
        forall|i: int|
            0 <= i < e.query_specs.len() ==> match #[trigger] e.query_specs[i] {
                QuerySpec::Const { key, .. } => key@.len() > 0,
                QuerySpec::Slotted { key, slot, min_bytes, max_bytes, .. } => {
                    &&& key@.len() > 0
                    &&& slot_name_ok(slot@)
                    &&& !(min_bytes matches Some(lo) && max_bytes matches Some(hi) && lo > hi)
                },
            },
        forall|i: int|
            0 <= i < e.headers.len() ==> header_name_ok((#[trigger] e.headers[i]).0@)
                && header_value_ok(e.headers[i].1@),
        forall|i: int|
            0 <= i < e.overridable_request_headers.len() ==> header_name_ok(
                (#[trigger] e.overridable_request_headers[i])@,
            ),
        forall|i: int|
            0 <= i < e.exposed_response_headers.len() ==> header_name_ok(
                (#[trigger] e.exposed_response_headers[i])@,
            ),
{
    let cs = parse_template(e.url_template)->Ok_0;
    let c2 = e.url_param_specs.map_values(
        |p: (String, UrlParamSpec)| param_spec_check(p, slot_set(cs)),
    );
    let c3 = e.query_specs.map_values(|q: QuerySpec| query_spec_check(q));
    let c4 = e.headers.map_values(|h: (String, String)| static_header_check(h));
    let c5 = e.overridable_request_headers.map_values(
        |h: String| name_check(h@, "overridable_request_headers"@),
    );
    let c6 = e.exposed_response_headers.map_values(
        |h: String| name_check(h@, "exposed_response_headers"@),
    );
    lemma_first_error_none(c2);
    lemma_first_error_none(c3);
    lemma_first_error_none(c4);
    lemma_first_error_none(c5);
    lemma_first_error_none(c6);
    assert forall|i: int| 0 <= i < e.url_param_specs.len() implies !((#[trigger] e.url_param_specs[i]).1.min_bytes matches Some(
        lo,
    ) && e.url_param_specs[i].1.max_bytes matches Some(hi) && lo > hi) by {
        assert(c2[i] is None);
    }
    assert forall|i: int| 0 <= i < e.query_specs.len() implies match #[trigger] e.query_specs[i] {
        QuerySpec::Const { key, .. } => key@.len() > 0,
        QuerySpec::Slotted { key, slot, min_bytes, max_bytes, .. } => {
            &&& key@.len() > 0
            &&& slot_name_ok(slot@)
            &&& !(min_bytes matches Some(lo) && max_bytes matches Some(hi) && lo > hi)
        },
    } by {
        assert(c3[i] is None);
    }
    assert forall|i: int| 0 <= i < e.headers.len() implies header_name_ok((#[trigger] e.headers[i]).0@)
        && header_value_ok(e.headers[i].1@) by {
        assert(c4[i] is None);
    }
    assert forall|i: int| 0 <= i < e.overridable_request_headers.len() implies header_name_ok(
        (#[trigger] e.overridable_request_headers[i])@,
    ) by {
        assert(c5[i] is None);
    }
    assert forall|i: int| 0 <= i < e.exposed_response_headers.len() implies header_name_ok(
        (#[trigger] e.exposed_response_headers[i])@,
    ) by {
        assert(c6[i] is None);
    }
}

/// In a valid endpoint every template slot has a `url_param_specs` entry and every entry
/// names a template slot.
pub proof fn law_valid_endpoint_slots_match_specs(e: EndpointModel)
    requires
        endpoint_check(e) is None,
    ensures
        parse_template(e.url_template) is Ok,
        forall|n: Seq<char>| #[trigger]
            slot_set(parse_template(e.url_template)->Ok_0).contains(n) ==> has_key(
                e.url_param_specs,
                n,
            ),
        forall|i: int|
            0 <= i < e.url_param_specs.len() ==> slot_set(parse_template(e.url_template)->Ok_0).contains(
                (#[trigger] e.url_param_specs[i]).0@,
            ),
{
    let cs = parse_template(e.url_template)->Ok_0;
    let c1 = cs.map_values(|c: ChunkView| chunk_spec_check(c, e.url_param_specs));
    let c2 = e.url_param_specs.map_values(
        |p: (String, UrlParamSpec)| param_spec_check(p, slot_set(cs)),
    );
    lemma_first_error_none(c1);
    lemma_first_error_none(c2);
    assert forall|n: Seq<char>| #[trigger] slot_set(cs).contains(n) implies has_key(
        e.url_param_specs,
        n,
    ) by {
        let k = choose|k: int| 0 <= k < cs.len() && #[trigger] cs[k] == ChunkView::Slot(n);
        assert(c1[k] is None);
    }
    assert forall|i: int| 0 <= i < e.url_param_specs.len() implies slot_set(cs).contains(
        (#[trigger] e.url_param_specs[i]).0@,
    ) by {
        assert(c2[i] is None);
    }
}

/// The content of a [`PreparedHttpEndpoint`].
pub struct PreparedModel {
    pub chunks: Seq<ChunkView>,
    pub url_slots: Set<Seq<char>>,
    pub query_slots: Set<Seq<char>>,
    pub allowed_overrides: Set<Seq<char>>,
    pub exposed_response_allowlist: Set<Seq<char>>,
}

/// `p` is the preparation of endpoint `e`.
pub open spec fn prepared_for(p: PreparedModel, e: EndpointModel) -> bool {
    &&& parse_template(e.url_template) == Ok::<Seq<ChunkView>, TemplateFault>(p.chunks)
    &&& p.url_slots == slot_set(p.chunks)
    &&& p.query_slots == query_slot_set(e.query_specs)
    &&& p.allowed_overrides == lowered_set(e.overridable_request_headers)
    &&& p.exposed_response_allowlist == lowered_set(e.exposed_response_headers)
}

/// Pre-parsed endpoint state ready for repeated URL/header building.
#[derive(Debug)]
pub struct PreparedHttpEndpoint {
    parsed_url_chunks: Vec<UrlTemplateChunk>,
    url_slot_names: Vec<String>,
    allowed_query_slots: Vec<String>,
    allowed_overrides: Vec<String>,
    exposed_response_allowlist: Vec<String>,
}

impl View for PreparedHttpEndpoint {
    type V = PreparedModel;

    closed spec fn view(&self) -> PreparedModel {
        PreparedModel {
            chunks: chunk_views(self.parsed_url_chunks@),
            url_slots: text_set(self.url_slot_names@),
            query_slots: text_set(self.allowed_query_slots@),
            allowed_overrides: text_set(self.allowed_overrides@),
            exposed_response_allowlist: text_set(self.exposed_response_allowlist@),
        }
    }
}

impl PreparedHttpEndpoint {
    #[verifier::type_invariant]
    spec fn well_formed(self) -> bool {
        forall|i: int, j: int|
            0 <= i < j < self.exposed_response_allowlist@.len()
                ==> self.exposed_response_allowlist@[i]@ != self.exposed_response_allowlist@[j]@
    }

    /// Returns normalized response-header allowlist names, each once.
    pub fn exposed_response_allowlist(&self) -> (r: &[String])
        ensures
            text_set(r@) == self@.exposed_response_allowlist,
            forall|i: int, j: int| 0 <= i < j < r@.len() ==> r@[i]@ != r@[j]@,
    {
        proof {
            use_type_invariant(self);
        }
        self.exposed_response_allowlist.as_slice()
    }

    pub(crate) fn chunks(&self) -> (r: &[UrlTemplateChunk])
        ensures
            chunk_views(r@) == self@.chunks,
    {
        self.parsed_url_chunks.as_slice()
    }

    pub(crate) fn url_slot_names(&self) -> (r: &[String])
        ensures
            text_set(r@) == self@.url_slots,
    {
        self.url_slot_names.as_slice()
    }

    pub(crate) fn allowed_query_slots(&self) -> (r: &[String])
        ensures
            text_set(r@) == self@.query_slots,
    {
        self.allowed_query_slots.as_slice()
    }

    pub(crate) fn allowed_overrides(&self) -> (r: &[String])
        ensures
            text_set(r@) == self@.allowed_overrides,
    {
        self.allowed_overrides.as_slice()
    }
}

impl Clone for PreparedHttpEndpoint {
    /// A copy with the same content.
    fn clone(&self) -> (r: Self)
        ensures
            r@ == self@,
    {
        proof {
            use_type_invariant(self);
        }
        let chunks = clone_chunks(&self.parsed_url_chunks);
        let url_slot_names = clone_texts(&self.url_slot_names);
        let allowed_query_slots = clone_texts(&self.allowed_query_slots);
        let allowed_overrides = clone_texts(&self.allowed_overrides);
        let exposed = clone_texts(&self.exposed_response_allowlist);
        proof {
            assert(chunk_views(chunks@) =~= chunk_views(self.parsed_url_chunks@));
            assert(url_slot_names@.map_values(|s: String| s@) =~= self.url_slot_names@.map_values(|s: String| s@));
            assert(allowed_query_slots@.map_values(|s: String| s@) =~= self.allowed_query_slots@.map_values(|s: String| s@));
            assert(allowed_overrides@.map_values(|s: String| s@) =~= self.allowed_overrides@.map_values(|s: String| s@));
            assert(exposed@.map_values(|s: String| s@) =~= self.exposed_response_allowlist@.map_values(|s: String| s@));
        }
        PreparedHttpEndpoint {
            parsed_url_chunks: chunks,
            url_slot_names,
            allowed_query_slots,
            allowed_overrides,
            exposed_response_allowlist: exposed,
        }
    }
}

/// A copy of a list of texts, entry by entry.
fn clone_texts(v: &Vec<String>) -> (r: Vec<String>)
    ensures
        r@.len() == v@.len(),
        forall|i: int| 0 <= i < v@.len() ==> (#[trigger] r@[i])@ == v@[i]@,
{
    let mut out: Vec<String> = Vec::new();
    let mut i: usize = 0;
    while i < v.len()
        invariant
            i <= v@.len(),
            out@.len() == i,
            forall|j: int| 0 <= j < i ==> (#[trigger] out@[j])@ == v@[j]@,
        decreases v@.len() - i,
    {
        out.push(v[i].clone());
        i = i + 1;
    }
    out
}

/// A copy of a list of template chunks, entry by entry.
fn clone_chunks(v: &Vec<UrlTemplateChunk>) -> (r: Vec<UrlTemplateChunk>)
    ensures
        r@.len() == v@.len(),
        forall|i: int| 0 <= i < v@.len() ==> (#[trigger] r@[i])@ == v@[i]@,
{
    let mut out: Vec<UrlTemplateChunk> = Vec::new();
    let mut i: usize = 0;
    while i < v.len()
        invariant
            i <= v@.len(),
            out@.len() == i,
            forall|j: int| 0 <= j < i ==> (#[trigger] out@[j])@ == v@[j]@,
        decreases v@.len() - i,
    {
        out.push(v[i].clone());
        i = i + 1;
    }
    out
}

/// The slot names of a chunk list, each once.
fn collect_slot_names(chunks: &[UrlTemplateChunk]) -> (v: Vec<String>)
    ensures
        text_set(v@) == slot_set(chunk_views(chunks@)),
{
    let ghost cv = chunk_views(chunks@);
    let mut out: Vec<String> = Vec::new();
    let mut i: usize = 0;
    while i < chunks.len()
        invariant
            i <= chunks@.len(),
            cv == chunk_views(chunks@),
            text_set(out@) == slot_set(cv.take(i as int)),
        decreases chunks@.len() - i,
    {
        let ghost before = out@;
        match &chunks[i] {
            UrlTemplateChunk::Slot(name) => {
                if !contains_text(out.as_slice(), name.as_str()) {
                    out.push(name.clone());
                    proof {
                        before.map_values(|s: String| s@).lemma_push_to_set_commute(name@);
                        assert(out@.map_values(|s: String| s@) =~= before.map_values(|s: String| s@).push(name@));
                    }
                }
            },
            UrlTemplateChunk::Literal(_) => {},
        }
        proof {
            assert(cv[i as int] == chunks@[i as int]@);
            assert forall|n: Seq<char>| #[trigger] slot_set(cv.take(i + 1)).contains(n) == (slot_set(cv.take(i as int)).contains(n) || cv[i as int] == ChunkView::Slot(n)) by {
                if slot_set(cv.take(i + 1)).contains(n) {
                    let k = choose|k: int| 0 <= k < cv.take(i + 1).len() && #[trigger] cv.take(i + 1)[k] == ChunkView::Slot(n);
                    if k < i {
                        assert(cv.take(i as int)[k] == ChunkView::Slot(n));
                    }
                }
                if slot_set(cv.take(i as int)).contains(n) {
                    let k = choose|k: int| 0 <= k < cv.take(i as int).len() && #[trigger] cv.take(i as int)[k] == ChunkView::Slot(n);
                    assert(cv.take(i + 1)[k] == ChunkView::Slot(n));
                }
                if cv[i as int] == ChunkView::Slot(n) {
                    assert(cv.take(i + 1)[i as int] == ChunkView::Slot(n));
                }
            }
            assert(text_set(out@) =~= slot_set(cv.take(i + 1)));
        }
        i = i + 1;
    }
    assert(cv.take(chunks@.len() as int) =~= cv);
    out
}

impl HttpEndpoint {
    fn check_chunk_specs(&self, chunks: &[UrlTemplateChunk]) -> (r: Result<(), ConfigError>)
        ensures
            reports(
                r,
                first_error(
                    chunk_views(chunks@).map_values(
                        |c: ChunkView| chunk_spec_check(c, self@.url_param_specs),
                    ),
                ),
            ),
    {
        let ghost checks = chunk_views(chunks@).map_values(
            |c: ChunkView| chunk_spec_check(c, self@.url_param_specs),
        );
        let mut i: usize = 0;
        while i < chunks.len()
            invariant
                i <= chunks@.len(),
                checks == chunk_views(chunks@).map_values(
                    |c: ChunkView| chunk_spec_check(c, self@.url_param_specs),
                ),
                first_error(checks.take(i as int)) is None,
            decreases chunks@.len() - i,
        {
            proof {
                lemma_first_error_step(checks, i as int);
            }
            match &chunks[i] {
                UrlTemplateChunk::Slot(name) => {
                    if !self.url_param_specs.contains_key(name.as_str()) {
                        let e = ConfigError::MissingUrlParamSpec { slot: name.clone() };
                        proof {
                            lemma_first_error_prefix(checks, i + 1);
                        }
                        return Err(e);
                    }
                },
                UrlTemplateChunk::Literal(_) => {},
            }
            i = i + 1;
        }
        assert(checks.take(i as int) =~= checks);
        Ok(())
    }

    fn check_param_specs(&self, slots: &[String]) -> (r: Result<(), ConfigError>)
        ensures
            reports(
                r,
                first_error(
                    self@.url_param_specs.map_values(
                        |p: (String, UrlParamSpec)| param_spec_check(p, text_set(slots@)),
                    ),
                ),
            ),
    {
        let ghost checks = self@.url_param_specs.map_values(
            |p: (String, UrlParamSpec)| param_spec_check(p, text_set(slots@)),
        );
        let entries = self.url_param_specs.entries();
        let mut i: usize = 0;
        while i < entries.len()
            invariant
                i <= entries@.len(),
                entries@ == self@.url_param_specs,
                checks == self@.url_param_specs.map_values(
                    |p: (String, UrlParamSpec)| param_spec_check(p, text_set(slots@)),
                ),
                first_error(checks.take(i as int)) is None,
            decreases entries@.len() - i,
        {
            proof {
                lemma_first_error_step(checks, i as int);
            }
            let (name, spec) = &entries[i];
            if !contains_text(slots, name.as_str()) {
                let e = ConfigError::UnusedUrlParamSpec { slot: name.clone() };
                proof {
                    lemma_first_error_prefix(checks, i + 1);
                }
                return Err(e);
            }
            let b = validate_min_max_bounds(name.as_str(), spec.min_bytes, spec.max_bytes);
            if b.is_err() {
                proof {
                    lemma_first_error_prefix(checks, i + 1);
                }
                return b;
            }
            i = i + 1;
        }
        assert(checks.take(i as int) =~= checks);
        Ok(())
    }

    fn check_query_specs(&self) -> (r: Result<(), ConfigError>)
        ensures
            reports(r, first_error(self@.query_specs.map_values(|q: QuerySpec| query_spec_check(q)))),
    {
        let ghost checks = self@.query_specs.map_values(|q: QuerySpec| query_spec_check(q));
        let mut i: usize = 0;
        while i < self.query_specs.len()
            invariant
                i <= self@.query_specs.len(),
                checks == self@.query_specs.map_values(|q: QuerySpec| query_spec_check(q)),
                first_error(checks.take(i as int)) is None,
            decreases self@.query_specs.len() - i,
        {
            proof {
                lemma_first_error_step(checks, i as int);
            }
            let r = match &self.query_specs[i] {
                QuerySpec::Const { key, .. } => validate_query_key(key.as_str()),
                QuerySpec::Slotted { key, slot, min_bytes, max_bytes, .. } => {
                    let k = validate_query_key(key.as_str());
                    if k.is_err() {
                        k
                    } else {
                        let s = validate_slot_name(slot.as_str());
                        if s.is_err() {
                            s
                        } else {
                            validate_min_max_bounds(slot.as_str(), *min_bytes, *max_bytes)
                        }
                    }
                },
            };
            assert(reports(r, checks[i as int]));
            if r.is_err() {
                proof {
                    lemma_first_error_prefix(checks, i + 1);
                }
                return r;
            }
            i = i + 1;
        }
        assert(checks.take(i as int) =~= checks);
        Ok(())
    }

    fn check_static_headers(&self) -> (r: Result<(), ConfigError>)
        ensures
            reports(
                r,
                first_error(self@.headers.map_values(|h: (String, String)| static_header_check(h))),
            ),
    {
        let ghost checks = self@.headers.map_values(|h: (String, String)| static_header_check(h));
        let entries = self.headers.entries();
        let mut i: usize = 0;
        while i < entries.len()
            invariant
                i <= entries@.len(),
                entries@ == self@.headers,
                checks == self@.headers.map_values(|h: (String, String)| static_header_check(h)),
                first_error(checks.take(i as int)) is None,
            decreases entries@.len() - i,
        {
            proof {
                lemma_first_error_step(checks, i as int);
            }
            let (name, value) = &entries[i];
            match normalize_header_name(name.as_str(), "headers") {
                Ok(_) => {},
                Err(e) => {
                    proof {
                        lemma_first_error_prefix(checks, i + 1);
                    }
                    return Err(e);
                },
            }
            match validate_header_value(name.as_str(), value.as_str(), "headers") {
                Ok(()) => {},
                Err(e) => {
                    proof {
                        lemma_first_error_prefix(checks, i + 1);
                    }
                    return Err(e);
                },
            }
            i = i + 1;
        }
        assert(checks.take(i as int) =~= checks);
        Ok(())
    }

    /// Validates the endpoint definition: the URL template parses; every slot has exactly one
    /// `url_param_specs` entry and every entry a slot, with `min_bytes` not above
    /// `max_bytes`; query rules have non-empty keys, valid slot names and consistent bounds;
    /// static headers have valid names and values; the override and exposure allowlists hold
    /// valid header names. The first fault found, in that order, is reported.
    pub fn validate_config(&self) -> (r: Result<(), ConfigError>)
        ensures
            reports(r, endpoint_check(self@)),
    {
        match self.prepare_runtime() {
            Ok(_) => Ok(()),
            Err(e) => Err(e),
        }
    }

    /// Validates the endpoint (as [`HttpEndpoint::validate_config`]) and pre-parses what URL
    /// and header building need.
    pub fn prepare_runtime(&self) -> (r: Result<PreparedHttpEndpoint, ConfigError>)
        ensures
            match r {
                Ok(p) => endpoint_check(self@) is None && prepared_for(p@, self@),
                Err(e) => reports(Err(e), endpoint_check(self@)),
            },
    {
        let chunks = match parse_url_template(self.url_template.as_str()) {
            Ok(c) => c,
            Err(e) => {
                return Err(e);
            },
        };
        let slots = collect_slot_names(chunks.as_slice());
        let r1 = self.check_chunk_specs(chunks.as_slice());
        if let Err(e) = r1 {
            return Err(e);
        }
        let r2 = self.check_param_specs(slots.as_slice());
        if let Err(e) = r2 {
            return Err(e);
        }
        let r3 = self.check_query_specs();
        if let Err(e) = r3 {
            return Err(e);
        }
        let r4 = self.check_static_headers();
        if let Err(e) = r4 {
            return Err(e);
        }
        let allowed_overrides = match allowlisted_header_names(
            self.overridable_request_headers.as_slice(),
            "overridable_request_headers",
        ) {
            Ok(v) => v,
            Err(e) => {
                return Err(e);
            },
        };
        let exposed = match allowlisted_header_names(
            self.exposed_response_headers.as_slice(),
            "exposed_response_headers",
        ) {
            Ok(v) => v,
            Err(e) => {
                return Err(e);
            },
        };
        let query_slots = self.collect_query_slots();
        Ok(
            PreparedHttpEndpoint {
                parsed_url_chunks: chunks,
                url_slot_names: slots,
                allowed_query_slots: query_slots,
                allowed_overrides,
                exposed_response_allowlist: exposed,
            },
        )
    }

    fn collect_query_slots(&self) -> (v: Vec<String>)
        ensures
            text_set(v@) == query_slot_set(self@.query_specs),
    {
        let ghost qs = self@.query_specs;
        let mut out: Vec<String> = Vec::new();
        let mut i: usize = 0;
        while i < self.query_specs.len()
            invariant
                i <= qs.len(),
                qs == self@.query_specs,
                text_set(out@) == query_slot_set(qs.take(i as int)),
            decreases qs.len() - i,
        {
            let ghost before = out@;
            match &self.query_specs[i] {
                QuerySpec::Slotted { slot, .. } => {
                    out.push(slot.clone());
                    proof {
                        before.map_values(|s: String| s@).lemma_push_to_set_commute(slot@);
                        assert(out@.map_values(|s: String| s@) =~= before.map_values(|s: String| s@).push(slot@));
                    }
                },
                QuerySpec::Const { .. } => {},
            }
            proof {
                let next = qs.take(i + 1);
                let prev = qs.take(i as int);
                assert forall|n: Seq<char>| #[trigger] query_slot_set(next).contains(n) == (query_slot_set(prev).contains(n) || (qs[i as int] matches QuerySpec::Slotted { slot, .. } && slot@ == n)) by {
                    if query_slot_set(next).contains(n) {
                        let k = choose|k: int| 0 <= k < next.len() && (#[trigger] next[k] matches QuerySpec::Slotted { slot, .. } && slot@ == n);
                        if k < i {
                            assert(prev[k] == next[k]);
                        }
                    }
                    if query_slot_set(prev).contains(n) {
                        let k = choose|k: int| 0 <= k < prev.len() && (#[trigger] prev[k] matches QuerySpec::Slotted { slot, .. } && slot@ == n);
                        assert(next[k] == prev[k]);
                    }
                    if qs[i as int] matches QuerySpec::Slotted { slot, .. } && slot@ == n {
                        assert(next[i as int] == qs[i as int]);
                    }
                }
                assert(text_set(out@) =~= query_slot_set(next));
            }
            i = i + 1;
        }
        assert(qs.take(qs.len() as int) =~= qs);
        out
    }
}

} // verus!
