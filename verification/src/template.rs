//! URL templates: `{slot}` placeholders between literal text, and percent-encoding of the
//! values substituted for them.

use vstd::prelude::*;
use vstd::string::StringSliceAdditionalSpecFns;
use crate::error::{ConfigError, ErrorView};
use crate::text::{chars_of, push_char};

verus! {

/// One piece of a parsed URL template.
#[derive(Debug)]
pub enum UrlTemplateChunk {
    /// Text copied into the URL as it stands.
    Literal(String),
    /// A `{name}` placeholder, holding the slot name.
    Slot(String),
}

/// The mathematical content of a [`UrlTemplateChunk`].
pub enum ChunkView {
    Literal(Seq<char>),
    Slot(Seq<char>),
}

impl View for UrlTemplateChunk {
    type V = ChunkView;

    open spec fn view(&self) -> ChunkView {
        match self {
            UrlTemplateChunk::Literal(s) => ChunkView::Literal(s@),
            UrlTemplateChunk::Slot(s) => ChunkView::Slot(s@),
        }
    }
}

impl Clone for UrlTemplateChunk {
    /// A copy of the same kind holding the same text.
    fn clone(&self) -> (r: Self)
        ensures
            r@ == self@,
    {
        match self {
            UrlTemplateChunk::Literal(s) => UrlTemplateChunk::Literal(s.clone()),
            UrlTemplateChunk::Slot(s) => UrlTemplateChunk::Slot(s.clone()),
        }
    }
}

/// The views of a list of chunks.
pub open spec fn chunk_views(cs: Seq<UrlTemplateChunk>) -> Seq<ChunkView> {
    cs.map_values(|c: UrlTemplateChunk| c@)
}

/// Why a template failed to parse.
pub enum TemplateFault {
    /// A `{` has no `}` after it.
    Unclosed,
    /// A `}` closes no `{`.
    UnmatchedClose,
    /// A slot name is not a valid slot name.
    BadSlot(Seq<char>),
}

/// A character allowed in slot names: ASCII letters and digits, `_` and `-`.
pub open spec fn is_slot_char(c: char) -> bool {
    ||| 'a' <= c && c <= 'z'
    ||| 'A' <= c && c <= 'Z'
    ||| '0' <= c && c <= '9'
    ||| c == '_'
    ||| c == '-'
}

/// A valid slot name: one or more slot characters.
pub open spec fn slot_name_ok(name: Seq<char>) -> bool {
    name.len() > 0 && forall|i: int| 0 <= i < name.len() ==> is_slot_char(#[trigger] name[i])
}

/// A brace character.
pub open spec fn is_brace(c: char) -> bool {
    c == '{' || c == '}'
}

/// Position of the first brace of `t`, or `t.len()` if there is none.
pub open spec fn brace_pos(t: Seq<char>) -> int
    decreases t.len(),
{
    if t.len() == 0 {
        0
    } else if is_brace(t[0]) {
        0
    } else {
        1 + brace_pos(t.drop_first())
    }
}

/// Position of the first `}` of `t`, or `t.len()` if there is none.
pub open spec fn close_pos(t: Seq<char>) -> int
    decreases t.len(),
{
    if t.len() == 0 {
        0
    } else if t[0] == '}' {
        0
    } else {
        1 + close_pos(t.drop_first())
    }
}

/// The first-brace position lies within the text.
pub proof fn lemma_brace_pos_bounds(t: Seq<char>)
    ensures
        0 <= brace_pos(t) <= t.len(),
        forall|k: int| 0 <= k < brace_pos(t) ==> !is_brace(#[trigger] t[k]),
        brace_pos(t) < t.len() ==> is_brace(t[brace_pos(t)]),
    decreases t.len(),
{
    if t.len() > 0 && !is_brace(t[0]) {
        lemma_brace_pos_bounds(t.drop_first());
        assert forall|k: int| 0 <= k < brace_pos(t) implies !is_brace(#[trigger] t[k]) by {
            if k > 0 {
                assert(t[k] == t.drop_first()[k - 1]);
            }
        }
    }
}

/// The first-`}` position lies within the text.
pub proof fn lemma_close_pos_bounds(t: Seq<char>)
    ensures
        0 <= close_pos(t) <= t.len(),
        forall|k: int| 0 <= k < close_pos(t) ==> #[trigger] t[k] != '}',
        close_pos(t) < t.len() ==> t[close_pos(t)] == '}',
    decreases t.len(),
{
    if t.len() > 0 && t[0] != '}' {
        lemma_close_pos_bounds(t.drop_first());
        assert forall|k: int| 0 <= k < close_pos(t) implies #[trigger] t[k] != '}' by {
            if k > 0 {
                assert(t[k] == t.drop_first()[k - 1]);
            }
        }
    }
}

/// The literal chunk for `text`, or no chunk for empty text.
pub open spec fn literal_prefix(text: Seq<char>) -> Seq<ChunkView> {
    if text.len() == 0 {
        Seq::empty()
    } else {
        seq![ChunkView::Literal(text)]
    }
}

/// The template grammar: literal text, and `{name}` slots with valid slot names; braces
/// appear nowhere else. Parsing goes from left to right and stops at the first fault.
pub open spec fn parse_template(t: Seq<char>) -> Result<Seq<ChunkView>, TemplateFault>
    decreases t.len(),
{
    let p = brace_pos(t);
    proof {
        lemma_brace_pos_bounds(t);
    }
    if t.len() == 0 {
        Ok(Seq::empty())
    } else if p >= t.len() {
        Ok(seq![ChunkView::Literal(t)])
    } else if t[p] == '}' {
        Err(TemplateFault::UnmatchedClose)
    } else {
        let after = t.subrange(p + 1, t.len() as int);
        let q = close_pos(after);
        proof {
            lemma_close_pos_bounds(after);
        }
        if q >= after.len() {
            Err(TemplateFault::Unclosed)
        } else {
            let name = after.subrange(0, q);
            if !slot_name_ok(name) {
                Err(TemplateFault::BadSlot(name))
            } else {
                match parse_template(after.subrange(q + 1, after.len() as int)) {
                    Err(f) => Err(f),
                    Ok(rest) => Ok(
                        literal_prefix(t.subrange(0, p)) + seq![ChunkView::Slot(name)] + rest,
                    ),
                }
            }
        }
    }
}

/// The text of one chunk: a literal as it stands, a slot as `{name}`.
pub open spec fn render_chunk(c: ChunkView) -> Seq<char> {
    match c {
        ChunkView::Literal(l) => l,
        ChunkView::Slot(n) => seq!['{'] + n + seq!['}'],
    }
}

/// The template text of a chunk list.
pub open spec fn render(cs: Seq<ChunkView>) -> Seq<char>
    decreases cs.len(),
{
    if cs.len() == 0 {
        Seq::empty()
    } else {
        render_chunk(cs[0]) + render(cs.drop_first())
    }
}

/// A chunk list that a template parses into: literals are non-empty and brace-free, slot
/// names are valid, and no literal directly follows another.
pub open spec fn chunks_well_formed(cs: Seq<ChunkView>) -> bool {
    &&& forall|i: int|
        0 <= i < cs.len() ==> match #[trigger] cs[i] {
            ChunkView::Literal(l) => l.len() > 0 && forall|k: int|
                0 <= k < l.len() ==> !is_brace(#[trigger] l[k]),
            ChunkView::Slot(n) => slot_name_ok(n),
        }
    &&& forall|i: int|
        0 <= i < cs.len() - 1 ==> !((#[trigger] cs[i]) is Literal && cs[i + 1] is Literal)
}

/// A byte that percent-encoding keeps as it is: ASCII letters and digits and `-._~`.
pub open spec fn is_unreserved(b: u8) -> bool {
    ||| 0x30 <= b <= 0x39
    ||| 0x41 <= b <= 0x5a
    ||| 0x61 <= b <= 0x7a
    ||| b == 0x2d || b == 0x2e || b == 0x5f || b == 0x7e
}

/// Uppercase hexadecimal digit for a value below sixteen.
pub open spec fn hex_digit(n: u8) -> char {
    if n < 10 {
        (48 + n) as char
    } else {
        (55 + n) as char
    }
}

/// The encoding of one byte: itself when unreserved, else `%` and two uppercase hex digits.
pub open spec fn encode_byte(b: u8) -> Seq<char> {
    if is_unreserved(b) {
        seq![b as char]
    } else {
        seq!['%', hex_digit(b / 16), hex_digit(b % 16)]
    }
}

/// Percent-encoding of a byte string, byte by byte.
pub open spec fn percent_encode(bytes: Seq<u8>) -> Seq<char>
    decreases bytes.len(),
{
    if bytes.len() == 0 {
        Seq::empty()
    } else {
        percent_encode(bytes.drop_last()) + encode_byte(bytes.last())
    }
}

/// A character that may appear in a percent-encoded component.
pub open spec fn is_encoded_char(c: char) -> bool {
    ||| 'a' <= c && c <= 'z'
    ||| 'A' <= c && c <= 'Z'
    ||| '0' <= c && c <= '9'
    ||| c == '-' || c == '.' || c == '_' || c == '~' || c == '%'
}

fn hex_digit_exec(n: u8) -> (c: char)
    requires
        n < 16,
    ensures
        c == hex_digit(n),
{
    if n < 10 {
        (48 + n) as char
    } else {
        (55 + n) as char
    }
}

fn is_unreserved_exec(b: u8) -> (r: bool)
    ensures
        r == is_unreserved(b),
{
    (0x30 <= b && b <= 0x39) || (0x41 <= b && b <= 0x5a) || (0x61 <= b && b <= 0x7a) || b == 0x2d
        || b == 0x2e || b == 0x5f || b == 0x7e
}

/// Percent-encodes `value` for use as one URL path component: every UTF-8 byte other than
/// ASCII letters, digits and `-._~` becomes `%XX`.
pub fn percent_encode_component(value: &str) -> (r: String)
    ensures
        r@ == percent_encode(value.spec_bytes()),
{
    let bytes = value.as_bytes();
    let mut out = String::new();
    let mut i: usize = 0;
    while i < bytes.len()
        invariant
            i <= bytes@.len(),
            bytes@ == value.spec_bytes(),
            out@ == percent_encode(bytes@.take(i as int)),
        decreases bytes@.len() - i,
    {
        let b = bytes[i];
        if is_unreserved_exec(b) {
            push_char(&mut out, b as char);
        } else {
            push_char(&mut out, '%');
            let hi = hex_digit_exec(b / 16);
            push_char(&mut out, hi);
            let lo = hex_digit_exec(b % 16);
            push_char(&mut out, lo);
        }
        proof {
            assert(bytes@.take(i + 1).drop_last() =~= bytes@.take(i as int));
        }
        assert(out@ =~= percent_encode(bytes@.take(i + 1)));
        i = i + 1;
    }
    assert(bytes@.take(bytes@.len() as int) =~= bytes@);
    out
}

/// Rendering distributes over concatenation of chunk lists.
pub proof fn lemma_render_concat(a: Seq<ChunkView>, b: Seq<ChunkView>)
    ensures
        render(a + b) == render(a) + render(b),
    decreases a.len(),
{
    if a.len() == 0 {
        assert(a + b =~= b);
        assert(render(a) + render(b) =~= render(b));
    } else {
        assert((a + b).drop_first() =~= a.drop_first() + b);
        lemma_render_concat(a.drop_first(), b);
        assert(render(a + b) =~= render(a) + render(b));
    }
}

/// A one-chunk list renders as that chunk.
pub proof fn lemma_render_one(c: ChunkView)
    ensures
        render(seq![c]) == render_chunk(c),
{
    let cs = seq![c];
    assert(cs.drop_first() =~= Seq::<ChunkView>::empty());
    assert(render(cs) =~= render_chunk(c) + render(cs.drop_first()));
    assert(render(cs) =~= render_chunk(c));
}

/// A brace-free literal prefix, a valid slot and a well-formed rest form a well-formed list.
proof fn lemma_well_formed_join(text: Seq<char>, name: Seq<char>, rest: Seq<ChunkView>)
    requires
        forall|k: int| 0 <= k < text.len() ==> !is_brace(#[trigger] text[k]),
        slot_name_ok(name),
        chunks_well_formed(rest),
    ensures
        chunks_well_formed(literal_prefix(text) + seq![ChunkView::Slot(name)] + rest),
{
    let pre = literal_prefix(text);
    let slot = seq![ChunkView::Slot(name)];
    let cs = pre + slot + rest;
    assert forall|i: int| 0 <= i < cs.len() implies match #[trigger] cs[i] {
        ChunkView::Literal(l) => l.len() > 0 && forall|k: int|
            0 <= k < l.len() ==> !is_brace(#[trigger] l[k]),
        ChunkView::Slot(n) => slot_name_ok(n),
    } by {
        if i < pre.len() {
            assert(cs[i] == ChunkView::Literal(text));
        } else if i == pre.len() {
            assert(cs[i] == ChunkView::Slot(name));
        } else {
            assert(cs[i] == rest[i - pre.len() - 1]);
        }
    }
    assert forall|i: int| 0 <= i < cs.len() - 1 implies !((#[trigger] cs[i]) is Literal
        && cs[i + 1] is Literal) by {
        if i < pre.len() {
            assert(cs[i + 1] == ChunkView::Slot(name));
        } else if i == pre.len() {
            assert(cs[i] == ChunkView::Slot(name));
        } else {
            assert(cs[i] == rest[i - pre.len() - 1]);
            assert(cs[i + 1] == rest[i - pre.len()]);
        }
    }
}

/// A parsed template renders back to its text, and its chunks are well formed.
pub proof fn lemma_parse_then_render(t: Seq<char>)
    requires
        parse_template(t) is Ok,
    ensures
        render(parse_template(t)->Ok_0) == t,
        chunks_well_formed(parse_template(t)->Ok_0),
    decreases t.len(),
{
    lemma_brace_pos_bounds(t);
    let p = brace_pos(t);
    if t.len() == 0 {
    } else if p >= t.len() {
        lemma_render_one(ChunkView::Literal(t));
        let cs = seq![ChunkView::Literal(t)];
        assert(cs[0] == ChunkView::Literal(t));
    } else {
        let after = t.subrange(p + 1, t.len() as int);
        lemma_close_pos_bounds(after);
        let q = close_pos(after);
        let name = after.subrange(0, q);
        let rest_text = after.subrange(q + 1, after.len() as int);
        lemma_parse_then_render(rest_text);
        let rest = parse_template(rest_text)->Ok_0;
        let lit = t.subrange(0, p);
        let pre = literal_prefix(lit);
        let slot = seq![ChunkView::Slot(name)];
        assert(parse_template(t)->Ok_0 == pre + slot + rest);
        lemma_render_concat(pre + slot, rest);
        lemma_render_concat(pre, slot);
        lemma_render_one(ChunkView::Slot(name));
        if p > 0 {
            lemma_render_one(ChunkView::Literal(lit));
        } else {
            assert(pre =~= Seq::<ChunkView>::empty());
        }
        assert(render(pre) =~= lit);
        assert(t =~= lit + (seq!['{'] + name + seq!['}']) + rest_text);
        assert forall|k: int| 0 <= k < lit.len() implies !is_brace(#[trigger] lit[k]) by {
            assert(lit[k] == t[k]);
        }
        lemma_well_formed_join(lit, name, rest);
    }
}

/// A well-formed chunk list is what its rendering parses into.
pub proof fn lemma_render_then_parse(cs: Seq<ChunkView>)
    requires
        chunks_well_formed(cs),
    ensures
        parse_template(render(cs)) == Ok::<Seq<ChunkView>, TemplateFault>(cs),
    decreases cs.len(),
{
    let t = render(cs);
    if cs.len() == 0 {
        assert(t.len() == 0);
        assert(cs =~= Seq::<ChunkView>::empty());
    } else {
        let (pre_len, lit): (int, Seq<char>) = match cs[0] {
            ChunkView::Literal(l) => (1, l),
            ChunkView::Slot(_) => (0, Seq::empty()),
        };
        let lit_chunks = cs.take(pre_len);
        assert(lit_chunks =~= literal_prefix(lit));
        if pre_len == 1 {
            let l = lit;
            assert forall|k: int| 0 <= k < l.len() implies !is_brace(#[trigger] l[k]) by {
                assert(match cs[0] {
                    ChunkView::Literal(l) => l.len() > 0 && forall|k: int|
                        0 <= k < l.len() ==> !is_brace(#[trigger] l[k]),
                    ChunkView::Slot(n) => slot_name_ok(n),
                });
            }
            assert(match cs[0] {
                ChunkView::Literal(l) => l.len() > 0,
                ChunkView::Slot(n) => true,
            });
        }
        lemma_render_concat(lit_chunks, cs.skip(pre_len));
        assert(lit_chunks + cs.skip(pre_len) =~= cs);
        if pre_len == 1 {
            assert(lit_chunks.drop_first() =~= Seq::<ChunkView>::empty());
        }
        assert(render(lit_chunks) =~= lit);
        if pre_len == 1 && cs.len() == 1 {
            assert(cs.skip(1) =~= Seq::<ChunkView>::empty());
            assert(t =~= lit);
            lemma_brace_pos_is(t, t.len() as int);
            assert(cs =~= seq![ChunkView::Literal(t)]);
        } else {
            if pre_len == 1 {
                assert(!(cs[0] is Literal && cs[1] is Literal));
            }
            let n = cs[pre_len]->Slot_0;
            assert(slot_name_ok(n)) by {
                assert(match cs[pre_len] {
                    ChunkView::Literal(l) => true,
                    ChunkView::Slot(n) => slot_name_ok(n),
                });
            }
            let tail = cs.skip(pre_len + 1);
            assert(cs.skip(pre_len) =~= seq![cs[pre_len]] + tail);
            lemma_render_concat(seq![cs[pre_len]], tail);
            assert(seq![cs[pre_len]].drop_first() =~= Seq::<ChunkView>::empty());
            let tail_text = render(tail);
            assert(t =~= lit + (seq!['{'] + n + seq!['}']) + tail_text);
            assert forall|m: int| 0 <= m < lit.len() implies !is_brace(#[trigger] t[m]) by {
                assert(t[m] == lit[m]);
            }
            assert(t[lit.len() as int] == '{');
            lemma_brace_pos_is(t, lit.len() as int);
            let p = lit.len() as int;
            let after = t.subrange(p + 1, t.len() as int);
            assert(after =~= n + seq!['}'] + tail_text);
            assert forall|m: int| 0 <= m < n.len() implies #[trigger] after[m] != '}' by {
                assert(after[m] == n[m]);
                assert(is_slot_char(n[m]));
            }
            lemma_close_pos_is(after, n.len() as int);
            assert(after.subrange(0, n.len() as int) =~= n);
            assert(after.subrange(n.len() as int + 1, after.len() as int) =~= tail_text);
            assert(t.subrange(0, p) =~= lit);
            assert(chunks_well_formed(tail)) by {
                assert forall|i: int| 0 <= i < tail.len() implies match #[trigger] tail[i] {
                    ChunkView::Literal(l) => l.len() > 0 && forall|k: int|
                        0 <= k < l.len() ==> !is_brace(#[trigger] l[k]),
                    ChunkView::Slot(n) => slot_name_ok(n),
                } by {
                    assert(tail[i] == cs[i + pre_len + 1]);
                }
                assert forall|i: int| 0 <= i < tail.len() - 1 implies !((#[trigger] tail[i]) is Literal
                    && tail[i + 1] is Literal) by {
                    assert(tail[i] == cs[i + pre_len + 1]);
                    assert(tail[i + 1] == cs[i + pre_len + 2]);
                }
            }
            lemma_render_then_parse(tail);
            assert(literal_prefix(lit) + seq![ChunkView::Slot(n)] + tail =~= cs);
        }
    }
}

/// Every character of a percent-encoded component is an ASCII letter or digit, one of
/// `-._~`, or `%`: no `/`, `?`, `#` or other delimiter can come from a substituted value.
pub proof fn lemma_percent_encode_chars(bytes: Seq<u8>)
    ensures
        forall|i: int|
            0 <= i < percent_encode(bytes).len() ==> is_encoded_char(
                #[trigger] percent_encode(bytes)[i],
            ),
    decreases bytes.len(),
{
    if bytes.len() > 0 {
        lemma_percent_encode_chars(bytes.drop_last());
        let prev = percent_encode(bytes.drop_last());
        let b = bytes.last();
        let e = encode_byte(b);
        assert(percent_encode(bytes) == prev + e);
        assert forall|i: int| 0 <= i < e.len() implies is_encoded_char(#[trigger] e[i]) by {
            if is_unreserved(b) {
                assert(e[i] == b as char);
            } else {
                let hi = b / 16;
                let lo = b % 16;
                assert(hi < 16 && lo < 16);
            }
        }
        assert forall|i: int| 0 <= i < percent_encode(bytes).len() implies is_encoded_char(
            #[trigger] percent_encode(bytes)[i],
        ) by {
            if i < prev.len() {
                assert(percent_encode(bytes)[i] == prev[i]);
            } else {
                assert(percent_encode(bytes)[i] == e[i - prev.len()]);
            }
        }
    }
}

/// The value of an uppercase hexadecimal digit character.
pub open spec fn hex_value(c: char) -> int {
    if '0' <= c && c <= '9' {
        (c as u32) - 48
    } else {
        (c as u32) - 55
    }
}

/// Percent-decoding, read from the end: a `%` two characters before the end starts an
/// escape; any other character stands for its own byte.
pub open spec fn percent_decode(t: Seq<char>) -> Seq<u8>
    decreases t.len(),
{
    if t.len() == 0 {
        Seq::empty()
    } else if t.len() >= 3 && t[t.len() - 3] == '%' {
        percent_decode(t.subrange(0, t.len() - 3)).push(
            (hex_value(t[t.len() - 2]) * 16 + hex_value(t[t.len() - 1])) as u8,
        )
    } else {
        percent_decode(t.drop_last()).push(t.last() as u8)
    }
}

pub proof fn lemma_hex_digit_value(n: u8)
    requires
        n < 16,
    ensures
        hex_value(hex_digit(n)) == n,
        hex_digit(n) != '%',
{
}

/// The last two characters of an encoding are never `%`.
proof fn lemma_percent_encode_tail(bytes: Seq<u8>)
    ensures
        percent_encode(bytes).len() >= 1 ==> percent_encode(bytes).last() != '%',
        percent_encode(bytes).len() >= 2 ==> percent_encode(bytes)[percent_encode(bytes).len()
            - 2] != '%',
    decreases bytes.len(),
{
    if bytes.len() > 0 {
        let prev = percent_encode(bytes.drop_last());
        let b = bytes.last();
        lemma_percent_encode_tail(bytes.drop_last());
        let t = percent_encode(bytes);
        assert(t == prev + encode_byte(b));
        if is_unreserved(b) {
            assert(t.last() == b as char);
            if t.len() >= 2 {
                assert(t[t.len() - 2] == prev.last());
            }
        } else {
            lemma_hex_digit_value(b / 16);
            lemma_hex_digit_value(b % 16);
            assert(t.last() == hex_digit(b % 16));
            assert(t[t.len() - 2] == hex_digit(b / 16));
        }
    }
}

/// Decoding an encoding gives the bytes back: percent-encoding loses nothing, so distinct
/// values substitute as distinct texts.
pub proof fn law_percent_decode_roundtrip(bytes: Seq<u8>)
    ensures
        percent_decode(percent_encode(bytes)) == bytes,
    decreases bytes.len(),
{
    if bytes.len() > 0 {
        let init = bytes.drop_last();
        let b = bytes.last();
        let prev = percent_encode(init);
        let t = percent_encode(bytes);
        law_percent_decode_roundtrip(init);
        lemma_percent_encode_tail(init);
        assert(t == prev + encode_byte(b));
        if is_unreserved(b) {
            if t.len() >= 3 {
                assert(t[t.len() - 3] == prev[prev.len() - 2]);
            }
            assert(t.drop_last() =~= prev);
            assert((b as char) as u8 == b);
            assert(bytes =~= init.push(b));
        } else {
            lemma_hex_digit_value(b / 16);
            lemma_hex_digit_value(b % 16);
            assert(t[t.len() - 3] == '%');
            assert(t.subrange(0, t.len() - 3) =~= prev);
            assert(hex_value(t[t.len() - 2]) * 16 + hex_value(t[t.len() - 1]) == b);
            assert(bytes =~= init.push(b));
        }
    }
}

/// Percent-encoding is injective.
pub proof fn law_percent_encode_injective(a: Seq<u8>, b: Seq<u8>)
    requires
        percent_encode(a) == percent_encode(b),
    ensures
        a == b,
{
    law_percent_decode_roundtrip(a);
    law_percent_decode_roundtrip(b);
}

/// The error reported for a template fault.
pub open spec fn template_error(f: TemplateFault, template: Seq<char>) -> ErrorView {
    match f {
        TemplateFault::Unclosed => ErrorView::UnclosedTemplateSlot { template },
        TemplateFault::UnmatchedClose => ErrorView::UnmatchedTemplateBrace { template },
        TemplateFault::BadSlot(n) => ErrorView::InvalidSlotName { slot: n },
    }
}

proof fn lemma_brace_pos_is(s: Seq<char>, k: int)
    requires
        0 <= k <= s.len(),
        forall|m: int| 0 <= m < k ==> !is_brace(#[trigger] s[m]),
        k == s.len() || is_brace(s[k]),
    ensures
        brace_pos(s) == k,
{
    lemma_brace_pos_bounds(s);
}

proof fn lemma_close_pos_is(s: Seq<char>, k: int)
    requires
        0 <= k <= s.len(),
        forall|m: int| 0 <= m < k ==> #[trigger] s[m] != '}',
        k == s.len() || s[k] == '}',
    ensures
        close_pos(s) == k,
{
    lemma_close_pos_bounds(s);
}

/// The text of `t` from `from` up to `to`.
fn text_between(t: &Vec<char>, from: usize, to: usize) -> (r: String)
    requires
        from <= to <= t@.len(),
    ensures
        r@ == t@.subrange(from as int, to as int),
{
    let mut out = String::new();
    let mut i = from;
    while i < to
        invariant
            from <= i <= to,
            to <= t@.len(),
            out@ == t@.subrange(from as int, i as int),
        decreases to - i,
    {
        push_char(&mut out, t[i]);
        assert(out@ =~= t@.subrange(from as int, i + 1));
        i = i + 1;
    }
    out
}

/// Whether `c` may appear in a slot name.
fn is_slot_char_exec(c: char) -> (r: bool)
    ensures
        r == is_slot_char(c),
{
    ('a' <= c && c <= 'z') || ('A' <= c && c <= 'Z') || ('0' <= c && c <= '9') || c == '_' || c
        == '-'
}

/// Whether `t[from..to]` is a valid slot name.
fn slot_name_between_ok(t: &Vec<char>, from: usize, to: usize) -> (r: bool)
    requires
        from <= to <= t@.len(),
    ensures
        r == slot_name_ok(t@.subrange(from as int, to as int)),
{
    if from == to {
        return false;
    }
    let mut i = from;
    while i < to
        invariant
            from <= i <= to,
            to <= t@.len(),
            forall|k: int| from <= k < i ==> is_slot_char(#[trigger] t@[k]),
        decreases to - i,
    {
        if !is_slot_char_exec(t[i]) {
            assert(!is_slot_char(t@.subrange(from as int, to as int)[i - from]));
            return false;
        }
        i = i + 1;
    }
    assert forall|k: int| 0 <= k < to - from implies is_slot_char(
        #[trigger] t@.subrange(from as int, to as int)[k],
    ) by {
        assert(t@.subrange(from as int, to as int)[k] == t@[from + k]);
    }
    true
}

fn parse_template_from(t: &Vec<char>, start: usize, template: &str) -> (r: Result<
    Vec<UrlTemplateChunk>,
    ConfigError,
>)
    requires
        start <= t@.len(),
        t@ == template@,
    ensures
        match (r, parse_template(t@.subrange(start as int, t@.len() as int))) {
            (Ok(cs), Ok(v)) => chunk_views(cs@) == v,
            (Err(e), Err(f)) => e@ == template_error(f, template@),
            _ => false,
        },
    decreases t@.len() - start,
{
    let ghost s = t@.subrange(start as int, t@.len() as int);
    let n = t.len();
    if start == n {
        let out: Vec<UrlTemplateChunk> = Vec::new();
        assert(chunk_views(out@) =~= Seq::<ChunkView>::empty());
        return Ok(out);
    }
    let mut p = start;
    while p < n && !(t[p] == '{' || t[p] == '}')
        invariant
            start <= p <= n,
            n == t@.len(),
            forall|m: int| start <= m < p ==> !is_brace(#[trigger] t@[m]),
        decreases n - p,
    {
        p = p + 1;
    }
    proof {
        assert forall|m: int| 0 <= m < p - start implies !is_brace(#[trigger] s[m]) by {
            assert(s[m] == t@[start + m]);
        }
        if p < n {
            assert(s[p - start] == t@[p as int]);
        }
        lemma_brace_pos_is(s, p - start);
    }
    if p == n {
        let mut out: Vec<UrlTemplateChunk> = Vec::new();
        out.push(UrlTemplateChunk::Literal(text_between(t, start, n)));
        assert(chunk_views(out@) =~= seq![ChunkView::Literal(s)]);
        return Ok(out);
    }
    if t[p] == '}' {
        return Err(ConfigError::UnmatchedTemplateBrace { template: String::from_str(template) });
    }
    let ghost after = s.subrange(p - start + 1, s.len() as int);
    assert(after =~= t@.subrange(p + 1, n as int));
    let mut q = p + 1;
    while q < n && t[q] != '}'
        invariant
            p + 1 <= q <= n,
            n == t@.len(),
            forall|m: int| p + 1 <= m < q ==> #[trigger] t@[m] != '}',
        decreases n - q,
    {
        q = q + 1;
    }
    proof {
        assert forall|m: int| 0 <= m < q - (p + 1) implies #[trigger] after[m] != '}' by {
            assert(after[m] == t@[p + 1 + m]);
        }
        if q < n {
            assert(after[q - (p + 1)] == t@[q as int]);
        }
        lemma_close_pos_is(after, q - (p + 1));
    }
    if q == n {
        return Err(ConfigError::UnclosedTemplateSlot { template: String::from_str(template) });
    }
    assert(after.subrange(0, q - (p + 1)) =~= t@.subrange(p + 1, q as int));
    if !slot_name_between_ok(t, p + 1, q) {
        return Err(ConfigError::InvalidSlotName { slot: text_between(t, p + 1, q) });
    }
    let name = text_between(t, p + 1, q);
    assert(after.subrange(q - (p + 1) + 1, after.len() as int) =~= t@.subrange(q + 1, n as int));
    let rest = parse_template_from(t, q + 1, template);
    match rest {
        Err(e) => Err(e),
        Ok(mut rest) => {
            let mut out: Vec<UrlTemplateChunk> = Vec::new();
            if p > start {
                out.push(UrlTemplateChunk::Literal(text_between(t, start, p)));
            }
            proof {
                assert(s.subrange(0, p - start) =~= t@.subrange(start as int, p as int));
            }
            out.push(UrlTemplateChunk::Slot(name));
            let ghost before = out@;
            let ghost tail = rest@;
            out.append(&mut rest);
            assert(chunk_views(before) =~= literal_prefix(s.subrange(0, p - start)) + seq![
                ChunkView::Slot(t@.subrange(p + 1, q as int)),
            ]);
            assert(chunk_views(out@) =~= chunk_views(before) + chunk_views(tail));
            Ok(out)
        },
    }
}

/// Parses a URL template into literal and slot chunks.
pub fn parse_url_template(template: &str) -> (r: Result<Vec<UrlTemplateChunk>, ConfigError>)
    ensures
        match (r, parse_template(template@)) {
            (Ok(cs), Ok(v)) => chunk_views(cs@) == v,
            (Err(e), Err(f)) => e@ == template_error(f, template@),
            _ => false,
        },
{
    let t = chars_of(template);
    assert(t@.subrange(0, t@.len() as int) =~= t@);
    parse_template_from(&t, 0, template)
}

} // verus!
