//! Absolute-URL parsing and query serialization, done by the `url` crate.

use vstd::prelude::*;
use url::Url;
use crate::template::{hex_digit, hex_value, lemma_hex_digit_value};
use crate::text::decimal;

verus! {

/// What `url::Url::parse` makes of `input`: when it fails, the text that its `ParseError`
/// displays; otherwise the parsed URL's serialization and whether it has a fragment and a
/// query.
pub uninterp spec fn url_parse_outcome(input: Seq<char>) -> Result<(Seq<char>, bool, bool), Seq<char>>;

/// The serialization of `url::Url::parse(input)` after `append_pair` of each pair, in order,
/// on its `query_pairs_mut()` serializer.
pub uninterp spec fn url_with_query_pairs(
    input: Seq<char>,
    pairs: Seq<(Seq<char>, Seq<char>)>,
) -> Seq<char>;

/// The views of a list of string pairs.
pub open spec fn pair_views(pairs: Seq<(String, String)>) -> Seq<(Seq<char>, Seq<char>)> {
    pairs.map_values(|p: (String, String)| (p.0@, p.1@))
}

/// A parsed absolute URL, as plain values.
pub struct ParsedUrl {
    /// The URL's serialization.
    pub href: String,
    /// Whether the URL has a fragment.
    pub has_fragment: bool,
    /// Whether the URL has a query.
    pub has_query: bool,
}

/// A byte that `form_urlencoded::byte_serialize` keeps as it is: ASCII letters and digits
/// and `*-._`.
pub open spec fn form_unchanged(b: u8) -> bool {
    ||| 0x30 <= b <= 0x39
    ||| 0x41 <= b <= 0x5a
    ||| 0x61 <= b <= 0x7a
    ||| b == 0x2a || b == 0x2d || b == 0x2e || b == 0x5f
}

/// The form encoding of one byte: itself when kept, `+` for a space, else `%` and two
/// uppercase hex digits.
pub open spec fn form_encode_byte(b: u8) -> Seq<char> {
    if form_unchanged(b) {
        seq![b as char]
    } else if b == 0x20 {
        seq!['+']
    } else {
        seq!['%', hex_digit(b / 16), hex_digit(b % 16)]
    }
}

/// The form encoding of a byte string (`form_urlencoded::byte_serialize`), byte by byte.
pub open spec fn form_encode(bytes: Seq<u8>) -> Seq<char>
    decreases bytes.len(),
{
    if bytes.len() == 0 {
        Seq::empty()
    } else {
        form_encode(bytes.drop_last()) + form_encode_byte(bytes.last())
    }
}

/// One pair as `append_pair` writes it: the encoded UTF-8 name, `=`, the encoded UTF-8 value.
pub open spec fn form_pair(p: (Seq<char>, Seq<char>)) -> Seq<char> {
    form_encode(vstd::utf8::encode_utf8(p.0)) + "="@ + form_encode(vstd::utf8::encode_utf8(p.1))
}

/// Pairs as successive `append_pair` calls write them into an empty query: each pair in
/// order, joined by `&`.
pub open spec fn form_query(ps: Seq<(Seq<char>, Seq<char>)>) -> Seq<char>
    decreases ps.len(),
{
    if ps.len() == 0 {
        Seq::empty()
    } else if ps.len() == 1 {
        form_pair(ps[0])
    } else {
        form_query(ps.drop_last()) + "&"@ + form_pair(ps.last())
    }
}

/// A host of one or more labels of lowercase ASCII letters, separated by single dots.
pub open spec fn plain_host(h: Seq<char>) -> bool {
    &&& h.len() > 0
    &&& forall|i: int| 0 <= i < h.len() ==> ('a' <= #[trigger] h[i] && h[i] <= 'z') || h[i] == '.'
    &&& h[0] != '.'
    &&& h.last() != '.'
    &&& forall|i: int| 0 <= i < h.len() - 1 ==> !(#[trigger] h[i] == '.' && h[i + 1] == '.')
}

/// A character a plain path may hold: an ASCII letter or digit, `-._~`, or `/`.
pub open spec fn is_plain_path_char(c: char) -> bool {
    ||| 'a' <= c && c <= 'z'
    ||| 'A' <= c && c <= 'Z'
    ||| '0' <= c && c <= '9'
    ||| c == '-' || c == '.' || c == '_' || c == '~' || c == '/'
}

/// A path that starts with `/`, holds only plain path characters, and has no `.` or `..`
/// segment.
pub open spec fn plain_path(p: Seq<char>) -> bool {
    &&& p.len() > 0
    &&& p[0] == '/'
    &&& forall|i: int| 0 <= i < p.len() ==> is_plain_path_char(#[trigger] p[i])
    &&& forall|i: int|
        0 <= i < p.len() && #[trigger] p[i] == '/' ==> {
            &&& !(i + 1 < p.len() && p[i + 1] == '.' && (i + 2 == p.len() || p[i + 2] == '/'))
            &&& !(i + 2 < p.len() && p[i + 1] == '.' && p[i + 2] == '.' && (i + 3 == p.len() || p[i
                + 3] == '/'))
        }
}

/// The port part of a plain URL: nothing, or `:` and a port other than the scheme's default.
pub open spec fn port_text(https: bool, port: Option<u16>) -> Seq<char> {
    match port {
        None => Seq::empty(),
        Some(n) => ":"@ + decimal(n as nat),
    }
}

/// The port is absent, or a non-zero port other than the scheme's default (443 or 80).
pub open spec fn port_ok(https: bool, port: Option<u16>) -> bool {
    match port {
        None => true,
        Some(n) => n > 0 && n != (if https { 443u16 } else { 80u16 }),
    }
}

/// `u` is an `http` or `https` URL already written the way the `url` crate serializes it: a
/// plain host, an optional non-default port, a plain path, no user, query or fragment.
pub open spec fn is_plain_web_url(u: Seq<char>) -> bool {
    exists|https: bool, host: Seq<char>, port: Option<u16>, path: Seq<char>|
        #![trigger plain_host(host), plain_path(path), port_ok(https, port)]
        {
            &&& plain_host(host)
            &&& plain_path(path)
            &&& port_ok(https, port)
            &&& u == (if https { "https"@ } else { "http"@ }) + "://"@ + host + port_text(https, port)
                + path
        }
}

/// The number of times `c` occurs in `s`.
pub open spec fn count_char(s: Seq<char>, c: char) -> nat
    decreases s.len(),
{
    if s.len() == 0 {
        0
    } else {
        count_char(s.drop_last(), c) + if s.last() == c {
            1nat
        } else {
            0nat
        }
    }
}

proof fn lemma_count_concat(a: Seq<char>, b: Seq<char>, c: char)
    ensures
        count_char(a + b, c) == count_char(a, c) + count_char(b, c),
    decreases b.len(),
{
    if b.len() == 0 {
        assert(a + b =~= a);
    } else {
        lemma_count_concat(a, b.drop_last(), c);
        assert((a + b).drop_last() =~= a + b.drop_last());
    }
}

proof fn lemma_count_absent(s: Seq<char>, c: char)
    requires
        forall|i: int| 0 <= i < s.len() ==> s[i] != c,
    ensures
        count_char(s, c) == 0,
    decreases s.len(),
{
    if s.len() > 0 {
        lemma_count_absent(s.drop_last(), c);
    }
}

/// A form-encoded component holds only ASCII letters and digits, `*-._`, `+` and `%`: no
/// `&`, `=`, `#` or `?`, so it can neither split a pair nor end the query.
pub proof fn law_form_encode_chars(bytes: Seq<u8>)
    ensures
        forall|i: int|
            0 <= i < form_encode(bytes).len() ==> {
                let c = #[trigger] form_encode(bytes)[i];
                ||| 'a' <= c && c <= 'z'
                ||| 'A' <= c && c <= 'Z'
                ||| '0' <= c && c <= '9'
                ||| c == '*' || c == '-' || c == '.' || c == '_' || c == '+' || c == '%'
            },
    decreases bytes.len(),
{
    if bytes.len() > 0 {
        law_form_encode_chars(bytes.drop_last());
        let prev = form_encode(bytes.drop_last());
        let b = bytes.last();
        let e = form_encode_byte(b);
        let t = form_encode(bytes);
        assert(t == prev + e);
        assert forall|i: int| 0 <= i < t.len() implies {
            let c = #[trigger] t[i];
            ||| 'a' <= c && c <= 'z'
            ||| 'A' <= c && c <= 'Z'
            ||| '0' <= c && c <= '9'
            ||| c == '*' || c == '-' || c == '.' || c == '_' || c == '+' || c == '%'
        } by {
            if i >= prev.len() {
                assert(t[i] == e[i - prev.len()]);
                if !form_unchanged(b) && b != 0x20 {
                    assert(b / 16 < 16 && b % 16 < 16);
                }
            } else {
                assert(t[i] == prev[i]);
            }
        }
    }
}

/// Form decoding (as `form_urlencoded::parse` reads one component), read from the end: a `%`
/// two characters before the end starts an escape, `+` stands for a space, any other
/// character for its own byte.
pub open spec fn form_decode(t: Seq<char>) -> Seq<u8>
    decreases t.len(),
{
    if t.len() == 0 {
        Seq::empty()
    } else if t.len() >= 3 && t[t.len() - 3] == '%' {
        form_decode(t.subrange(0, t.len() - 3)).push(
            (hex_value(t[t.len() - 2]) * 16 + hex_value(t[t.len() - 1])) as u8,
        )
    } else if t.last() == '+' {
        form_decode(t.drop_last()).push(0x20u8)
    } else {
        form_decode(t.drop_last()).push(t.last() as u8)
    }
}

proof fn lemma_form_encode_tail(bytes: Seq<u8>)
    ensures
        form_encode(bytes).len() >= 1 ==> form_encode(bytes).last() != '%',
        form_encode(bytes).len() >= 2 ==> form_encode(bytes)[form_encode(bytes).len() - 2] != '%',
    decreases bytes.len(),
{
    if bytes.len() > 0 {
        let prev = form_encode(bytes.drop_last());
        let b = bytes.last();
        lemma_form_encode_tail(bytes.drop_last());
        let t = form_encode(bytes);
        assert(t == prev + form_encode_byte(b));
        if form_unchanged(b) || b == 0x20 {
            if t.len() >= 2 {
                assert(t[t.len() - 2] == prev.last());
            }
        } else {
            lemma_hex_digit_value(b / 16);
            lemma_hex_digit_value(b % 16);
            assert(t.last() == hex_digit(b % 16));
            assert(t[t.len() - 2] == hex_digit(b / 16));
        }
    }
}

/// Decoding a form-encoded component gives its bytes back: the encoding loses nothing.
pub proof fn law_form_decode_roundtrip(bytes: Seq<u8>)
    ensures
        form_decode(form_encode(bytes)) == bytes,
    decreases bytes.len(),
{
    if bytes.len() > 0 {
        let init = bytes.drop_last();
        let b = bytes.last();
        let prev = form_encode(init);
        let t = form_encode(bytes);
        law_form_decode_roundtrip(init);
        lemma_form_encode_tail(init);
        assert(t == prev + form_encode_byte(b));
        if form_unchanged(b) || b == 0x20 {
            if t.len() >= 3 {
                assert(t[t.len() - 3] == prev[prev.len() - 2]);
            }
            assert(t.drop_last() =~= prev);
            assert((b as char) as u8 == b);
            assert(bytes =~= init.push(b));
        } else {
            lemma_hex_digit_value(b / 16);
            lemma_hex_digit_value(b % 16);
            assert(t[t.len() - 3] == '%');
            assert(t.subrange(0, t.len() - 3) =~= prev);
            assert(hex_value(t[t.len() - 2]) * 16 + hex_value(t[t.len() - 1]) == b);
            assert(bytes =~= init.push(b));
        }
    }
}

/// A query written from `ps` holds one `name=value` piece per pair, repeated names included:
/// exactly `ps.len()` `=` signs and `ps.len() - 1` `&` separators, and no `#` or `?`.
pub proof fn law_form_query_one_piece_per_pair(ps: Seq<(Seq<char>, Seq<char>)>)
    requires
        ps.len() > 0,
    ensures
        count_char(form_query(ps), '=') == ps.len(),
        count_char(form_query(ps), '&') == ps.len() - 1,
        count_char(form_query(ps), '#') == 0,
        count_char(form_query(ps), '?') == 0,
    decreases ps.len(),
{
    let p = ps.last();
    let k = form_encode(vstd::utf8::encode_utf8(p.0));
    let v = form_encode(vstd::utf8::encode_utf8(p.1));
    law_form_encode_chars(vstd::utf8::encode_utf8(p.0));
    law_form_encode_chars(vstd::utf8::encode_utf8(p.1));
    assert forall|c: char| c == '=' || c == '&' || c == '#' || c == '?' implies count_char(k, c) == 0
        && count_char(v, c) == 0 by {
        assert forall|i: int| 0 <= i < k.len() implies k[i] != c by {
            assert(k[i] == form_encode(vstd::utf8::encode_utf8(p.0))[i]);
        }
        assert forall|i: int| 0 <= i < v.len() implies v[i] != c by {
            assert(v[i] == form_encode(vstd::utf8::encode_utf8(p.1))[i]);
        }
        lemma_count_absent(k, c);
        lemma_count_absent(v, c);
    }
    reveal_with_fuel(count_char, 2);
    let eq = "="@;
    let amp = "&"@;
    reveal_strlit("=");
    reveal_strlit("&");
    assert(count_char(eq, '=') == 1 && count_char(eq, '&') == 0 && count_char(eq, '#') == 0
        && count_char(eq, '?') == 0);
    assert(count_char(amp, '=') == 0 && count_char(amp, '&') == 1 && count_char(amp, '#') == 0
        && count_char(amp, '?') == 0);
    let pair = form_pair(p);
    assert(pair == k + eq + v);
    assert forall|c: char| c == '=' || c == '&' || c == '#' || c == '?' implies count_char(pair, c)
        == count_char(eq, c) by {
        lemma_count_concat(k, eq, c);
        lemma_count_concat(k + eq, v, c);
    }
    if ps.len() > 1 {
        law_form_query_one_piece_per_pair(ps.drop_last());
        let front = form_query(ps.drop_last());
        assert(form_query(ps) == front + amp + pair);
        assert forall|c: char| c == '=' || c == '&' || c == '#' || c == '?' implies count_char(
            form_query(ps),
            c,
        ) == count_char(front, c) + count_char(amp, c) + count_char(pair, c) by {
            lemma_count_concat(front, amp, c);
            lemma_count_concat(front + amp, pair, c);
        }
    }
}

/// Calls `url::Url::parse` and converts the parsed URL to its serialization (`as_str`) and
/// whether `fragment()` and `query()` are present, or the error to the text its `Display`
/// writes. The contract names the outcome; of the URL grammar it claims only that a URL
/// already in the crate's serialized form comes back unchanged (by `url`'s parser and
/// `idna`'s pass-through of lowercase ASCII labels), without query or fragment.
#[verifier::external_body]
pub(crate) fn parse_url(input: &str) -> (r: Result<ParsedUrl, String>)
    ensures
        match r {
            Ok(p) => url_parse_outcome(input@) == Ok::<(Seq<char>, bool, bool), Seq<char>>((p.href@, p.has_fragment, p.has_query)),
            Err(m) => url_parse_outcome(input@) == Err::<(Seq<char>, bool, bool), Seq<char>>(m@),
        },
        is_plain_web_url(input@) ==> (r is Ok && r->Ok_0.href@ == input@ && !r->Ok_0.has_fragment && !r->Ok_0.has_query),
{
    match Url::parse(input) {
        Ok(u) => Ok(
            ParsedUrl {
                href: u.as_str().to_string(),
                has_fragment: u.fragment().is_some(),
                has_query: u.query().is_some(),
            },
        ),
        Err(e) => Err(e.to_string()),
    }
}

/// Parses `input` with `url::Url::parse` and appends `pairs` to its query through
/// `query_pairs_mut().extend_pairs`, returning the serialization. For a URL without query
/// or fragment the contract gives the result as `url` and `form_urlencoded` write it: the
/// serialization, `?`, then every pair in order as `byte_serialize(name)=byte_serialize(value)`,
/// joined by `&`.
#[verifier::external_body]
pub(crate) fn url_append_query_pairs(input: &str, pairs: &Vec<(String, String)>) -> (r: String)
    requires
        url_parse_outcome(input@) is Ok,
    ensures
        r@ == url_with_query_pairs(input@, pair_views(pairs@)),
        url_parse_outcome(input@) matches Ok((h, false, false)) ==> r@ == h + "?"@ + form_query(
            pair_views(pairs@),
        ),
{
    match Url::parse(input) {
        Ok(mut u) => {
            u.query_pairs_mut().extend_pairs(pairs.iter().map(|p| (p.0.as_str(), p.1.as_str())));
            u.into()
        },
        Err(_) => input.to_string(),
    }
}

} // verus!
