//! Character-level string helpers shared by the validators.

use vstd::prelude::*;

verus! {

/// ASCII lowercase of one character; every other character is kept.
pub open spec fn lower_char(c: char) -> char {
    if 'A' <= c && c <= 'Z' {
        ((c as u32) + 32) as char
    } else {
        c
    }
}

/// ASCII lowercase of a character sequence, as `str::to_ascii_lowercase` computes it.
pub open spec fn lower_text(s: Seq<char>) -> Seq<char> {
    s.map_values(|c: char| lower_char(c))
}

/// Lowercasing twice is lowercasing once.
pub proof fn law_lower_text_idempotent(s: Seq<char>)
    ensures
        lower_text(lower_text(s)) == lower_text(s),
{
    assert(lower_text(lower_text(s)) =~= lower_text(s));
}

/// Number of bytes in the UTF-8 encoding of `s`, as `str::len` reports it.
pub open spec fn byte_count(s: Seq<char>) -> usize {
    vstd::utf8::encode_utf8(s).len() as usize
}

/// The decimal digit character for `d` (which is below ten).
pub open spec fn digit_char(d: nat) -> char {
    if d == 0 {
        '0'
    } else if d == 1 {
        '1'
    } else if d == 2 {
        '2'
    } else if d == 3 {
        '3'
    } else if d == 4 {
        '4'
    } else if d == 5 {
        '5'
    } else if d == 6 {
        '6'
    } else if d == 7 {
        '7'
    } else if d == 8 {
        '8'
    } else {
        '9'
    }
}

/// Decimal rendering of a natural number, without leading zeros.
pub open spec fn decimal(n: nat) -> Seq<char>
    decreases n,
{
    if n < 10 {
        seq![digit_char(n)]
    } else {
        decimal(n / 10).push(digit_char(n % 10))
    }
}

/// The set of the texts of a list of strings.
pub open spec fn text_set(v: Seq<String>) -> Set<Seq<char>> {
    v.map_values(|s: String| s@).to_set()
}

/// Appends one character to a `String` (`String::push`).
#[verifier::external_body]
pub fn push_char(s: &mut String, c: char)
    ensures
        final(s)@ == old(s)@.push(c),
{
    s.push(c);
}

/// The characters of `s`, in order.
pub fn chars_of(s: &str) -> (v: Vec<char>)
    ensures
        v@ == s@,
{
    let mut v: Vec<char> = Vec::new();
    for c in it: s.chars()
        invariant
            v@ == it.seq().take(it.index() as int),
    {
        v.push(c);
    }
    v
}

/// Whether two strings hold the same characters.
pub fn same_text(a: &str, b: &str) -> (r: bool)
    ensures
        r == (a@ == b@),
{
    let x = String::from_str(a);
    let y = String::from_str(b);
    x == y
}

/// ASCII lowercase of one character.
pub fn lower_char_exec(c: char) -> (r: char)
    ensures
        r == lower_char(c),
{
    if 'A' <= c && c <= 'Z' {
        let b: u8 = (c as u8) + 32;
        assert(b as char == ((c as u32) + 32) as char);
        b as char
    } else {
        c
    }
}

/// ASCII lowercase copy of `s` (`str::to_ascii_lowercase`).
pub fn ascii_lowercase(s: &str) -> (r: String)
    ensures
        r@ == lower_text(s@),
{
    let chars = chars_of(s);
    let mut out = String::new();
    let mut i: usize = 0;
    while i < chars.len()
        invariant
            i <= chars@.len(),
            chars@ == s@,
            out@ == lower_text(s@.take(i as int)),
        decreases chars@.len() - i,
    {
        let c = lower_char_exec(chars[i]);
        push_char(&mut out, c);
        assert(lower_text(s@.take(i + 1)) =~= lower_text(s@.take(i as int)).push(lower_char(s@[i as int])));
        i = i + 1;
    }
    assert(s@.take(chars@.len() as int) =~= s@);
    out
}

/// The character for one decimal digit.
pub fn digit_char_exec(d: usize) -> (c: char)
    requires
        d < 10,
    ensures
        c == digit_char(d as nat),
{
    if d == 0 {
        '0'
    } else if d == 1 {
        '1'
    } else if d == 2 {
        '2'
    } else if d == 3 {
        '3'
    } else if d == 4 {
        '4'
    } else if d == 5 {
        '5'
    } else if d == 6 {
        '6'
    } else if d == 7 {
        '7'
    } else if d == 8 {
        '8'
    } else {
        '9'
    }
}

/// Appends the decimal rendering of `n` to `out`.
pub fn push_decimal(out: &mut String, n: usize)
    ensures
        final(out)@ == old(out)@ + decimal(n as nat),
    decreases n,
{
    if n >= 10 {
        push_decimal(out, n / 10);
    }
    let d = digit_char_exec(n % 10);
    push_char(out, d);
    assert(old(out)@ + decimal(n as nat) =~= (if n >= 10 { old(out)@ + decimal((n / 10) as nat) } else { old(out)@ }).push(d));
}

/// Number of UTF-8 bytes in `s` (`str::len`).
pub fn byte_len(s: &str) -> (n: usize)
    ensures
        n == byte_count(s@),
{
    s.len()
}

/// Whether some string of `v` has the characters of `s`.
pub fn contains_text(v: &[String], s: &str) -> (r: bool)
    ensures
        r == text_set(v@).contains(s@),
{
    let mut i: usize = 0;
    while i < v.len()
        invariant
            i <= v@.len(),
            forall|k: int| 0 <= k < i ==> v@[k]@ != s@,
        decreases v@.len() - i,
    {
        if same_text(v[i].as_str(), s) {
            assert(v@.map_values(|x: String| x@)[i as int] == s@);
            return true;
        }
        i = i + 1;
    }
    assert forall|x: Seq<char>| text_set(v@).contains(x) implies x != s@ by {
        let views = v@.map_values(|y: String| y@);
        let k = choose|k: int| 0 <= k < views.len() && #[trigger] views[k] == x;
        assert(views[k] == v@[k]@);
    }
    false
}

} // verus!
