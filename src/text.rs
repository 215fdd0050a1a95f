//! Trimming of whitespace and null padding, and joining of attribute values.

use vstd::prelude::*;

verus! {

/// The Unicode `White_Space` property, which `char::is_whitespace` tests.
pub open spec fn white_space(c: char) -> bool {
    ('\u{9}' <= c && c <= '\u{d}') || c == ' ' || c == '\u{85}' || c == '\u{a0}'
        || c == '\u{1680}' || ('\u{2000}' <= c && c <= '\u{200a}') || c == '\u{2028}'
        || c == '\u{2029}' || c == '\u{202f}' || c == '\u{205f}' || c == '\u{3000}'
}

/// A padding character: whitespace when `nul` is false, the null character
/// when it is true.
pub open spec fn is_pad(c: char, nul: bool) -> bool {
    if nul {
        c == '\0'
    } else {
        white_space(c)
    }
}

/// `s` without its leading padding characters.
pub open spec fn strip_start(s: Seq<char>, nul: bool) -> Seq<char>
    decreases s.len(),
{
    if s.len() > 0 && is_pad(s[0], nul) {
        strip_start(s.drop_first(), nul)
    } else {
        s
    }
}

/// `s` without its trailing padding characters.
pub open spec fn strip_end(s: Seq<char>, nul: bool) -> Seq<char>
    decreases s.len(),
{
    if s.len() > 0 && is_pad(s.last(), nul) {
        strip_end(s.drop_last(), nul)
    } else {
        s
    }
}

/// `s` without padding characters at either end.
pub open spec fn trim_pad(s: Seq<char>, nul: bool) -> Seq<char> {
    strip_end(strip_start(s, nul), nul)
}

/// Whitespace trimmed from both ends, then null characters trimmed from both
/// ends of what is left.
pub open spec fn clean(s: Seq<char>) -> Seq<char> {
    trim_pad(trim_pad(s, false), true)
}

/// The values separated by `sep`.
pub open spec fn join(vs: Seq<Seq<char>>, sep: Seq<char>) -> Seq<char>
    decreases vs.len(),
{
    if vs.len() == 0 {
        Seq::empty()
    } else if vs.len() == 1 {
        vs[0]
    } else {
        join(vs.drop_last(), sep) + sep + vs.last()
    }
}

/// The character sequences of a list of strings.
pub open spec fn views(v: Seq<String>) -> Seq<Seq<char>> {
    v.map_values(|s: String| s@)
}

/// Whether `c` is a padding character (see `is_pad`).
pub fn is_pad_char(c: char, nul: bool) -> (r: bool)
    ensures
        r == is_pad(c, nul),
{
    if nul {
        c == '\0'
    } else {
        ('\u{9}' <= c && c <= '\u{d}') || c == ' ' || c == '\u{85}' || c == '\u{a0}'
            || c == '\u{1680}' || ('\u{2000}' <= c && c <= '\u{200a}') || c == '\u{2028}'
            || c == '\u{2029}' || c == '\u{202f}' || c == '\u{205f}' || c == '\u{3000}'
    }
}

/// `s` without padding characters at either end.
pub fn trim_padding(s: &str, nul: bool) -> (r: String)
    ensures
        r@ == trim_pad(s@, nul),
{
    let n = s.unicode_len();
    let mut a: usize = 0;
    assert(s@.subrange(0, n as int) =~= s@);
    while a < n && is_pad_char(s.get_char(a), nul)
        invariant
            n == s@.len(),
            a <= n,
            strip_start(s@, nul) == strip_start(s@.subrange(a as int, n as int), nul),
        decreases n - a,
    {
        assert(s@.subrange(a as int, n as int).drop_first() =~= s@.subrange(a + 1, n as int));
        a = a + 1;
    }
    assert(strip_start(s@, nul) == s@.subrange(a as int, n as int));
    let mut b: usize = n;
    while b > a && is_pad_char(s.get_char(b - 1), nul)
        invariant
            n == s@.len(),
            a <= b <= n,
            strip_end(s@.subrange(a as int, n as int), nul) == strip_end(
                s@.subrange(a as int, b as int),
                nul,
            ),
        decreases b - a,
    {
        assert(s@.subrange(a as int, b as int).drop_last() =~= s@.subrange(a as int, b - 1));
        b = b - 1;
    }
    String::from_str(s.substring_char(a, b))
}

/// Whitespace, then null characters, trimmed from both ends (see `clean`).
pub fn clean_str(s: &str) -> (r: String)
    ensures
        r@ == clean(s@),
{
    let t = trim_padding(s, false);
    trim_padding(t.as_str(), true)
}

/// The values separated by `sep`.
pub fn join_values(vs: &Vec<String>, sep: &str) -> (r: String)
    ensures
        r@ == join(views(vs@), sep@),
{
    let mut out = String::new();
    let mut i: usize = 0;
    while i < vs.len()
        invariant
            i <= vs.len(),
            out@ == join(views(vs@.subrange(0, i as int)), sep@),
        decreases vs.len() - i,
    {
        let ghost prev = views(vs@.subrange(0, i as int));
        let ghost next = views(vs@.subrange(0, i + 1));
        assert(next.drop_last() =~= prev);
        if i > 0 {
            out.append(sep);
        }
        out.append(vs[i].as_str());
        assert(next.last() == vs@[i as int]@);
        i = i + 1;
    }
    assert(vs@.subrange(0, vs@.len() as int) =~= vs@);
    out
}

} // verus!
