//! Character-level helpers shared by the parsers: whitespace, words,
//! trimming, comma lists and exact comparisons.

use vstd::prelude::*;

verus! {

/// Whether `c` has the Unicode `White_Space` property, as `char::is_whitespace`
/// reports it for characters beyond ASCII.
pub uninterp spec fn unicode_whitespace(c: char) -> bool;

/// Whether `c` is alphabetic or numeric in the Unicode sense, as
/// `char::is_alphanumeric` reports it for characters beyond ASCII.
pub uninterp spec fn unicode_alphanumeric(c: char) -> bool;

/// The ASCII characters with the Unicode `White_Space` property: tab, line
/// feed, vertical tab, form feed, carriage return and space.
pub open spec fn ascii_white_space(c: char) -> bool {
    c == ' ' || ('\t' <= c && c <= '\r')
}

/// The ASCII characters that are Unicode alphabetic or numeric: the letters and digits.
pub open spec fn ascii_letter_or_digit(c: char) -> bool {
    ('0' <= c && c <= '9') || ('a' <= c && c <= 'z') || ('A' <= c && c <= 'Z')
}

/// Whether `c` is whitespace as `char::is_whitespace` reports it.
pub open spec fn whitespace(c: char) -> bool {
    if (c as u32) < 128 {
        ascii_white_space(c)
    } else {
        unicode_whitespace(c)
    }
}

/// Whether `c` is alphanumeric as `char::is_alphanumeric` reports it.
pub open spec fn alphanumeric(c: char) -> bool {
    if (c as u32) < 128 {
        ascii_letter_or_digit(c)
    } else {
        unicode_alphanumeric(c)
    }
}

/// Trusted: `char::is_whitespace`, which reports the Unicode `White_Space`
/// property. Of ASCII characters that property holds exactly for tab, line
/// feed, vertical tab, form feed, carriage return and space; beyond ASCII the
/// result is named `unicode_whitespace`, left to the Unicode tables.
#[verifier::external_body]
pub(crate) fn char_is_whitespace(c: char) -> (r: bool)
    ensures
        r == whitespace(c),
        (c as u32) >= 128 ==> r == unicode_whitespace(c),
{
    c.is_whitespace()
}

/// Trusted: `char::is_alphanumeric`, which reports the Unicode `Alphabetic`
/// property or a numeric general category. Of ASCII characters these hold
/// exactly for the letters and digits; beyond ASCII the result is named
/// `unicode_alphanumeric`, left to the Unicode tables.
#[verifier::external_body]
pub(crate) fn char_is_alphanumeric(c: char) -> (r: bool)
    ensures
        r == alphanumeric(c),
        (c as u32) >= 128 ==> r == unicode_alphanumeric(c),
{
    c.is_alphanumeric()
}

/// The predicate "is Unicode whitespace", as a value.
pub open spec fn ws_pred() -> spec_fn(char) -> bool {
    |c: char| whitespace(c)
}

/// The predicate "is not Unicode whitespace", as a value.
pub open spec fn word_pred() -> spec_fn(char) -> bool {
    |c: char| !whitespace(c)
}

/// The predicate "differs from `d`", as a value.
pub open spec fn not_char(d: char) -> spec_fn(char) -> bool {
    |c: char| c != d
}

/// The first position at or after `i` whose character fails `p` (or the end).
pub open spec fn skip_while(s: Seq<char>, i: int, p: spec_fn(char) -> bool) -> int
    decreases s.len() - i,
{
    if 0 <= i < s.len() && p(s[i]) {
        skip_while(s, i + 1, p)
    } else {
        i
    }
}

/// The last position at or before `j` such that the character before it fails `p` (or 0).
pub open spec fn skip_back(s: Seq<char>, j: int, p: spec_fn(char) -> bool) -> int
    decreases j,
{
    if 0 < j <= s.len() && p(s[j - 1]) {
        skip_back(s, j - 1, p)
    } else {
        j
    }
}

pub proof fn lemma_skip_while(s: Seq<char>, i: int, p: spec_fn(char) -> bool)
    requires
        0 <= i <= s.len(),
    ensures
        i <= skip_while(s, i, p) <= s.len(),
        forall|k: int| i <= k < skip_while(s, i, p) ==> p(#[trigger] s[k]),
        skip_while(s, i, p) < s.len() ==> !p(s[skip_while(s, i, p)]),
    decreases s.len() - i,
{
    if i < s.len() && p(s[i]) {
        lemma_skip_while(s, i + 1, p);
    }
}

pub proof fn lemma_skip_back(s: Seq<char>, j: int, p: spec_fn(char) -> bool)
    requires
        0 <= j <= s.len(),
    ensures
        0 <= skip_back(s, j, p) <= j,
        forall|k: int| skip_back(s, j, p) <= k < j ==> p(#[trigger] s[k]),
        skip_back(s, j, p) > 0 ==> !p(s[skip_back(s, j, p) - 1]),
    decreases j,
{
    if 0 < j && p(s[j - 1]) {
        lemma_skip_back(s, j - 1, p);
    }
}

/// The whitespace-separated words of `s` from position `i` on, as `str::split_whitespace` yields them.
pub open spec fn words_from(s: Seq<char>, i: int) -> Seq<Seq<char>>
    decreases s.len() - i,
{
    if 0 <= i <= s.len() {
        let a = skip_while(s, i, ws_pred());
        if a >= s.len() {
            seq![]
        } else {
            let b = skip_while(s, a, word_pred());
            proof {
                lemma_skip_while(s, i, ws_pred());
                lemma_skip_while(s, a, word_pred());
            }
            if b > i {
                seq![s.subrange(a, b)] + words_from(s, b)
            } else {
                seq![]
            }
        }
    } else {
        seq![]
    }
}

/// The whitespace-separated words of `s`.
pub open spec fn words(s: Seq<char>) -> Seq<Seq<char>> {
    words_from(s, 0)
}

/// `s` without leading and trailing whitespace, as `str::trim` gives it.
pub open spec fn trim(s: Seq<char>) -> Seq<char> {
    let a = skip_while(s, 0, ws_pred());
    let b = skip_back(s, s.len() as int, ws_pred());
    if a < b {
        s.subrange(a, b)
    } else {
        seq![]
    }
}

/// The pieces of `s` from position `i` on, cut at every `d`, as `str::split(d)` yields them.
pub open spec fn pieces_from(s: Seq<char>, i: int, d: char) -> Seq<Seq<char>>
    decreases s.len() - i,
{
    if 0 <= i <= s.len() {
        let j = skip_while(s, i, not_char(d));
        proof {
            lemma_skip_while(s, i, not_char(d));
        }
        if j >= s.len() {
            seq![s.subrange(i, s.len() as int)]
        } else {
            seq![s.subrange(i, j)] + pieces_from(s, j + 1, d)
        }
    } else {
        seq![]
    }
}

/// The pieces of `s` cut at every `d`.
pub open spec fn pieces(s: Seq<char>, d: char) -> Seq<Seq<char>> {
    pieces_from(s, 0, d)
}

/// Whether `s` begins with `t`.
pub open spec fn has_prefix(s: Seq<char>, t: Seq<char>) -> bool {
    t.len() <= s.len() && s.subrange(0, t.len() as int) == t
}

/// Whether `s` ends with `t`.
pub open spec fn has_suffix(s: Seq<char>, t: Seq<char>) -> bool {
    t.len() <= s.len() && s.subrange(s.len() - t.len(), s.len() as int) == t
}

/// The views of a sequence of strings.
pub open spec fn views(v: Seq<String>) -> Seq<Seq<char>> {
    v.map_values(|x: String| x@)
}

/// Copies the characters of `s` into a vector.
pub fn chars_of(s: &str) -> (v: Vec<char>)
    ensures
        v@ == s@,
{
    let mut v: Vec<char> = Vec::new();
    for c in it: s.chars()
        invariant
            v@ == it.seq().take(it.index()),
            it.seq() == s@,
    {
        v.push(c);
        assert(v@ == it.seq().take(it.index() + 1));
    }
    v
}

/// Whether two strings hold the same characters.
pub fn str_eq(a: &str, b: &str) -> (r: bool)
    ensures
        r == (a@ == b@),
{
    let x = chars_of(a);
    let y = chars_of(b);
    if x.len() != y.len() {
        return false;
    }
    let mut i: usize = 0;
    while i < x.len()
        invariant
            x@ == a@,
            y@ == b@,
            x.len() == y.len(),
            i <= x.len(),
            forall|k: int| 0 <= k < i ==> x@[k] == y@[k],
        decreases x.len() - i,
    {
        if x[i] != y[i] {
            return false;
        }
        i += 1;
    }
    assert(a@ =~= b@);
    true
}

/// The characters of `s` from position `from` up to `to`, as an owned string.
pub fn substring(s: &str, from: usize, to: usize) -> (r: String)
    requires
        from <= to <= s@.len(),
    ensures
        r@ == s@.subrange(from as int, to as int),
{
    String::from_str(s.substring_char(from, to))
}

/// The first position at or after `i` that is not whitespace.
pub fn skip_whitespace(cs: &Vec<char>, i: usize) -> (j: usize)
    requires
        i <= cs.len(),
    ensures
        j == skip_while(cs@, i as int, ws_pred()),
        i <= j <= cs.len(),
{
    let mut j = i;
    while j < cs.len() && char_is_whitespace(cs[j])
        invariant
            i <= j <= cs.len(),
            skip_while(cs@, j as int, ws_pred()) == skip_while(cs@, i as int, ws_pred()),
        decreases cs.len() - j,
    {
        j += 1;
    }
    j
}

/// The first position at or after `i` that is whitespace (or the end).
pub fn skip_word(cs: &Vec<char>, i: usize) -> (j: usize)
    requires
        i <= cs.len(),
    ensures
        j == skip_while(cs@, i as int, word_pred()),
        i <= j <= cs.len(),
{
    let mut j = i;
    while j < cs.len() && !char_is_whitespace(cs[j])
        invariant
            i <= j <= cs.len(),
            skip_while(cs@, j as int, word_pred()) == skip_while(cs@, i as int, word_pred()),
        decreases cs.len() - j,
    {
        j += 1;
    }
    j
}

/// The whitespace-separated words of `s`, as `str::split_whitespace` yields them.
pub fn split_whitespace(s: &str) -> (r: Vec<String>)
    ensures
        views(r@) == words(s@),
{
    let cs = chars_of(s);
    let mut out: Vec<String> = Vec::new();
    let mut i: usize = 0;
    while i < cs.len()
        invariant
            cs@ == s@,
            i <= cs.len(),
            views(out@) + words_from(s@, i as int) == words(s@),
        decreases cs.len() - i,
    {
        let a = skip_whitespace(&cs, i);
        if a == cs.len() {
            assert(words_from(s@, i as int) == Seq::<Seq<char>>::empty());
            i = a;
        } else {
            let b = skip_word(&cs, a);
            proof {
                lemma_skip_while(s@, i as int, ws_pred());
                lemma_skip_while(s@, a as int, word_pred());
            }
            let w = substring(s, a, b);
            assert(words_from(s@, i as int) == seq![s@.subrange(a as int, b as int)] + words_from(s@, b as int));
            let ghost old_out = out@;
            out.push(w);
            assert(views(out@) == views(old_out).push(w@));
            assert(views(out@) + words_from(s@, b as int) =~= views(old_out) + words_from(s@, i as int));
            i = b;
        }
    }
    assert(words_from(s@, i as int) == Seq::<Seq<char>>::empty());
    assert(views(out@) == words(s@));
    out
}


/// The last position at or before `j` after which only whitespace follows up to `j`.
pub fn skip_whitespace_back(cs: &Vec<char>, j: usize) -> (k: usize)
    requires
        j <= cs.len(),
    ensures
        k == skip_back(cs@, j as int, ws_pred()),
        k <= j,
{
    let mut k = j;
    while k > 0 && char_is_whitespace(cs[k - 1])
        invariant
            k <= j <= cs.len(),
            skip_back(cs@, k as int, ws_pred()) == skip_back(cs@, j as int, ws_pred()),
        decreases k,
    {
        k -= 1;
    }
    k
}

/// `s` without leading and trailing whitespace, as `str::trim` gives it.
pub fn trim_str(s: &str) -> (r: String)
    ensures
        r@ == trim(s@),
{
    let cs = chars_of(s);
    let a = skip_whitespace(&cs, 0);
    let b = skip_whitespace_back(&cs, cs.len());
    if a < b {
        substring(s, a, b)
    } else {
        String::new()
    }
}

/// The pieces of `s` cut at every `d`, as `str::split(d)` yields them.
pub fn split_char(s: &str, d: char) -> (r: Vec<String>)
    ensures
        views(r@) == pieces(s@, d),
{
    let cs = chars_of(s);
    let mut out: Vec<String> = Vec::new();
    let mut i: usize = 0;
    loop
        invariant
            cs@ == s@,
            i <= cs.len(),
            views(out@) + pieces_from(s@, i as int, d) == pieces(s@, d),
        decreases cs.len() - i,
    {
        let mut j = i;
        while j < cs.len() && cs[j] != d
            invariant
                i <= j <= cs.len(),
                skip_while(cs@, j as int, not_char(d)) == skip_while(cs@, i as int, not_char(d)),
            decreases cs.len() - j,
        {
            j += 1;
        }
        let w = substring(s, i, j);
        let ghost old_out = out@;
        out.push(w);
        assert(views(out@) =~= views(old_out).push(w@));
        if j >= cs.len() {
            assert(views(out@) =~= views(old_out) + pieces_from(s@, i as int, d));
            return out;
        }
        assert(views(out@) + pieces_from(s@, j + 1, d) =~= views(old_out) + pieces_from(s@, i as int, d));
        i = j + 1;
    }
}

/// The trimmed, non-empty pieces of a sequence of pieces, in order.
pub open spec fn nonblank_trimmed(ps: Seq<Seq<char>>) -> Seq<Seq<char>>
    decreases ps.len(),
{
    if ps.len() == 0 {
        seq![]
    } else {
        let t = trim(ps.last());
        nonblank_trimmed(ps.drop_last()) + if t.len() > 0 {
            seq![t]
        } else {
            seq![]
        }
    }
}

/// The comma-separated items of a list of lines: each line cut at `,`,
/// each piece trimmed, empty pieces dropped.
pub open spec fn comma_items(lines: Seq<Seq<char>>) -> Seq<Seq<char>>
    decreases lines.len(),
{
    if lines.len() == 0 {
        seq![]
    } else {
        comma_items(lines.drop_last()) + nonblank_trimmed(pieces(lines.last(), ','))
    }
}

/// The comma-separated items of `lines`.
pub fn split_comma_lines(lines: &Vec<String>) -> (r: Vec<String>)
    ensures
        views(r@) == comma_items(views(lines@)),
{
    let mut out: Vec<String> = Vec::new();
    let mut i: usize = 0;
    while i < lines.len()
        invariant
            i <= lines.len(),
            views(out@) == comma_items(views(lines@).take(i as int)),
        decreases lines.len() - i,
    {
        let ps = split_char(lines[i].as_str(), ',');
        let mut j: usize = 0;
        let ghost base = views(out@);
        while j < ps.len()
            invariant
                i < lines.len(),
                j <= ps.len(),
                views(ps@) == pieces(lines@[i as int]@, ','),
                views(out@) == base + nonblank_trimmed(views(ps@).take(j as int)),
            decreases ps.len() - j,
        {
            let t = trim_str(ps[j].as_str());
            let ghost before = views(out@);
            assert(views(ps@).take(j + 1).drop_last() =~= views(ps@).take(j as int));
            if !t.as_str().is_empty() {
                out.push(t);
                assert(views(out@) =~= before.push(t@));
            }
            assert(views(out@) =~= base + nonblank_trimmed(views(ps@).take(j + 1)));
            j += 1;
        }
        assert(views(ps@).take(j as int) =~= views(ps@));
        assert(views(lines@).take(i + 1).drop_last() =~= views(lines@).take(i as int));
        assert(views(lines@).take(i + 1).last() == lines@[i as int]@);
        i += 1;
    }
    assert(views(lines@).take(i as int) =~= views(lines@));
    out
}


/// The lines joined into one text with `sep` between them, as `[&str]::join` gives it.
pub open spec fn join_with(ls: Seq<Seq<char>>, sep: Seq<char>) -> Seq<char>
    decreases ls.len(),
{
    if ls.len() == 0 {
        seq![]
    } else if ls.len() == 1 {
        ls[0]
    } else {
        join_with(ls.drop_last(), sep) + sep + ls.last()
    }
}

/// The lines joined with `sep` between them.
pub fn join(lines: &Vec<String>, sep: &str) -> (r: String)
    ensures
        r@ == join_with(views(lines@), sep@),
{
    let mut text = String::new();
    let mut i: usize = 0;
    assert(text@ =~= join_with(views(lines@).take(0), sep@));
    while i < lines.len()
        invariant
            i <= lines.len(),
            text@ == join_with(views(lines@).take(i as int), sep@),
        decreases lines.len() - i,
    {
        let ghost t = views(lines@).take(i + 1);
        assert(t.drop_last() =~= views(lines@).take(i as int));
        assert(t.last() == lines@[i as int]@);
        if i > 0 {
            text.append(sep);
        } else {
            assert(t.len() == 1 && t[0] == lines@[0]@);
            assert(text@ =~= seq![]);
        }
        text.append(lines[i].as_str());
        proof {
            if i > 0 {
                assert(text@ =~= join_with(t.drop_last(), sep@) + sep@ + t.last());
            } else {
                assert(text@ =~= t[0]);
            }
        }
        i += 1;
    }
    assert(views(lines@).take(i as int) =~= views(lines@));
    text
}

} // verus!
