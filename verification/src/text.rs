//! Text as sequences of characters: trimming, searching, splitting and joining.
//!
//! Every function here has a specification over `Seq<char>`, the view of `str` and `String`.
//! The executable versions work on `&[char]`, which can be indexed in constant time.

use vstd::prelude::*;
use vstd::slice::slice_subrange;

verus! {

/// `String::push` of the standard library. Taken on trust: it appends the character to the
/// string.
pub assume_specification[ String::push ](s: &mut String, c: char)
    ensures
        final(s)@ == old(s)@.push(c),
;

// ---------------------------------------------------------------------------------------------
// Characters
// ---------------------------------------------------------------------------------------------

/// The code points that carry the Unicode property `White_Space`.
pub open spec fn whitespace(c: char) -> bool {
    ||| '\u{9}' <= c <= '\u{d}'
    ||| c == ' '
    ||| c == '\u{85}'
    ||| c == '\u{a0}'
    ||| c == '\u{1680}'
    ||| '\u{2000}' <= c <= '\u{200a}'
    ||| c == '\u{2028}'
    ||| c == '\u{2029}'
    ||| c == '\u{202f}'
    ||| c == '\u{205f}'
    ||| c == '\u{3000}'
}

/// Space, horizontal tab, line feed, form feed and carriage return.
pub open spec fn ascii_whitespace(c: char) -> bool {
    c == ' ' || c == '\t' || c == '\n' || c == '\u{c}' || c == '\r'
}

/// Whether `c` carries the Unicode property `White_Space`.
pub fn is_whitespace(c: char) -> (r: bool)
    ensures
        r == whitespace(c),
{
    ('\u{9}' <= c && c <= '\u{d}') || c == ' ' || c == '\u{85}' || c == '\u{a0}' || c == '\u{1680}'
        || ('\u{2000}' <= c && c <= '\u{200a}') || c == '\u{2028}' || c == '\u{2029}' || c
        == '\u{202f}' || c == '\u{205f}' || c == '\u{3000}'
}

/// Whether `c` is a space, a horizontal tab, a line feed, a form feed or a carriage return.
pub fn is_ascii_whitespace(c: char) -> (r: bool)
    ensures
        r == ascii_whitespace(c),
{
    c == ' ' || c == '\t' || c == '\n' || c == '\u{c}' || c == '\r'
}

// ---------------------------------------------------------------------------------------------
// Conversions
// ---------------------------------------------------------------------------------------------

/// The characters of `s`, in order.
pub fn to_chars(s: &str) -> (v: Vec<char>)
    ensures
        v@ == s@,
{
    let mut v: Vec<char> = Vec::new();
    for c in it: s.chars()
        invariant
            it.seq() == s@,
            v@ == it.seq().take(it.index()),
    {
        v.push(c);
    }
    v
}

/// Appends the characters of `chars` to `out`.
pub fn push_chars(out: &mut String, chars: &[char])
    ensures
        final(out)@ == old(out)@ + chars@,
{
    let mut i: usize = 0;
    while i < chars.len()
        invariant
            i <= chars.len(),
            out@ == old(out)@ + chars@.take(i as int),
        decreases chars.len() - i,
    {
        out.push(chars[i]);
        i += 1;
    }
}

/// The string made of the characters of `chars`.
pub fn to_string(chars: &[char]) -> (s: String)
    ensures
        s@ == chars@,
{
    let mut s = String::new();
    push_chars(&mut s, chars);
    s
}

/// Whether `chars` spells `text`.
pub fn equals_str(chars: &[char], text: &str) -> (r: bool)
    ensures
        r == (chars@ == text@),
{
    let mut i: usize = 0;
    for c in it: text.chars()
        invariant
            it.seq() == text@,
            i == it.index(),
            i <= chars.len(),
            chars@.take(i as int) == text@.take(i as int),
    {
        if i >= chars.len() || chars[i] != c {
            assert(chars@ != text@);
            return false;
        }
        assert(chars@.take(i + 1) == chars@.take(i as int).push(chars@[i as int]));
        assert(text@.take(i + 1) == text@.take(i as int).push(text@[i as int]));
        i += 1;
    }
    assert(text@.take(i as int) == text@);
    if i == chars.len() {
        assert(chars@.take(i as int) == chars@);
    }
    i == chars.len()
}

// ---------------------------------------------------------------------------------------------
// Trimming
// ---------------------------------------------------------------------------------------------

/// `s` without its leading whitespace.
pub open spec fn trimmed_start(s: Seq<char>) -> Seq<char>
    decreases s.len(),
{
    if s.len() > 0 && whitespace(s[0]) {
        trimmed_start(s.drop_first())
    } else {
        s
    }
}

/// `s` without its trailing whitespace.
pub open spec fn trimmed_end(s: Seq<char>) -> Seq<char>
    decreases s.len(),
{
    if s.len() > 0 && whitespace(s.last()) {
        trimmed_end(s.drop_last())
    } else {
        s
    }
}

/// `s` without its leading and trailing whitespace.
pub open spec fn trimmed(s: Seq<char>) -> Seq<char> {
    trimmed_end(trimmed_start(s))
}

/// Trimming takes characters away and leaves no whitespace at the ends.
pub proof fn lemma_trimmed_shorter(s: Seq<char>)
    ensures
        trimmed_start(s).len() <= s.len(),
        trimmed_end(s).len() <= s.len(),
        trimmed(s).len() <= trimmed_start(s).len(),
        trimmed_start(s).len() > 0 ==> !whitespace(trimmed_start(s)[0]),
        trimmed_end(s).len() > 0 ==> !whitespace(trimmed_end(s).last()),
    decreases s.len(),
{
    if s.len() > 0 {
        lemma_trimmed_shorter(s.drop_first());
        lemma_trimmed_shorter(s.drop_last());
    }
    lemma_trimmed_shorter_end(trimmed_start(s));
}

/// Trimming at the end takes characters away.
proof fn lemma_trimmed_shorter_end(s: Seq<char>)
    ensures
        trimmed_end(s).len() <= s.len(),
    decreases s.len(),
{
    if s.len() > 0 {
        lemma_trimmed_shorter_end(s.drop_last());
    }
}

/// `s` without its leading whitespace.
pub fn trim_start<'a>(s: &'a [char]) -> (r: &'a [char])
    ensures
        r@ == trimmed_start(s@),
{
    let mut i: usize = 0;
    assert(s@.skip(0) == s@);
    while i < s.len() && is_whitespace(s[i])
        invariant
            i <= s.len(),
            trimmed_start(s@) == trimmed_start(s@.skip(i as int)),
        decreases s.len() - i,
    {
        assert(s@.skip(i as int).drop_first() == s@.skip(i + 1));
        i += 1;
    }
    assert(s@.skip(i as int) == s@.subrange(i as int, s@.len() as int));
    slice_subrange(s, i, s.len())
}

/// `s` without its trailing whitespace.
pub fn trim_end<'a>(s: &'a [char]) -> (r: &'a [char])
    ensures
        r@ == trimmed_end(s@),
{
    let mut n: usize = s.len();
    assert(s@.take(s@.len() as int) == s@);
    while n > 0 && is_whitespace(s[n - 1])
        invariant
            n <= s.len(),
            trimmed_end(s@) == trimmed_end(s@.take(n as int)),
        decreases n,
    {
        assert(s@.take(n as int).drop_last() == s@.take(n - 1));
        n -= 1;
    }
    assert(s@.take(n as int) == s@.subrange(0, n as int));
    slice_subrange(s, 0, n)
}

/// `s` without its leading and trailing whitespace.
pub fn trim<'a>(s: &'a [char]) -> (r: &'a [char])
    ensures
        r@ == trimmed(s@),
{
    trim_end(trim_start(s))
}

// ---------------------------------------------------------------------------------------------
// Affixes
// ---------------------------------------------------------------------------------------------

/// Whether `s` begins with `prefix`.
pub open spec fn has_prefix(s: Seq<char>, prefix: Seq<char>) -> bool {
    prefix.len() <= s.len() && s.take(prefix.len() as int) == prefix
}

/// Whether `s` ends with `suffix`.
pub open spec fn has_suffix(s: Seq<char>, suffix: Seq<char>) -> bool {
    suffix.len() <= s.len() && s.skip(s.len() - suffix.len()) == suffix
}

/// `s` without `prefix` at its start, where it has it there; else `s`.
pub open spec fn without_prefix(s: Seq<char>, prefix: Seq<char>) -> Seq<char> {
    if has_prefix(s, prefix) {
        s.skip(prefix.len() as int)
    } else {
        s
    }
}

/// `s` without `suffix` at its end, where it has it there; else `s`.
pub open spec fn without_suffix(s: Seq<char>, suffix: Seq<char>) -> Seq<char> {
    if has_suffix(s, suffix) {
        s.take(s.len() - suffix.len())
    } else {
        s
    }
}

/// Whether `pattern` stands in `s` at index `i`.
pub open spec fn matches_at(s: Seq<char>, pattern: Seq<char>, i: int) -> bool {
    0 <= i && i + pattern.len() <= s.len() && s.subrange(i, i + pattern.len()) == pattern
}

/// Whether `pattern` stands in `s` at index `i`.
pub fn is_match_at(s: &[char], pattern: &[char], i: usize) -> (r: bool)
    ensures
        r == matches_at(s@, pattern@, i as int),
{
    if i > s.len() || pattern.len() > s.len() - i {
        return false;
    }
    let mut k: usize = 0;
    while k < pattern.len()
        invariant
            k <= pattern.len(),
            i + pattern.len() <= s.len(),
            s@.subrange(i as int, i + k) == pattern@.take(k as int),
        decreases pattern.len() - k,
    {
        if s[i + k] != pattern[k] {
            assert(s@.subrange(i as int, i + pattern.len())[k as int] != pattern@[k as int]);
            return false;
        }
        assert(s@.subrange(i as int, i + k + 1) == s@.subrange(i as int, i + k).push(s@[i + k]));
        assert(pattern@.take(k + 1) == pattern@.take(k as int).push(pattern@[k as int]));
        k += 1;
    }
    assert(pattern@.take(k as int) == pattern@);
    true
}

/// Whether `s` begins with `prefix`.
pub fn starts_with(s: &[char], prefix: &[char]) -> (r: bool)
    ensures
        r == has_prefix(s@, prefix@),
{
    let r = is_match_at(s, prefix, 0);
    assert(s@.take(prefix@.len() as int) == s@.subrange(0, prefix@.len() as int));
    r
}

/// Whether `s` ends with `suffix`.
pub fn ends_with(s: &[char], suffix: &[char]) -> (r: bool)
    ensures
        r == has_suffix(s@, suffix@),
{
    if suffix.len() > s.len() {
        return false;
    }
    let r = is_match_at(s, suffix, s.len() - suffix.len());
    assert(s@.skip(s@.len() - suffix@.len()) == s@.subrange(
        s@.len() - suffix@.len(),
        s@.len() as int,
    ));
    r
}

/// `s` without `prefix` at its start, where it has it there; else `s`.
pub fn strip_prefix<'a>(s: &'a [char], prefix: &[char]) -> (r: &'a [char])
    ensures
        r@ == without_prefix(s@, prefix@),
{
    if starts_with(s, prefix) {
        assert(s@.skip(prefix@.len() as int) == s@.subrange(prefix@.len() as int, s@.len() as int));
        slice_subrange(s, prefix.len(), s.len())
    } else {
        s
    }
}

/// `s` without `suffix` at its end, where it has it there; else `s`.
pub fn strip_suffix<'a>(s: &'a [char], suffix: &[char]) -> (r: &'a [char])
    ensures
        r@ == without_suffix(s@, suffix@),
{
    if ends_with(s, suffix) {
        assert(s@.take(s@.len() - suffix@.len()) == s@.subrange(0, s@.len() - suffix@.len()));
        slice_subrange(s, 0, s.len() - suffix.len())
    } else {
        s
    }
}

// ---------------------------------------------------------------------------------------------
// Searching
// ---------------------------------------------------------------------------------------------

/// The index of the first `c` in `s`, or the length of `s` where `c` does not occur in it.
pub open spec fn position_of(s: Seq<char>, c: char) -> int
    decreases s.len(),
{
    if s.len() == 0 || s[0] == c {
        0
    } else {
        1 + position_of(s.drop_first(), c)
    }
}

/// `position_of` is in range, points at a `c` unless it is the length, and no `c` comes before.
pub proof fn lemma_position_of(s: Seq<char>, c: char)
    ensures
        0 <= position_of(s, c) <= s.len(),
        position_of(s, c) < s.len() ==> s[position_of(s, c)] == c,
        forall|j: int| 0 <= j < position_of(s, c) ==> s[j] != c,
    decreases s.len(),
{
    if s.len() == 0 || s[0] == c {
    } else {
        let t = s.drop_first();
        lemma_position_of(t, c);
        assert forall|j: int| 0 <= j < position_of(s, c) implies s[j] != c by {
            if j > 0 {
                assert(s[j] == t[j - 1]);
            }
        }
    }
}

/// An index before which no `c` stands, and which holds a `c` or is the length, is the position.
pub proof fn lemma_position_of_is(s: Seq<char>, c: char, p: int)
    requires
        0 <= p <= s.len(),
        p < s.len() ==> s[p] == c,
        forall|j: int| 0 <= j < p ==> s[j] != c,
    ensures
        position_of(s, c) == p,
{
    lemma_position_of(s, c);
    let q = position_of(s, c);
    if q < p {
        assert(s[q] == c);
    } else if p < q {
        assert(s[p] != c);
    }
}

/// The index of the first `c` in `s`, or the length of `s` where `c` does not occur in it.
pub fn find_char(s: &[char], c: char) -> (p: usize)
    ensures
        p == position_of(s@, c),
{
    let mut i: usize = 0;
    while i < s.len() && s[i] != c
        invariant
            i <= s.len(),
            forall|j: int| 0 <= j < i ==> s@[j] != c,
        decreases s.len() - i,
    {
        i += 1;
    }
    proof {
        lemma_position_of_is(s@, c, i as int);
    }
    i
}

/// Whether `needle` occurs somewhere in `hay` as a run of consecutive characters.
pub open spec fn occurs_in(needle: Seq<char>, hay: Seq<char>) -> bool {
    exists|i: int| matches_at(hay, needle, i)
}

/// The first index from `from` on at which `pattern` stands in `s`, or the length of `s` where
/// there is none.
pub open spec fn match_from(s: Seq<char>, pattern: Seq<char>, from: int) -> int
    decreases s.len() + 1 - from,
{
    if from < 0 || from + pattern.len() > s.len() {
        s.len() as int
    } else if matches_at(s, pattern, from) {
        from
    } else {
        match_from(s, pattern, from + 1)
    }
}

/// `match_from` finds the first match at or after `from`, and the length where there is none.
pub proof fn lemma_match_from(s: Seq<char>, pattern: Seq<char>, from: int)
    requires
        0 <= from,
    ensures
        from <= match_from(s, pattern, from) || match_from(s, pattern, from) == s.len(),
        match_from(s, pattern, from) <= s.len(),
        match_from(s, pattern, from) < s.len() ==> matches_at(
            s,
            pattern,
            match_from(s, pattern, from),
        ),
        forall|j: int|
            from <= j < match_from(s, pattern, from) ==> !matches_at(s, pattern, j),
        match_from(s, pattern, from) == s.len() && !matches_at(s, pattern, s.len() as int)
            ==> forall|j: int| from <= j ==> !matches_at(s, pattern, j),
    decreases s.len() + 1 - from,
{
    if from + pattern.len() > s.len() {
    } else if matches_at(s, pattern, from) {
    } else {
        lemma_match_from(s, pattern, from + 1);
    }
}

/// The first index at which `pattern` stands in `s`, or the length of `s` where there is none.
pub fn find(s: &[char], pattern: &[char]) -> (p: usize)
    ensures
        p == match_from(s@, pattern@, 0),
{
    if pattern.len() > s.len() {
        return s.len();
    }
    let last = s.len() - pattern.len();
    let mut i: usize = 0;
    loop
        invariant
            i <= last,
            last + pattern.len() == s.len(),
            match_from(s@, pattern@, 0) == match_from(s@, pattern@, i as int),
        decreases last - i,
    {
        if is_match_at(s, pattern, i) {
            return i;
        }
        if i == last {
            assert(match_from(s@, pattern@, i + 1) == s@.len());
            return s.len();
        }
        i += 1;
    }
}

/// Whether `needle` occurs somewhere in `hay` as a run of consecutive characters.
pub fn contains(hay: &[char], needle: &[char]) -> (r: bool)
    ensures
        r == occurs_in(needle@, hay@),
{
    let p = find(hay, needle);
    proof {
        lemma_match_from(hay@, needle@, 0);
        if needle@.len() == 0 {
            assert(hay@.subrange(0, 0) == needle@);
            assert(matches_at(hay@, needle@, 0));
        } else if p < hay.len() {
            assert(matches_at(hay@, needle@, p as int));
        }
    }
    p < hay.len() || needle.len() == 0
}

// ---------------------------------------------------------------------------------------------
// Splitting and joining
// ---------------------------------------------------------------------------------------------

/// The views of a sequence of slices.
pub open spec fn views(parts: Seq<&[char]>) -> Seq<Seq<char>> {
    parts.map_values(|p: &[char]| p@)
}

/// `line` without one carriage return at its end.
pub open spec fn without_cr(line: Seq<char>) -> Seq<char> {
    if line.len() > 0 && line.last() == '\r' {
        line.drop_last()
    } else {
        line
    }
}

/// The lines of `s`. A line ends at a line feed, or at a carriage return followed by a line
/// feed; neither belongs to the line. What follows the last line feed is a line unless it is
/// empty.
pub open spec fn lines_of(s: Seq<char>) -> Seq<Seq<char>>
    decreases s.len(),
{
    if s.len() == 0 {
        Seq::empty()
    } else {
        let n = position_of(s, '\n');
        if 0 <= n < s.len() {
            seq![without_cr(s.take(n))] + lines_of(s.skip(n + 1))
        } else {
            seq![s]
        }
    }
}

/// The lines of `s`, without the line feeds and carriage returns that end them.
pub fn lines<'a>(s: &'a [char]) -> (r: Vec<&'a [char]>)
    ensures
        views(r@) == lines_of(s@),
{
    let mut out: Vec<&'a [char]> = Vec::new();
    let mut pos: usize = 0;
    assert(s@.skip(0) == s@);
    assert(views(out@) == Seq::<Seq<char>>::empty());
    while pos < s.len()
        invariant
            pos <= s.len(),
            views(out@) + lines_of(s@.skip(pos as int)) == lines_of(s@),
        decreases s.len() - pos,
    {
        let rest = slice_subrange(s, pos, s.len());
        assert(rest@ == s@.skip(pos as int));
        let n = find_char(rest, '\n');
        proof {
            lemma_position_of(rest@, '\n');
        }
        let ghost before = views(out@);
        if n < rest.len() {
            let mut line = slice_subrange(rest, 0, n);
            assert(line@ == rest@.take(n as int));
            if n > 0 && line[n - 1] == '\r' {
                line = slice_subrange(rest, 0, n - 1);
                assert(line@ == rest@.take(n as int).drop_last());
            }
            out.push(line);
            assert(rest@.skip(n + 1) == s@.skip(pos + n + 1));
            assert(views(out@) == before.push(line@));
            assert(before.push(line@) + lines_of(rest@.skip(n + 1)) == before + lines_of(rest@));
            pos = pos + n + 1;
        } else {
            out.push(rest);
            assert(views(out@) == before.push(rest@));
            assert(s@.skip(s@.len() as int).len() == 0);
            assert(before.push(rest@) + lines_of(s@.skip(s@.len() as int)) == before + lines_of(
                rest@,
            ));
            pos = s.len();
        }
    }
    assert(views(out@) + lines_of(s@.skip(pos as int)) == views(out@));
    out
}

/// The pieces of `s` between the occurrences of `sep`, found from the left and not overlapping.
/// There is always at least one piece. With an empty `sep` the one piece is `s`.
pub open spec fn split_on(s: Seq<char>, sep: Seq<char>) -> Seq<Seq<char>>
    decreases s.len(),
{
    let p = match_from(s, sep, 0);
    if sep.len() > 0 && 0 <= p && p + sep.len() <= s.len() {
        seq![s.take(p)] + split_on(s.skip(p + sep.len()), sep)
    } else {
        seq![s]
    }
}

/// The pieces of `s` between the occurrences of `sep`.
pub fn split<'a>(s: &'a [char], sep: &[char]) -> (r: Vec<&'a [char]>)
    ensures
        views(r@) == split_on(s@, sep@),
{
    let mut out: Vec<&'a [char]> = Vec::new();
    let mut pos: usize = 0;
    assert(s@.skip(0) == s@);
    assert(views(out@) == Seq::<Seq<char>>::empty());
    loop
        invariant
            pos <= s.len(),
            views(out@) + split_on(s@.skip(pos as int), sep@) == split_on(s@, sep@),
        decreases s.len() - pos,
    {
        let rest = slice_subrange(s, pos, s.len());
        assert(rest@ == s@.skip(pos as int));
        let p = find(rest, sep);
        proof {
            lemma_match_from(rest@, sep@, 0);
        }
        let ghost before = views(out@);
        if sep.len() > 0 && p < rest.len() {
            let piece = slice_subrange(rest, 0, p);
            assert(piece@ == rest@.take(p as int));
            out.push(piece);
            assert(views(out@) == before.push(piece@));
            assert(rest@.skip(p + sep@.len()) == s@.skip(pos + p + sep@.len()));
            assert(before.push(piece@) + split_on(rest@.skip(p + sep@.len()), sep@) == before
                + split_on(rest@, sep@));
            pos = pos + p + sep.len();
        } else {
            out.push(rest);
            assert(views(out@) == before.push(rest@));
            assert(before.push(rest@) == before + split_on(rest@, sep@));
            return out;
        }
    }
}

/// The number of characters at the start of `s` that are not ASCII whitespace.
pub open spec fn word_len(s: Seq<char>) -> int
    decreases s.len(),
{
    if s.len() == 0 || ascii_whitespace(s[0]) {
        0
    } else {
        1 + word_len(s.drop_first())
    }
}

/// The words of `s`: its longest runs of characters that are not ASCII whitespace.
pub open spec fn words_of(s: Seq<char>) -> Seq<Seq<char>>
    decreases s.len(),
{
    if s.len() == 0 {
        Seq::empty()
    } else if ascii_whitespace(s[0]) {
        words_of(s.drop_first())
    } else {
        let n = word_len(s);
        if 0 < n <= s.len() {
            seq![s.take(n)] + words_of(s.skip(n))
        } else {
            Seq::empty()
        }
    }
}

/// The words of `s`: its longest runs of characters that are not ASCII whitespace.
pub fn words<'a>(s: &'a [char]) -> (r: Vec<&'a [char]>)
    ensures
        views(r@) == words_of(s@),
{
    let mut out: Vec<&'a [char]> = Vec::new();
    let mut pos: usize = 0;
    assert(s@.skip(0) == s@);
    assert(views(out@) == Seq::<Seq<char>>::empty());
    while pos < s.len()
        invariant
            pos <= s.len(),
            views(out@) + words_of(s@.skip(pos as int)) == words_of(s@),
        decreases s.len() - pos,
    {
        let ghost rest = s@.skip(pos as int);
        if is_ascii_whitespace(s[pos]) {
            assert(rest.drop_first() == s@.skip(pos + 1));
            pos += 1;
        } else {
            let mut end: usize = pos + 1;
            assert(rest.drop_first() == s@.skip(pos + 1));
            while end < s.len() && !is_ascii_whitespace(s[end])
                invariant
                    pos < end <= s.len(),
                    word_len(s@.skip(pos as int)) == (end - pos) + word_len(s@.skip(end as int)),
                decreases s.len() - end,
            {
                assert(s@.skip(end as int).drop_first() == s@.skip(end + 1));
                end += 1;
            }
            let word = slice_subrange(s, pos, end);
            let ghost before = views(out@);
            proof {
                assert(word_len(s@.skip(end as int)) == 0);
                assert(word@ == rest.take(end - pos));
                assert(rest.skip(end - pos) == s@.skip(end as int));
            }
            out.push(word);
            assert(views(out@) == before.push(word@));
            assert(before.push(word@) + words_of(s@.skip(end as int)) == before + words_of(rest));
            pos = end;
        }
    }
    assert(views(out@) + words_of(s@.skip(pos as int)) == views(out@));
    out
}

/// The pieces of `parts` in order, with `sep` between each two neighbours.
pub open spec fn joined(parts: Seq<Seq<char>>, sep: Seq<char>) -> Seq<char>
    decreases parts.len(),
{
    if parts.len() == 0 {
        Seq::empty()
    } else if parts.len() == 1 {
        parts[0]
    } else {
        joined(parts.drop_last(), sep) + sep + parts.last()
    }
}

} // verus!
