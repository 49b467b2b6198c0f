//! Character-sequence primitives shared by the parsers of this crate.
//!
//! Text is handled as a vector of `char`s, whose view is the `Seq<char>` that
//! the contracts speak of. Positions are character positions.

use vstd::prelude::*;
use vstd::std_specs::iter::IteratorSpec;

verus! {

/// `pat` occurs in `text` at position `at`.
pub open spec fn matches_at(text: Seq<char>, at: int, pat: Seq<char>) -> bool {
    &&& 0 <= at
    &&& at + pat.len() <= text.len()
    &&& text.subrange(at, at + pat.len()) == pat
}

/// `text` begins with `pat`.
pub open spec fn has_prefix(text: Seq<char>, pat: Seq<char>) -> bool {
    matches_at(text, 0, pat)
}

/// `text` ends with `pat`.
pub open spec fn has_suffix(text: Seq<char>, pat: Seq<char>) -> bool {
    pat.len() <= text.len() && matches_at(text, text.len() - pat.len(), pat)
}

/// The characters with the Unicode property `White_Space`.
pub open spec fn is_whitespace(c: char) -> bool {
    let n = c as u32;
    ||| 0x09 <= n <= 0x0D
    ||| n == 0x20
    ||| n == 0x85
    ||| n == 0xA0
    ||| n == 0x1680
    ||| 0x2000 <= n <= 0x200A
    ||| n == 0x2028
    ||| n == 0x2029
    ||| n == 0x202F
    ||| n == 0x205F
    ||| n == 0x3000
}

/// The ten ASCII decimal digits.
pub open spec fn is_digit(c: char) -> bool {
    0x30 <= (c as u32) <= 0x39
}

/// Copies the characters of `s` into a vector.
pub fn to_chars(s: &str) -> (out: Vec<char>)
    ensures
        out@ == s@,
{
    let mut out: Vec<char> = Vec::new();
    let mut it = s.chars();
    loop
        invariant
            out@ + it.remaining() == s@,
            it.obeys_prophetic_iter_laws(),
            it.decrease() is Some,
        ensures
            out@ == s@,
        decreases it.decrease()->0,
    {
        match it.next() {
            Some(c) => {
                out.push(c);
            },
            None => {
                break ;
            },
        }
    }
    out
}

/// `String::push` of the standard library: appends the character to the end
/// of the string.
pub assume_specification[ String::push ](s: &mut String, ch: char)
    ensures
        final(s)@ == old(s)@.push(ch),
;

/// Builds the string that holds the characters of `text`.
pub fn to_string(text: &Vec<char>) -> (out: String)
    ensures
        out@ == text@,
{
    let mut out = String::new();
    let mut i: usize = 0;
    while i < text.len()
        invariant
            i <= text.len(),
            out@ == text@.take(i as int),
        decreases text.len() - i,
    {
        out.push(text[i]);
        i += 1;
    }
    out
}

/// Whether `c` is whitespace.
pub fn char_is_whitespace(c: char) -> (b: bool)
    ensures
        b == is_whitespace(c),
{
    let n: u32 = c as u32;
    (0x09 <= n && n <= 0x0D) || n == 0x20 || n == 0x85 || n == 0xA0 || n == 0x1680 || (0x2000 <= n
        && n <= 0x200A) || n == 0x2028 || n == 0x2029 || n == 0x202F || n == 0x205F || n == 0x3000
}

/// Whether `c` is one of the digits `0` to `9`.
pub fn char_is_digit(c: char) -> (b: bool)
    ensures
        b == is_digit(c),
{
    let n: u32 = c as u32;
    0x30 <= n && n <= 0x39
}

/// The decimal digits of all scripts: the characters of the Unicode category
/// `Nd`, as of Unicode 16. Each line is one run of digits, most of them the
/// ten digits of one script.
pub open spec fn is_decimal_digit(c: char) -> bool {
    let n = c as u32;
    ||| 0x0030 <= n <= 0x0039
    ||| 0x0660 <= n <= 0x0669
    ||| 0x06F0 <= n <= 0x06F9
    ||| 0x07C0 <= n <= 0x07C9
    ||| 0x0966 <= n <= 0x096F
    ||| 0x09E6 <= n <= 0x09EF
    ||| 0x0A66 <= n <= 0x0A6F
    ||| 0x0AE6 <= n <= 0x0AEF
    ||| 0x0B66 <= n <= 0x0B6F
    ||| 0x0BE6 <= n <= 0x0BEF
    ||| 0x0C66 <= n <= 0x0C6F
    ||| 0x0CE6 <= n <= 0x0CEF
    ||| 0x0D66 <= n <= 0x0D6F
    ||| 0x0DE6 <= n <= 0x0DEF
    ||| 0x0E50 <= n <= 0x0E59
    ||| 0x0ED0 <= n <= 0x0ED9
    ||| 0x0F20 <= n <= 0x0F29
    ||| 0x1040 <= n <= 0x1049
    ||| 0x1090 <= n <= 0x1099
    ||| 0x17E0 <= n <= 0x17E9
    ||| 0x1810 <= n <= 0x1819
    ||| 0x1946 <= n <= 0x194F
    ||| 0x19D0 <= n <= 0x19D9
    ||| 0x1A80 <= n <= 0x1A89
    ||| 0x1A90 <= n <= 0x1A99
    ||| 0x1B50 <= n <= 0x1B59
    ||| 0x1BB0 <= n <= 0x1BB9
    ||| 0x1C40 <= n <= 0x1C49
    ||| 0x1C50 <= n <= 0x1C59
    ||| 0xA620 <= n <= 0xA629
    ||| 0xA8D0 <= n <= 0xA8D9
    ||| 0xA900 <= n <= 0xA909
    ||| 0xA9D0 <= n <= 0xA9D9
    ||| 0xA9F0 <= n <= 0xA9F9
    ||| 0xAA50 <= n <= 0xAA59
    ||| 0xABF0 <= n <= 0xABF9
    ||| 0xFF10 <= n <= 0xFF19
    ||| 0x104A0 <= n <= 0x104A9
    ||| 0x10D30 <= n <= 0x10D39
    ||| 0x10D40 <= n <= 0x10D49
    ||| 0x11066 <= n <= 0x1106F
    ||| 0x110F0 <= n <= 0x110F9
    ||| 0x11136 <= n <= 0x1113F
    ||| 0x111D0 <= n <= 0x111D9
    ||| 0x112F0 <= n <= 0x112F9
    ||| 0x11450 <= n <= 0x11459
    ||| 0x114D0 <= n <= 0x114D9
    ||| 0x11650 <= n <= 0x11659
    ||| 0x116C0 <= n <= 0x116C9
    ||| 0x116D0 <= n <= 0x116E3
    ||| 0x11730 <= n <= 0x11739
    ||| 0x118E0 <= n <= 0x118E9
    ||| 0x11950 <= n <= 0x11959
    ||| 0x11BF0 <= n <= 0x11BF9
    ||| 0x11C50 <= n <= 0x11C59
    ||| 0x11D50 <= n <= 0x11D59
    ||| 0x11DA0 <= n <= 0x11DA9
    ||| 0x11F50 <= n <= 0x11F59
    ||| 0x16130 <= n <= 0x16139
    ||| 0x16A60 <= n <= 0x16A69
    ||| 0x16AC0 <= n <= 0x16AC9
    ||| 0x16B50 <= n <= 0x16B59
    ||| 0x16D70 <= n <= 0x16D79
    ||| 0x1CCF0 <= n <= 0x1CCF9
    ||| 0x1D7CE <= n <= 0x1D7FF
    ||| 0x1E140 <= n <= 0x1E149
    ||| 0x1E2F0 <= n <= 0x1E2F9
    ||| 0x1E4F0 <= n <= 0x1E4F9
    ||| 0x1E5F1 <= n <= 0x1E5FA
    ||| 0x1E950 <= n <= 0x1E959
    ||| 0x1FBF0 <= n <= 0x1FBF9
}

/// Whether `c` is a decimal digit of any script.
pub fn char_is_decimal_digit(c: char) -> (b: bool)
    ensures
        b == is_decimal_digit(c),
{
    let n: u32 = c as u32;
    (0x0030 <= n && n <= 0x0039) || (0x0660 <= n && n <= 0x0669) ||
        (0x06F0 <= n && n <= 0x06F9) || (0x07C0 <= n && n <= 0x07C9) ||
        (0x0966 <= n && n <= 0x096F) || (0x09E6 <= n && n <= 0x09EF) ||
        (0x0A66 <= n && n <= 0x0A6F) || (0x0AE6 <= n && n <= 0x0AEF) ||
        (0x0B66 <= n && n <= 0x0B6F) || (0x0BE6 <= n && n <= 0x0BEF) ||
        (0x0C66 <= n && n <= 0x0C6F) || (0x0CE6 <= n && n <= 0x0CEF) ||
        (0x0D66 <= n && n <= 0x0D6F) || (0x0DE6 <= n && n <= 0x0DEF) ||
        (0x0E50 <= n && n <= 0x0E59) || (0x0ED0 <= n && n <= 0x0ED9) ||
        (0x0F20 <= n && n <= 0x0F29) || (0x1040 <= n && n <= 0x1049) ||
        (0x1090 <= n && n <= 0x1099) || (0x17E0 <= n && n <= 0x17E9) ||
        (0x1810 <= n && n <= 0x1819) || (0x1946 <= n && n <= 0x194F) ||
        (0x19D0 <= n && n <= 0x19D9) || (0x1A80 <= n && n <= 0x1A89) ||
        (0x1A90 <= n && n <= 0x1A99) || (0x1B50 <= n && n <= 0x1B59) ||
        (0x1BB0 <= n && n <= 0x1BB9) || (0x1C40 <= n && n <= 0x1C49) ||
        (0x1C50 <= n && n <= 0x1C59) || (0xA620 <= n && n <= 0xA629) ||
        (0xA8D0 <= n && n <= 0xA8D9) || (0xA900 <= n && n <= 0xA909) ||
        (0xA9D0 <= n && n <= 0xA9D9) || (0xA9F0 <= n && n <= 0xA9F9) ||
        (0xAA50 <= n && n <= 0xAA59) || (0xABF0 <= n && n <= 0xABF9) ||
        (0xFF10 <= n && n <= 0xFF19) || (0x104A0 <= n && n <= 0x104A9) ||
        (0x10D30 <= n && n <= 0x10D39) || (0x10D40 <= n && n <= 0x10D49) ||
        (0x11066 <= n && n <= 0x1106F) || (0x110F0 <= n && n <= 0x110F9) ||
        (0x11136 <= n && n <= 0x1113F) || (0x111D0 <= n && n <= 0x111D9) ||
        (0x112F0 <= n && n <= 0x112F9) || (0x11450 <= n && n <= 0x11459) ||
        (0x114D0 <= n && n <= 0x114D9) || (0x11650 <= n && n <= 0x11659) ||
        (0x116C0 <= n && n <= 0x116C9) || (0x116D0 <= n && n <= 0x116E3) ||
        (0x11730 <= n && n <= 0x11739) || (0x118E0 <= n && n <= 0x118E9) ||
        (0x11950 <= n && n <= 0x11959) || (0x11BF0 <= n && n <= 0x11BF9) ||
        (0x11C50 <= n && n <= 0x11C59) || (0x11D50 <= n && n <= 0x11D59) ||
        (0x11DA0 <= n && n <= 0x11DA9) || (0x11F50 <= n && n <= 0x11F59) ||
        (0x16130 <= n && n <= 0x16139) || (0x16A60 <= n && n <= 0x16A69) ||
        (0x16AC0 <= n && n <= 0x16AC9) || (0x16B50 <= n && n <= 0x16B59) ||
        (0x16D70 <= n && n <= 0x16D79) || (0x1CCF0 <= n && n <= 0x1CCF9) ||
        (0x1D7CE <= n && n <= 0x1D7FF) || (0x1E140 <= n && n <= 0x1E149) ||
        (0x1E2F0 <= n && n <= 0x1E2F9) || (0x1E4F0 <= n && n <= 0x1E4F9) ||
        (0x1E5F1 <= n && n <= 0x1E5FA) || (0x1E950 <= n && n <= 0x1E959) ||
        (0x1FBF0 <= n && n <= 0x1FBF9)
}

/// Whether `pat` occurs in `text` at position `at`.
pub fn occurs_at(text: &Vec<char>, at: usize, pat: &Vec<char>) -> (b: bool)
    ensures
        b == matches_at(text@, at as int, pat@),
{
    if at > text.len() || pat.len() > text.len() - at {
        return false;
    }
    let mut i: usize = 0;
    while i < pat.len()
        invariant
            i <= pat.len(),
            at + pat.len() <= text.len(),
            text@.subrange(at as int, at + i) == pat@.take(i as int),
        decreases pat.len() - i,
    {
        if text[at + i] != pat[i] {
            return false;
        }
        i += 1;
    }
    assert(pat@.take(pat.len() as int) == pat@);
    true
}

/// Whether `text` begins with `pat`.
pub fn starts_with(text: &Vec<char>, pat: &Vec<char>) -> (b: bool)
    ensures
        b == has_prefix(text@, pat@),
{
    occurs_at(text, 0, pat)
}

/// Whether `text` ends with `pat`.
pub fn ends_with(text: &Vec<char>, pat: &Vec<char>) -> (b: bool)
    ensures
        b == has_suffix(text@, pat@),
{
    if pat.len() > text.len() {
        return false;
    }
    occurs_at(text, text.len() - pat.len(), pat)
}

/// Whether two texts hold the same characters.
pub fn same_chars(a: &Vec<char>, b: &Vec<char>) -> (eq: bool)
    ensures
        eq == (a@ == b@),
{
    if a.len() != b.len() {
        return false;
    }
    let eq = occurs_at(a, 0, b);
    assert(a@.subrange(0, a@.len() as int) == a@);
    eq
}

/// Copies `text[from..to]`.
pub fn copy_range(text: &Vec<char>, from: usize, to: usize) -> (out: Vec<char>)
    requires
        from <= to <= text.len(),
    ensures
        out@ == text@.subrange(from as int, to as int),
{
    let mut out: Vec<char> = Vec::new();
    let mut i: usize = from;
    while i < to
        invariant
            from <= i <= to <= text.len(),
            out@ == text@.subrange(from as int, i as int),
        decreases to - i,
    {
        out.push(text[i]);
        i += 1;
    }
    out
}

/// Appends `src` to `dst`.
pub fn append(dst: &mut Vec<char>, src: &Vec<char>)
    ensures
        final(dst)@ == old(dst)@ + src@,
{
    let mut i: usize = 0;
    while i < src.len()
        invariant
            i <= src.len(),
            dst@ == old(dst)@ + src@.take(i as int),
        decreases src.len() - i,
    {
        dst.push(src[i]);
        i += 1;
    }
}

/// The first position at or after `from` at which `pat` occurs in `text`, or
/// the length of `text` if there is none.
pub open spec fn first_occurrence(text: Seq<char>, pat: Seq<char>, from: int) -> int
    decreases text.len() - from,
{
    if from < 0 || from >= text.len() || from + pat.len() > text.len() {
        text.len() as int
    } else if matches_at(text, from, pat) {
        from
    } else {
        first_occurrence(text, pat, from + 1)
    }
}

/// The first occurrence at or after a position stands at or after it, and is
/// an occurrence unless it is the end of the text.
pub proof fn lemma_first_occurrence_is_later(text: Seq<char>, pat: Seq<char>, from: int)
    requires
        0 <= from,
    ensures
        from <= text.len() ==> from <= first_occurrence(text, pat, from),
        first_occurrence(text, pat, from) <= text.len(),
        first_occurrence(text, pat, from) < text.len() ==> from <= first_occurrence(text, pat, from)
            && matches_at(text, first_occurrence(text, pat, from), pat),
    decreases text.len() - from,
{
    if from < text.len() && from + pat.len() <= text.len() && !matches_at(text, from, pat) {
        lemma_first_occurrence_is_later(text, pat, from + 1);
    }
}

/// Finds the first position at or after `from` at which `pat` occurs in
/// `text`; the length of `text` stands for "nowhere".
pub fn find(text: &Vec<char>, pat: &Vec<char>, from: usize) -> (at: usize)
    ensures
        at == first_occurrence(text@, pat@, from as int),
        from <= text.len() ==> from <= at <= text.len(),
        at < text.len() ==> at + pat.len() <= text.len(),
{
    let mut at: usize = from;
    while at < text.len() && pat.len() <= text.len() - at
        invariant
            from <= at,
            first_occurrence(text@, pat@, from as int) == first_occurrence(text@, pat@, at as int),
        decreases text.len() - at,
    {
        if occurs_at(text, at, pat) {
            return at;
        }
        at += 1;
    }
    text.len()
}

/// The first position at or after `from`, and before `to`, of a character
/// that is not whitespace; `to` if there is none.
pub open spec fn skip_whitespace(text: Seq<char>, from: int, to: int) -> int
    decreases to - from,
{
    if from >= to || from < 0 || from >= text.len() {
        to
    } else if !is_whitespace(text[from]) {
        from
    } else {
        skip_whitespace(text, from + 1, to)
    }
}

/// The end of `text[from..to]` once the whitespace at its end is cut off: the
/// position after the last character that is not whitespace, or `from`.
pub open spec fn drop_whitespace(text: Seq<char>, from: int, to: int) -> int
    decreases to - from,
{
    if to <= from || to > text.len() || to <= 0 {
        from
    } else if !is_whitespace(text[to - 1]) {
        to
    } else {
        drop_whitespace(text, from, to - 1)
    }
}

/// Where `text[from..to]` starts once the whitespace at its start is cut off.
pub fn trim_start(text: &Vec<char>, from: usize, to: usize) -> (at: usize)
    requires
        from <= to <= text.len(),
    ensures
        at == skip_whitespace(text@, from as int, to as int),
        from <= at <= to,
{
    let mut at: usize = from;
    while at < to && char_is_whitespace(text[at])
        invariant
            from <= at <= to <= text.len(),
            skip_whitespace(text@, from as int, to as int) == skip_whitespace(
                text@,
                at as int,
                to as int,
            ),
        decreases to - at,
    {
        at += 1;
    }
    at
}

/// Where `text[from..to]` ends once the whitespace at its end is cut off.
pub fn trim_end(text: &Vec<char>, from: usize, to: usize) -> (at: usize)
    requires
        from <= to <= text.len(),
    ensures
        at == drop_whitespace(text@, from as int, to as int),
        from <= at <= to,
{
    let mut at: usize = to;
    while at > from && char_is_whitespace(text[at - 1])
        invariant
            from <= at <= to <= text.len(),
            drop_whitespace(text@, from as int, to as int) == drop_whitespace(
                text@,
                from as int,
                at as int,
            ),
        decreases at - from,
    {
        at -= 1;
    }
    at
}

/// The pieces of `text` between the occurrences of `sep`. A text without
/// `sep` is one piece; `sep` at the start or at the end, or twice in a row,
/// leaves an empty piece.
pub open spec fn split(text: Seq<char>, sep: char) -> Seq<Seq<char>>
    decreases text.len(),
{
    if text.len() == 0 {
        seq![Seq::empty()]
    } else {
        let before = split(text.drop_last(), sep);
        if text.last() == sep {
            before.push(Seq::empty())
        } else {
            before.drop_last().push(before.last().push(text.last()))
        }
    }
}

/// What each of `texts` holds.
pub open spec fn chars_views(texts: Seq<Vec<char>>) -> Seq<Seq<char>> {
    texts.map_values(|t: Vec<char>| t@)
}

/// What a text holds, if there is one.
pub open spec fn text_view(text: Option<String>) -> Option<Seq<char>> {
    match text {
        Some(t) => Some(t@),
        None => None,
    }
}

/// What each of `texts` holds.
pub open spec fn text_views(texts: Seq<String>) -> Seq<Seq<char>> {
    texts.map_values(|t: String| t@)
}

/// Cuts `text` into its pieces between the occurrences of `sep`.
pub fn split_on(text: &Vec<char>, sep: char) -> (out: Vec<Vec<char>>)
    ensures
        chars_views(out@) == split(text@, sep),
        out@.len() > 0,
{
    let mut done: Vec<Vec<char>> = Vec::new();
    let mut current: Vec<char> = Vec::new();
    let mut i: usize = 0;
    while i < text.len()
        invariant
            i <= text.len(),
            split(text@.take(i as int), sep) == chars_views(done@).push(current@),
        decreases text.len() - i,
    {
        let c = text[i];
        proof {
            assert(text@.take(i + 1).drop_last() == text@.take(i as int));
        }
        if c == sep {
            done.push(current);
            current = Vec::new();
        } else {
            current.push(c);
        }
        i += 1;
    }
    done.push(current);
    proof {
        assert(text@.take(text.len() as int) == text@);
    }
    done
}

} // verus!
