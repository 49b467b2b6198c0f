//! Reading unified diffs.
//!
//! A diff is cut into one segment for each file, at the lines that start with
//! `diff --git a/`. In a segment, what stands before the first hunk header
//! names the file; what follows is the patch, hunk after hunk. A hunk header
//! has the form `@@ -a,b +c,d @@`, where `,b` and `,d` may be missing, and
//! says that the hunk starts at line `c` of the new file and spans `d` lines
//! of it, one if `d` is missing.

use crate::file_utils::file_filter::FileFilter;
use crate::file_utils::{lines_in_reach, FileDiffLines, LinesChangedOnly};
use crate::numbers::{magnitude, parse_u32};
use crate::text::{
    char_is_decimal_digit, char_is_whitespace, chars_views, copy_range, has_prefix,
    is_decimal_digit, is_whitespace, matches_at, occurs_at, same_chars, skip_whitespace, split,
    split_on, starts_with, text_view, to_chars, to_string, trim_start,
};
use std::ops::Range;
use vstd::prelude::*;

verus! {

/// The header of one hunk of a diff.
#[derive(Debug, Clone, Copy)]
pub struct DiffHunkHeader {
    /// The line at which the hunk starts in the old file.
    pub old_start: u32,
    /// The number of lines of the hunk in the old file.
    pub old_lines: u32,
    /// The line at which the hunk starts in the new file.
    pub new_start: u32,
    /// The number of lines of the hunk in the new file.
    pub new_lines: u32,
}

/// The two characters `@@` that open and close a hunk header.
pub open spec fn hunk_fence() -> Seq<char> {
    "@@"@
}

/// The first position at or after `from` of a character of `text` that is no
/// decimal digit of any script, or the length of `text`.
pub open spec fn digits_end(text: Seq<char>, from: int) -> int
    decreases text.len() - from,
{
    if from < 0 || from >= text.len() || !is_decimal_digit(text[from]) {
        from
    } else {
        digits_end(text, from + 1)
    }
}

/// Where a hunk header ends, and where it holds the start and the length of
/// the hunk in the new file.
pub struct HunkMark {
    /// The position after the header.
    pub end: int,
    /// The digits of the line at which the hunk starts are `start.0..start.1`.
    pub start: (int, int),
    /// The digits of the number of lines are `count.0..count.1`; there may be none.
    pub count: (int, int),
}

/// The position after an optional comma at `at`.
pub open spec fn after_comma(text: Seq<char>, at: int) -> int {
    if 0 <= at < text.len() && text[at] == ',' {
        at + 1
    } else {
        at
    }
}

/// `text` holds whitespace at `at` and the character `sign` after it.
pub open spec fn space_and_sign(text: Seq<char>, at: int, sign: char) -> bool {
    0 <= at && at + 1 < text.len() && is_whitespace(text[at]) && text[at + 1] == sign
}

/// The hunk header that starts at position `at` of `text`, if one does:
/// `@@`, whitespace, `-`, digits, optionally a comma and digits, whitespace,
/// `+`, digits, optionally a comma and digits, whitespace, `@@`. Each
/// whitespace is one character, and the digits may be of any script.
pub open spec fn hunk_header_at(text: Seq<char>, at: int) -> Option<HunkMark> {
    let old_from = at + 4;
    let old_to = digits_end(text, old_from);
    let old_count_to = digits_end(text, after_comma(text, old_to));
    let new_from = old_count_to + 2;
    let new_to = digits_end(text, new_from);
    let count_from = after_comma(text, new_to);
    let count_to = digits_end(text, count_from);
    if matches_at(text, at, hunk_fence()) && space_and_sign(text, at + 2, '-') && old_from < old_to
        && space_and_sign(text, old_count_to, '+') && new_from < new_to && 0 <= count_to
        < text.len() && is_whitespace(text[count_to]) && matches_at(
        text,
        count_to + 1,
        hunk_fence(),
    ) {
        Some(HunkMark { end: count_to + 3, start: (new_from, new_to), count: (count_from, count_to) })
    } else {
        None
    }
}

/// The first position at or after `from` at which a hunk header starts in
/// `text`, or the length of `text` if there is none.
pub open spec fn next_hunk(text: Seq<char>, from: int) -> int
    decreases text.len() - from,
{
    if from < 0 || from >= text.len() {
        text.len() as int
    } else if hunk_header_at(text, from) is Some {
        from
    } else {
        next_hunk(text, from + 1)
    }
}

/// The number that `digits` write, or one where they write none that a `u32`
/// holds: where there is none, where the number is too large, and where a
/// digit is not one of `0` to `9`.
pub open spec fn number_or_one(digits: Seq<char>) -> u32 {
    match magnitude(digits, u32::MAX as int) {
        Some(n) => n as u32,
        None => 1,
    }
}

/// One hunk of a patch.
pub struct Hunk {
    /// The line of the new file at which the hunk starts.
    pub start: u32,
    /// The number of lines of the new file that the hunk spans.
    pub count: u32,
    /// What follows the header, up to the next header or the end.
    pub body: Seq<char>,
}

/// The hunks of `text` from position `from` on, in order. Each reaches from
/// the end of its header to the next header, or to the end of `text`.
pub open spec fn hunks(text: Seq<char>, from: int) -> Seq<Hunk>
    decreases text.len() - from,
    via hunks_decreases
{
    let at = next_hunk(text, from);
    if 0 <= from && at < text.len() {
        let mark = hunk_header_at(text, at)->0;
        let next = next_hunk(text, mark.end);
        seq![
            Hunk {
                start: number_or_one(text.subrange(mark.start.0, mark.start.1)),
                count: number_or_one(text.subrange(mark.count.0, mark.count.1)),
                body: text.subrange(mark.end, next),
            },
        ] + hunks(text, next)
    } else {
        Seq::empty()
    }
}

#[via_fn]
proof fn hunks_decreases(text: Seq<char>, from: int) {
    let at = next_hunk(text, from);
    if 0 <= from && at < text.len() {
        lemma_next_hunk_is_fixed(text, from);
        lemma_hunk_header_ends_later(text, at);
        let mark = hunk_header_at(text, at)->0;
        lemma_next_hunk_is_fixed(text, mark.end);
    }
}

/// The digits that start at a position end at or after it.
proof fn lemma_digits_end_later(text: Seq<char>, from: int)
    requires
        0 <= from,
    ensures
        from <= digits_end(text, from),
        from <= text.len() ==> digits_end(text, from) <= text.len(),
    decreases text.len() - from,
{
    if from < text.len() && is_decimal_digit(text[from]) {
        lemma_digits_end_later(text, from + 1);
    }
}

/// A hunk header ends after the position at which it starts, within the text.
proof fn lemma_hunk_header_ends_later(text: Seq<char>, at: int)
    requires
        0 <= at,
        hunk_header_at(text, at) is Some,
    ensures
        at < hunk_header_at(text, at)->0.end <= text.len(),
        at <= hunk_header_at(text, at)->0.start.0 <= hunk_header_at(text, at)->0.start.1
            <= text.len(),
        at <= hunk_header_at(text, at)->0.count.0 <= hunk_header_at(text, at)->0.count.1
            <= text.len(),
{
    reveal_strlit("@@");
    let old_to = digits_end(text, at + 4);
    lemma_digits_end_later(text, at + 4);
    lemma_digits_end_later(text, after_comma(text, old_to));
    let old_count_to = digits_end(text, after_comma(text, old_to));
    lemma_digits_end_later(text, old_count_to + 2);
    let new_to = digits_end(text, old_count_to + 2);
    lemma_digits_end_later(text, after_comma(text, new_to));
}

/// The lines that a hunk spans in the new file. A span that would go past
/// the largest line number ends there.
pub open spec fn hunk_range(hunk: Hunk) -> Range<u32> {
    Range {
        start: hunk.start,
        end: if hunk.start + hunk.count > u32::MAX {
            u32::MAX
        } else {
            (hunk.start + hunk.count) as u32
        },
    }
}

/// A line that tells of an addition.
pub open spec fn is_addition(line: Seq<char>) -> bool {
    line.len() > 0 && line[0] == '+'
}

/// A line that tells of a removal.
pub open spec fn is_removal(line: Seq<char>) -> bool {
    line.len() > 0 && line[0] == '-'
}

/// By how much the line counter has moved once `lines` were read: by one for
/// each line that is no removal, the first line apart, which is the rest of
/// the header's line.
pub open spec fn advance(lines: Seq<Seq<char>>) -> int
    decreases lines.len(),
{
    if lines.len() <= 1 {
        0
    } else if is_removal(lines.last()) {
        advance(lines.drop_last())
    } else {
        advance(lines.drop_last()) + 1
    }
}

/// The numbers in the new file of the added lines among `lines`, the lines of
/// a hunk that starts at line `start`. A line is numbered by the counter as
/// it stands when the line is read. Numbers that no range of `u32` bounds can
/// hold are left out.
pub open spec fn added_among(lines: Seq<Seq<char>>, start: int) -> Seq<u32>
    decreases lines.len(),
{
    if lines.len() == 0 {
        Seq::empty()
    } else {
        let before = added_among(lines.drop_last(), start);
        let number = start + advance(lines.drop_last());
        if is_addition(lines.last()) && number < u32::MAX {
            before.push(number as u32)
        } else {
            before
        }
    }
}

/// The added lines of `hunks`, hunk after hunk.
pub open spec fn added_lines_of(hunks: Seq<Hunk>) -> Seq<u32>
    decreases hunks.len(),
{
    if hunks.len() == 0 {
        Seq::empty()
    } else {
        added_lines_of(hunks.drop_last()) + added_among(
            split(hunks.last().body, '\n'),
            hunks.last().start as int,
        )
    }
}

/// The ranges of `hunks`, in order.
pub open spec fn ranges_of(hunks: Seq<Hunk>) -> Seq<Range<u32>> {
    hunks.map_values(|h: Hunk| hunk_range(h))
}

/// Finds the end of the digits that start at `from`.
fn scan_digits(text: &Vec<char>, from: usize) -> (to: usize)
    requires
        from <= text.len(),
    ensures
        to == digits_end(text@, from as int),
        from <= to <= text.len(),
{
    let mut to: usize = from;
    while to < text.len() && char_is_decimal_digit(text[to])
        invariant
            from <= to <= text.len(),
            digits_end(text@, from as int) == digits_end(text@, to as int),
        decreases text.len() - to,
    {
        to += 1;
    }
    to
}

/// Steps over a comma at `at`, if there is one.
fn skip_comma(text: &Vec<char>, at: usize) -> (to: usize)
    requires
        at <= text.len(),
    ensures
        to == after_comma(text@, at as int),
        at <= to <= text.len(),
{
    if at < text.len() && text[at] == ',' {
        at + 1
    } else {
        at
    }
}

/// Whether `text` holds whitespace at `at` and `sign` after it.
fn has_space_and_sign(text: &Vec<char>, at: usize, sign: char) -> (b: bool)
    ensures
        b == space_and_sign(text@, at as int, sign),
{
    at < text.len() && text.len() - at > 1 && char_is_whitespace(text[at]) && text[at + 1] == sign
}

/// Where a hunk header was found, and what it says of the new file.
struct FoundHeader {
    end: usize,
    start: u32,
    count: u32,
}

/// Reads the hunk header that starts at `at`, if one does.
fn read_hunk_header(text: &Vec<char>, at: usize, fence: &Vec<char>) -> (found: Option<FoundHeader>)
    requires
        at < text.len(),
        fence@ == hunk_fence(),
        fence@.len() == 2,
    ensures
        found is Some <==> hunk_header_at(text@, at as int) is Some,
        found matches Some(header) ==> ({
            let mark = hunk_header_at(text@, at as int)->0;
            &&& header.end == mark.end
            &&& at < header.end <= text.len()
            &&& header.start == number_or_one(text@.subrange(mark.start.0, mark.start.1))
            &&& header.count == number_or_one(text@.subrange(mark.count.0, mark.count.1))
        }),
{
    if !occurs_at(text, at, fence) || !has_space_and_sign(text, at + 2, '-') {
        return None;
    }
    let old_from = at + 4;
    let old_to = scan_digits(text, old_from);
    if old_to == old_from {
        return None;
    }
    let old_count_from = skip_comma(text, old_to);
    let old_count_to = scan_digits(text, old_count_from);
    if !has_space_and_sign(text, old_count_to, '+') {
        return None;
    }
    let new_from = old_count_to + 2;
    let new_to = scan_digits(text, new_from);
    if new_to == new_from {
        return None;
    }
    let count_from = skip_comma(text, new_to);
    let count_to = scan_digits(text, count_from);
    if count_to >= text.len() || !char_is_whitespace(text[count_to]) || !occurs_at(
        text,
        count_to + 1,
        fence,
    ) {
        return None;
    }
    let start = number_of(text, new_from, new_to);
    let count = number_of(text, count_from, count_to);
    Some(FoundHeader { end: count_to + 3, start, count })
}

/// Reads the digits `text[from..to]` as a number; one, where they give none.
fn number_of(text: &Vec<char>, from: usize, to: usize) -> (number: u32)
    requires
        from <= to <= text.len(),
    ensures
        number == number_or_one(text@.subrange(from as int, to as int)),
{
    let digits = copy_range(text, from, to);
    // A sign is no digit.
    if digits.len() > 0 && digits[0] == '+' {
        return 1;
    }
    match parse_u32(&digits) {
        Some(n) => n,
        None => 1,
    }
}

/// Finds the first hunk header at or after `from`.
fn find_hunk(text: &Vec<char>, from: usize, fence: &Vec<char>) -> (found: (usize, Option<FoundHeader>))
    requires
        from <= text.len(),
        fence@ == hunk_fence(),
        fence@.len() == 2,
    ensures
        found.0 == next_hunk(text@, from as int),
        from <= found.0 <= text.len(),
        found.1 is Some <==> found.0 < text.len(),
        found.1 matches Some(header) ==> ({
            let mark = hunk_header_at(text@, found.0 as int)->0;
            &&& hunk_header_at(text@, found.0 as int) is Some
            &&& header.end == mark.end
            &&& found.0 < header.end <= text.len()
            &&& header.start == number_or_one(text@.subrange(mark.start.0, mark.start.1))
            &&& header.count == number_or_one(text@.subrange(mark.count.0, mark.count.1))
        }),
{
    let mut at: usize = from;
    while at < text.len()
        invariant
            from <= at <= text.len(),
            fence@ == hunk_fence(),
            fence@.len() == 2,
            next_hunk(text@, from as int) == next_hunk(text@, at as int),
        decreases text.len() - at,
    {
        match read_hunk_header(text, at, fence) {
            Some(header) => {
                return (at, Some(header));
            },
            None => {},
        }
        at += 1;
    }
    (text.len(), None)
}

/// Numbers the added lines among the lines of a hunk that starts at `start`.
fn number_added_lines(body: &Vec<char>, start: u32, additions: &mut Vec<u32>)
    requires
        lines_in_reach(old(additions)@),
    ensures
        final(additions)@ == old(additions)@ + added_among(split(body@, '\n'), start as int),
        lines_in_reach(final(additions)@),
{
    let lines = split_on(body, '\n');
    let ghost all = split(body@, '\n');
    let mut counter: u32 = start;
    let mut i: usize = 0;
    while i < lines.len()
        invariant
            i <= lines.len(),
            all == chars_views(lines@),
            lines_in_reach(additions@),
            additions@ == old(additions)@ + added_among(all.take(i as int), start as int),
            counter == if start + advance(all.take(i as int)) > u32::MAX {
                u32::MAX as int
            } else {
                start + advance(all.take(i as int))
            },
            advance(all.take(i as int)) >= 0,
        decreases lines.len() - i,
    {
        let line = &lines[i];
        proof {
            assert(all.take(i + 1).drop_last() == all.take(i as int));
        }
        if line.len() > 0 && line[0] == '+' && counter < u32::MAX {
            additions.push(counter);
        }
        if i > 0 && !(line.len() > 0 && line[0] == '-') && counter < u32::MAX {
            counter += 1;
        }
        i += 1;
    }
    assert(all.take(lines.len() as int) == all);
}

/// Reads a patch: the text of one file's hunks, from the first hunk header
/// on. Returns the numbers of the added lines and the ranges of the hunks,
/// both as lines of the new file.
pub fn parse_patch(patch: &str) -> (lines: (Vec<u32>, Vec<Range<u32>>))
    ensures
        lines.0@ == added_lines_of(hunks(patch@, 0)),
        lines.1@ == ranges_of(hunks(patch@, 0)),
        lines_in_reach(lines.0@),
{
    let text = to_chars(patch);
    read_patch(&text)
}

/// Reads a patch from its characters. See [`parse_patch`].
pub fn read_patch(text: &Vec<char>) -> (lines: (Vec<u32>, Vec<Range<u32>>))
    ensures
        lines.0@ == added_lines_of(hunks(text@, 0)),
        lines.1@ == ranges_of(hunks(text@, 0)),
        lines_in_reach(lines.0@),
{
    let fence = to_chars("@@");
    proof {
        reveal_strlit("@@");
    }
    let mut additions: Vec<u32> = Vec::new();
    let mut ranges: Vec<Range<u32>> = Vec::new();
    let ghost mut seen: Seq<Hunk> = Seq::empty();
    let (mut at, mut header) = find_hunk(text, 0, &fence);
    loop
        invariant_except_break
            hunks(text@, 0) == seen + hunks(text@, at as int),
        invariant
            fence@ == hunk_fence(),
            fence@.len() == 2,
            at <= text.len(),
            at == next_hunk(text@, at as int),
            header is Some <==> at < text.len(),
            header matches Some(found) ==> ({
                let mark = hunk_header_at(text@, at as int)->0;
                &&& hunk_header_at(text@, at as int) is Some
                &&& found.end == mark.end
                &&& at < found.end <= text.len()
                &&& found.start == number_or_one(text@.subrange(mark.start.0, mark.start.1))
                &&& found.count == number_or_one(text@.subrange(mark.count.0, mark.count.1))
            }),
            additions@ == added_lines_of(seen),
            ranges@ == ranges_of(seen),
            lines_in_reach(additions@),
        ensures
            additions@ == added_lines_of(hunks(text@, 0)),
            ranges@ == ranges_of(hunks(text@, 0)),
            lines_in_reach(additions@),
        decreases text.len() - at,
    {
        let found = match header {
            Some(found) => found,
            None => {
                break ;
            },
        };
        let (next, next_header) = find_hunk(text, found.end, &fence);
        let body = copy_range(text, found.end, next);
        let ghost hunk = Hunk { start: found.start, count: found.count, body: body@ };
        let end = match found.start.checked_add(found.count) {
            Some(end) => end,
            None => u32::MAX,
        };
        ranges.push(Range { start: found.start, end });
        number_added_lines(&body, found.start, &mut additions);
        proof {
            let grown = seen.push(hunk);
            assert(grown.drop_last() == seen);
            seen = grown;
            lemma_next_hunk_is_fixed(text@, found.end as int);
        }
        at = next;
        header = next_header;
    }
    (additions, ranges)
}

/// The first hunk header at or after a position stands at or after it, and is
/// a hunk header unless it is the end of the text.
proof fn lemma_next_hunk_is_fixed(text: Seq<char>, from: int)
    requires
        0 <= from,
    ensures
        next_hunk(text, next_hunk(text, from)) == next_hunk(text, from),
        from <= text.len() ==> from <= next_hunk(text, from),
        next_hunk(text, from) <= text.len(),
        next_hunk(text, from) < text.len() ==> from <= next_hunk(text, from) && hunk_header_at(
            text,
            next_hunk(text, from),
        ) is Some,
    decreases text.len() - from,
{
    if from < text.len() && hunk_header_at(text, from) is None {
        lemma_next_hunk_is_fixed(text, from + 1);
    }
}

/// What starts the line that cuts a diff into the segments of its files.
pub open spec fn file_delimiter() -> Seq<char> {
    "diff --git a/"@
}

/// Position `at` of `text` is the start of a line.
pub open spec fn line_start(text: Seq<char>, at: int) -> bool {
    at == 0 || (0 < at <= text.len() && text[at - 1] == '\n')
}

/// The end of the line that holds position `from`: the position of the next
/// line break, or the length of `text`.
pub open spec fn line_end(text: Seq<char>, from: int) -> int
    decreases text.len() - from,
{
    if from < 0 || from >= text.len() {
        text.len() as int
    } else if text[from] == '\n' {
        from
    } else {
        line_end(text, from + 1)
    }
}

/// A line that cuts the diff starts at position `at`.
pub open spec fn delimiter_at(text: Seq<char>, at: int) -> bool {
    line_start(text, at) && matches_at(text, at, file_delimiter())
}

/// The first position at or after `from` of a line that cuts the diff, or the
/// length of `text` if there is none.
pub open spec fn next_delimiter(text: Seq<char>, from: int) -> int
    decreases text.len() - from,
{
    if from < 0 || from >= text.len() {
        text.len() as int
    } else if delimiter_at(text, from) {
        from
    } else {
        next_delimiter(text, from + 1)
    }
}

/// The segments of `text` from position `from` on: what stands between the
/// lines that cut the diff, before the first and after the last of them. The
/// cutting lines themselves belong to no segment; the line break after one
/// starts the next segment.
pub open spec fn segments(text: Seq<char>, from: int) -> Seq<Seq<char>>
    decreases text.len() - from,
    via segments_decreases
{
    let at = next_delimiter(text, from);
    if 0 <= from && at < text.len() {
        seq![text.subrange(from, at)] + segments(text, line_end(text, at))
    } else {
        seq![text.subrange(from, text.len() as int)]
    }
}

#[via_fn]
proof fn segments_decreases(text: Seq<char>, from: int) {
    let at = next_delimiter(text, from);
    if 0 <= from && at < text.len() {
        lemma_next_delimiter_is_later(text, from);
        lemma_line_ends_later(text, at + 1);
        reveal_strlit("diff --git a/");
        assert(text.subrange(at, at + 13)[0] == 'd');
    }
}

/// The first cutting line at or after a position stands at or after it, and
/// is a cutting line unless it is the end of the text.
proof fn lemma_next_delimiter_is_later(text: Seq<char>, from: int)
    requires
        0 <= from,
    ensures
        from <= text.len() ==> from <= next_delimiter(text, from),
        next_delimiter(text, from) <= text.len(),
        next_delimiter(text, from) < text.len() ==> from <= next_delimiter(text, from)
            && delimiter_at(text, next_delimiter(text, from)),
    decreases text.len() - from,
{
    if from < text.len() && !delimiter_at(text, from) {
        lemma_next_delimiter_is_later(text, from + 1);
    }
}

/// A line ends at or after each of its positions.
proof fn lemma_line_ends_later(text: Seq<char>, from: int)
    requires
        0 <= from,
    ensures
        from <= text.len() ==> from <= line_end(text, from),
        line_end(text, from) <= text.len(),
    decreases text.len() - from,
{
    if from < text.len() && text[from] != '\n' {
        lemma_line_ends_later(text, from + 1);
    }
}

/// The two kinds of line that name the file of a segment.
#[derive(Debug, PartialEq, Eq, Structural, Clone, Copy)]
pub enum NameLine {
    /// `+++ b/<name>` or `+++ /<name>`: the file in its new state.
    NewFile,
    /// `rename to <name>`: the new name of a renamed file.
    RenameTo,
}

/// Where the name starts on a line of kind `kind` that starts at `at`, if
/// such a line does start there.
pub open spec fn name_start(text: Seq<char>, at: int, kind: NameLine) -> Option<int> {
    match kind {
        NameLine::NewFile => {
            if matches_at(text, at, "+++"@) && at + 4 < text.len() && is_whitespace(text[at + 3]) {
                if text[at + 4] == 'b' {
                    if at + 5 < text.len() && text[at + 5] == '/' {
                        Some(at + 6)
                    } else {
                        None
                    }
                } else if text[at + 4] == '/' {
                    Some(at + 5)
                } else {
                    None
                }
            } else {
                None
            }
        },
        NameLine::RenameTo => {
            if matches_at(text, at, "rename to "@) {
                Some(at + 10)
            } else {
                None
            }
        },
    }
}

/// The name on the first line of kind `kind` that starts at or after `from`:
/// what stands from the start of the name to the end of its line.
pub open spec fn first_name(text: Seq<char>, from: int, kind: NameLine) -> Option<Seq<char>>
    decreases text.len() - from,
{
    if from < 0 || from >= text.len() {
        None
    } else if line_start(text, from) && name_start(text, from, kind) is Some {
        let start = name_start(text, from, kind)->0;
        Some(text.subrange(start, line_end(text, start)))
    } else {
        first_name(text, from + 1, kind)
    }
}

/// The name of the file that the front matter of a segment tells of: that of
/// its first line `+++ b/<name>`; else, where the front matter starts with
/// `similarity`, that of its first line `rename to <name>`; else none.
pub open spec fn front_matter_name(front: Seq<char>) -> Option<Seq<char>> {
    match first_name(front, 0, NameLine::NewFile) {
        Some(name) => Some(name),
        None => if has_prefix(front, "similarity"@) {
            first_name(front, 0, NameLine::RenameTo)
        } else {
            None
        },
    }
}

/// `name` without one slash at its start.
pub open spec fn unrooted(name: Seq<char>) -> Seq<char> {
    if name.len() > 0 && name[0] == '/' {
        name.skip(1)
    } else {
        name
    }
}

/// What a diff says of one file.
pub struct FileEntry {
    /// The file's path.
    pub name: Seq<char>,
    /// The numbers of the added lines.
    pub added: Seq<u32>,
    /// The ranges of the hunks.
    pub hunks: Seq<Range<u32>>,
}

/// Some entry of `entries` is about the file `name`.
pub open spec fn has_entry(entries: Seq<FileEntry>, name: Seq<char>) -> bool {
    exists|i: int| 0 <= i < entries.len() && (#[trigger] entries[i]).name == name
}

/// `entries` with `entry` added at the end, unless its file has an entry
/// already: the first entry of a file stays.
pub open spec fn with_entry(entries: Seq<FileEntry>, entry: FileEntry) -> Seq<FileEntry> {
    if has_entry(entries, entry.name) {
        entries
    } else {
        entries.push(entry)
    }
}

/// What one segment of a diff says, if it says anything that counts.
///
/// An empty segment says nothing, nor does one whose front matter starts
/// with `deleted file`, whitespace apart, or names no file, or names a file
/// that is not in scope. Of the others the patch is read, from the first
/// hunk header on, and the mode decides whether what it holds counts.
pub open spec fn segment_entry(
    segment: Seq<char>,
    filter: FileFilter,
    mode: LinesChangedOnly,
) -> Option<FileEntry> {
    let patch_start = next_hunk(segment, 0);
    let front = segment.subrange(0, patch_start);
    let matter = front.skip(skip_whitespace(front, 0, front.len() as int));
    let patch = hunks(segment.skip(patch_start), 0);
    if segment.len() == 0 || has_prefix(matter, "deleted file"@) {
        None
    } else {
        match front_matter_name(matter) {
            Some(name) => if filter.in_scope(unrooted(name)) && mode.accepts(
                added_lines_of(patch).len() > 0,
                patch.len() > 0,
            ) {
                Some(
                    FileEntry {
                        name: unrooted(name),
                        added: added_lines_of(patch),
                        hunks: ranges_of(patch),
                    },
                )
            } else {
                None
            },
            None => None,
        }
    }
}

/// What `segments` say, file by file. The first entry of a file stays.
pub open spec fn entries_of(
    segments: Seq<Seq<char>>,
    filter: FileFilter,
    mode: LinesChangedOnly,
) -> Seq<FileEntry>
    decreases segments.len(),
{
    if segments.len() == 0 {
        Seq::empty()
    } else {
        let before = entries_of(segments.drop_last(), filter, mode);
        match segment_entry(segments.last(), filter, mode) {
            Some(entry) => with_entry(before, entry),
            None => before,
        }
    }
}

/// What the diff `text` says, file by file.
pub open spec fn parsed_diff(text: Seq<char>, filter: FileFilter, mode: LinesChangedOnly) -> Seq<
    FileEntry,
> {
    entries_of(segments(text, 0), filter, mode)
}

/// The changes to one file.
#[derive(Debug, Clone)]
pub struct ChangedFile {
    /// The file's path.
    pub name: String,
    /// The file's changed lines.
    pub lines: FileDiffLines,
}

impl View for ChangedFile {
    type V = FileEntry;

    open spec fn view(&self) -> FileEntry {
        FileEntry {
            name: self.name@,
            added: self.lines.added_lines@,
            hunks: self.lines.diff_hunks@,
        }
    }
}

/// The changed files of a diff, each once, in the order in which the diff
/// first tells of them. The record of each file is well-formed.
#[derive(Debug)]
pub struct FileChanges {
    entries: Vec<ChangedFile>,
}

impl View for FileChanges {
    type V = Seq<FileEntry>;

    closed spec fn view(&self) -> Seq<FileEntry> {
        file_views(self.entries@)
    }
}

/// No two of `entries` are about the same file.
pub open spec fn names_differ(entries: Seq<FileEntry>) -> bool {
    forall|i: int, j: int|
        0 <= i < j < entries.len() ==> (#[trigger] entries[i]).name != (#[trigger] entries[j]).name
}

/// What each of `files` says.
pub open spec fn file_views(files: Seq<ChangedFile>) -> Seq<FileEntry> {
    files.map_values(|f: ChangedFile| f@)
}

impl FileChanges {
    #[verifier::type_invariant]
    spec fn well_formed(&self) -> bool {
        &&& names_differ(self@)
        &&& forall|i: int|
            0 <= i < self.entries@.len() ==> (#[trigger] self.entries@[i]).lines.well_formed()
    }

    /// No file.
    pub fn new() -> (files: Self)
        ensures
            files@.len() == 0,
    {
        let entries: Vec<ChangedFile> = Vec::new();
        FileChanges { entries }
    }

    /// The number of files.
    pub fn len(&self) -> (n: usize)
        ensures
            n == self@.len(),
    {
        self.entries.len()
    }

    /// Whether there is no file.
    pub fn is_empty(&self) -> (empty: bool)
        ensures
            empty == (self@.len() == 0),
    {
        self.entries.len() == 0
    }

    /// The files and their changes, in order: no file twice, and each record
    /// well-formed.
    pub fn entries(&self) -> (entries: &Vec<ChangedFile>)
        ensures
            file_views(entries@) == self@,
            names_differ(self@),
            forall|i: int| 0 <= i < entries@.len() ==> (#[trigger] entries@[i]).lines.well_formed(),
    {
        proof {
            use_type_invariant(self);
        }
        &self.entries
    }

    /// The position of the entry of the file `name`, if it has one.
    pub fn position(&self, name: &str) -> (at: Option<usize>)
        ensures
            at is Some <==> has_entry(self@, name@),
            at matches Some(i) ==> i < self@.len() && self@[i as int].name == name@ && forall|k: int|
                0 <= k < i ==> self@[k].name != name@,
    {
        let wanted = to_chars(name);
        let mut i: usize = 0;
        while i < self.entries.len()
            invariant
                i <= self.entries.len(),
                wanted@ == name@,
                forall|k: int| 0 <= k < i ==> (#[trigger] self@[k]).name != name@,
            decreases self.entries.len() - i,
        {
            assert(self@[i as int] == self.entries@[i as int]@);
            let here = to_chars(self.entries[i].name.as_str());
            if same_chars(&here, &wanted) {
                return Some(i);
            }
            i += 1;
        }
        None
    }

    /// Whether the file `name` has an entry.
    pub fn contains_key(&self, name: &str) -> (found: bool)
        ensures
            found == has_entry(self@, name@),
    {
        self.position(name).is_some()
    }

    /// The changes to the file `name`, if it has an entry.
    pub fn get(&self, name: &str) -> (lines: Option<&FileDiffLines>)
        ensures
            lines is Some <==> has_entry(self@, name@),
            lines matches Some(found) ==> found.well_formed() && exists|i: int|
                0 <= i < self@.len() && #[trigger] self@[i] == (FileEntry {
                    name: name@,
                    added: found.added_lines@,
                    hunks: found.diff_hunks@,
                }),
    {
        proof {
            use_type_invariant(self);
        }
        match self.position(name) {
            Some(i) => {
                Some(&self.entries[i].lines)
            },
            None => None,
        }
    }

    /// Takes the entries out, and leaves none.
    fn take_entries(&mut self) -> (entries: Vec<ChangedFile>)
        ensures
            entries == old(self).entries,
            final(self).entries@.len() == 0,
    {
        let empty: Vec<ChangedFile> = Vec::new();
        let mut taken = FileChanges { entries: empty };
        std::mem::swap(self, &mut taken);
        taken.entries
    }

    /// Adds an entry for the file `name`, unless the file has one.
    pub fn insert_first(&mut self, name: String, lines: FileDiffLines)
        requires
            lines.well_formed(),
        ensures
            final(self)@ == with_entry(
                old(self)@,
                FileEntry { name: name@, added: lines.added_lines@, hunks: lines.diff_hunks@ },
            ),
    {
        proof {
            use_type_invariant(&*self);
        }
        if !self.contains_key(name.as_str()) {
            let ghost before = self@;
            let file = ChangedFile { name, lines };
            let mut entries = self.take_entries();
            entries.push(file);
            proof {
                let after = file_views(entries@);
                assert(after == before.push(file@));
            }
            *self = FileChanges { entries };
        }
    }

    /// Adds an entry without changed lines for the file `name`, unless the
    /// file has an entry.
    pub fn insert_unchanged(&mut self, name: String)
        ensures
            final(self)@ == with_entry(
                old(self)@,
                FileEntry { name: name@, added: Seq::empty(), hunks: Seq::empty() },
            ),
    {
        self.insert_first(name, FileDiffLines::default());
    }
}

/// Finds the end of the line that holds position `from`.
fn find_line_end(text: &Vec<char>, from: usize) -> (end: usize)
    requires
        from <= text.len(),
    ensures
        end == line_end(text@, from as int),
        from <= end <= text.len(),
{
    let mut end: usize = from;
    while end < text.len() && text[end] != '\n'
        invariant
            from <= end <= text.len(),
            line_end(text@, from as int) == line_end(text@, end as int),
        decreases text.len() - end,
    {
        end += 1;
    }
    end
}

/// Whether position `at` is the start of a line.
fn is_line_start(text: &Vec<char>, at: usize) -> (b: bool)
    requires
        at <= text.len(),
    ensures
        b == line_start(text@, at as int),
{
    at == 0 || text[at - 1] == '\n'
}

/// Finds where the name starts on a line of kind `kind` that starts at `at`.
fn read_name_start(text: &Vec<char>, at: usize, kind: NameLine) -> (start: Option<usize>)
    requires
        at < text.len(),
    ensures
        start == match name_start(text@, at as int, kind) {
            Some(s) => Some(s as usize),
            None => None,
        },
        start matches Some(s) ==> at < s <= text.len() && name_start(text@, at as int, kind)
            == Some(s as int),
{
    match kind {
        NameLine::NewFile => {
            let marker = to_chars("+++");
            proof {
                reveal_strlit("+++");
            }
            if occurs_at(text, at, &marker) && text.len() - at > 4 && char_is_whitespace(
                text[at + 3],
            ) {
                if text[at + 4] == 'b' {
                    if text.len() - at > 5 && text[at + 5] == '/' {
                        Some(at + 6)
                    } else {
                        None
                    }
                } else if text[at + 4] == '/' {
                    Some(at + 5)
                } else {
                    None
                }
            } else {
                None
            }
        },
        NameLine::RenameTo => {
            let marker = to_chars("rename to ");
            proof {
                reveal_strlit("rename to ");
            }
            if occurs_at(text, at, &marker) {
                Some(at + 10)
            } else {
                None
            }
        },
    }
}

/// Finds the name on the first line of kind `kind`.
fn find_first_name(text: &Vec<char>, kind: NameLine) -> (name: Option<Vec<char>>)
    ensures
        match first_name(text@, 0, kind) {
            Some(found) => name matches Some(n) && n@ == found,
            None => name is None,
        },
{
    let mut at: usize = 0;
    while at < text.len()
        invariant
            at <= text.len(),
            first_name(text@, 0, kind) == first_name(text@, at as int, kind),
        decreases text.len() - at,
    {
        if is_line_start(text, at) {
            match read_name_start(text, at, kind) {
                Some(start) => {
                    let end = find_line_end(text, start);
                    return Some(copy_range(text, start, end));
                },
                None => {},
            }
        }
        at += 1;
    }
    None
}

/// Reads the name of a file from the front matter of its segment: what
/// stands before the first hunk header, without the whitespace at its start.
///
/// The name is that of the first line `+++ b/<name>`; else, where the front
/// matter starts with `similarity`, that of the first line
/// `rename to <name>`. Front matter without either, such as that of a binary
/// file, names no file.
pub fn get_filename_from_front_matter(front_matter: &str) -> (name: Option<String>)
    ensures
        text_view(name) == front_matter_name(front_matter@),
{
    let text = to_chars(front_matter);
    match read_front_matter(&text) {
        Some(name) => Some(to_string(&name)),
        None => None,
    }
}

/// Reads the name of a file from the characters of the front matter.
fn read_front_matter(text: &Vec<char>) -> (name: Option<Vec<char>>)
    ensures
        match front_matter_name(text@) {
            Some(found) => name matches Some(n) && n@ == found,
            None => name is None,
        },
{
    match find_first_name(text, NameLine::NewFile) {
        Some(name) => Some(name),
        None => {
            let similarity = to_chars("similarity");
            if starts_with(text, &similarity) {
                find_first_name(text, NameLine::RenameTo)
            } else {
                None
            }
        },
    }
}

/// Reads one segment of a diff.
fn read_segment(segment: &Vec<char>, filter: &FileFilter, mode: &LinesChangedOnly) -> (file: Option<
    ChangedFile,
>)
    ensures
        match segment_entry(segment@, *filter, *mode) {
            Some(entry) => file matches Some(f) && f@ == entry && f.lines.well_formed(),
            None => file is None,
        },
{
    if segment.len() == 0 {
        return None;
    }
    let fence = to_chars("@@");
    proof {
        reveal_strlit("@@");
    }
    let (patch_start, _) = find_hunk(segment, 0, &fence);
    let front = copy_range(segment, 0, patch_start);
    let from = trim_start(&front, 0, front.len());
    let matter = copy_range(&front, from, front.len());
    let deleted = to_chars("deleted file");
    if starts_with(&matter, &deleted) {
        return None;
    }
    let name = match read_front_matter(&matter) {
        Some(name) => name,
        None => {
            return None;
        },
    };
    let name = if name.len() > 0 && name[0] == '/' {
        let cut = copy_range(&name, 1, name.len());
        cut
    } else {
        name
    };
    let name_text = to_string(&name);
    if !filter.is_not_ignored(name_text.as_str()) {
        return None;
    }
    let patch = copy_range(segment, patch_start, segment.len());
    let (added, ranges) = read_patch(&patch);
    if !mode.is_change_valid(added.len() > 0, ranges.len() > 0) {
        return None;
    }
    Some(ChangedFile { name: name_text, lines: FileDiffLines::with_info(added, ranges) })
}

/// Reads a diff into the changes of its files.
///
/// Files that `file_filter` leaves out are passed over, and so are files
/// whose changes do not count under `lines_changed_only`, deleted files, and
/// segments that name no file. Where the diff tells of a file twice, what it
/// says first stays.
pub fn parse_diff(diff: &str, file_filter: &FileFilter, lines_changed_only: &LinesChangedOnly) -> (files:
    FileChanges)
    ensures
        files@ == parsed_diff(diff@, *file_filter, *lines_changed_only),
{
    let text = to_chars(diff);
    let delimiter = to_chars("diff --git a/");
    proof {
        reveal_strlit("diff --git a/");
    }
    let mut files = FileChanges::new();
    let ghost mut seen: Seq<Seq<char>> = Seq::empty();
    let mut from: usize = 0;
    loop
        invariant_except_break
            segments(text@, 0) == seen + segments(text@, from as int),
        invariant
            text@ == diff@,
            delimiter@ == file_delimiter(),
            delimiter@.len() == 13,
            delimiter@[0] == 'd',
            from <= text.len(),
            files@ == entries_of(seen, *file_filter, *lines_changed_only),
        ensures
            files@ == parsed_diff(diff@, *file_filter, *lines_changed_only),
        decreases text.len() - from,
    {
        let mut at: usize = from;
        while at < text.len() && !(is_line_start(&text, at) && occurs_at(&text, at, &delimiter))
            invariant
                from <= at <= text.len(),
                delimiter@ == file_delimiter(),
                next_delimiter(text@, from as int) == next_delimiter(text@, at as int),
            decreases text.len() - at,
        {
            at += 1;
        }
        let last = at >= text.len();
        let segment = if last {
            copy_range(&text, from, text.len())
        } else {
            copy_range(&text, from, at)
        };
        let resume = if last {
            at
        } else {
            find_line_end(&text, at + 1)
        };
        proof {
            let grown = seen.push(segment@);
            assert(grown.drop_last() == seen);
            if last {
                assert(seen + seq![segment@] == grown);
            }
            seen = grown;
        }
        match read_segment(&segment, file_filter, lines_changed_only) {
            Some(file) => {
                files.insert_first(file.name, file.lines);
            },
            None => {},
        }
        if last {
            break ;
        }
        from = resume;
    }
    files
}

/// Reading the same diff under the same filter and mode gives the same
/// files with the same lines, however often it is read: what a reading
/// returns is a function of the diff, the filter and the mode.
pub proof fn lemma_parse_is_repeatable(
    first: Seq<ChangedFile>,
    second: Seq<ChangedFile>,
    diff: Seq<char>,
    filter: FileFilter,
    mode: LinesChangedOnly,
)
    requires
        file_views(first) == parsed_diff(diff, filter, mode),
        file_views(second) == parsed_diff(diff, filter, mode),
        forall|i: int| 0 <= i < first.len() ==> (#[trigger] first[i]).lines.well_formed(),
        forall|i: int| 0 <= i < second.len() ==> (#[trigger] second[i]).lines.well_formed(),
    ensures
        first.len() == second.len(),
        forall|i: int|
            0 <= i < first.len() ==> {
                &&& (#[trigger] first[i]).name@ == second[i].name@
                &&& first[i].lines.added_lines@ == second[i].lines.added_lines@
                &&& first[i].lines.added_ranges@ == second[i].lines.added_ranges@
                &&& first[i].lines.diff_hunks@ == second[i].lines.diff_hunks@
            },
{
    assert(file_views(first).len() == first.len());
    assert forall|i: int| 0 <= i < first.len() implies {
        &&& (#[trigger] first[i]).name@ == second[i].name@
        &&& first[i].lines.added_lines@ == second[i].lines.added_lines@
        &&& first[i].lines.added_ranges@ == second[i].lines.added_ranges@
        &&& first[i].lines.diff_hunks@ == second[i].lines.diff_hunks@
    } by {
        assert(file_views(first)[i] == first[i]@);
    }
}

} // verus!
