//! The library's reading of diffs, held against the regular expressions that
//! describe the same grammar.

use git_bot_feedback::git_diff::{get_filename_from_front_matter, parse_patch};
use git_bot_feedback::text::{char_is_decimal_digit, char_is_whitespace};
use git_bot_feedback::{parse_diff, FileFilter, LinesChangedOnly};
use regex::Regex;
use std::collections::HashMap;
use std::ops::Range;

const HUNK_INFO_PATTERN: &str = r"(?m)@@\s\-\d+,?\d*\s\+(\d+),?(\d*)\s@@";

/// The patterns of the grammar of diffs.
struct Patterns {
    file_name: Regex,
    renamed_file: Regex,
    hunk_info: Regex,
    file_delimiter: Regex,
}

fn patterns() -> Patterns {
    Patterns {
        file_name: Regex::new(r"(?m)^\+\+\+\sb?/(.*)$").unwrap(),
        renamed_file: Regex::new(r"(?m)^rename to (.*)$").unwrap(),
        hunk_info: Regex::new(HUNK_INFO_PATTERN).unwrap(),
        file_delimiter: Regex::new(r"(?m)^diff --git a/.*$").unwrap(),
    }
}

fn pattern_filename<'a>(patterns: &Patterns, front_matter: &'a str) -> Option<&'a str> {
    let diff_file_name = &patterns.file_name;
    let diff_renamed_file = &patterns.renamed_file;
    if let Some(captures) = diff_file_name.captures(front_matter) {
        return Some(captures.get(1).unwrap().as_str());
    }
    if front_matter.starts_with("similarity") {
        if let Some(captures) = diff_renamed_file.captures(front_matter) {
            return Some(captures.get(1).unwrap().as_str());
        }
    }
    None
}

fn pattern_patch(patterns: &Patterns, patch: &str) -> (Vec<u32>, Vec<Range<u32>>) {
    let mut diff_hunks = Vec::new();
    let mut additions = Vec::new();
    let hunk_info = &patterns.hunk_info;
    let hunk_headers = hunk_info.captures_iter(patch).collect::<Vec<_>>();
    if !hunk_headers.is_empty() {
        let hunks = hunk_info.split(patch).skip(1);
        for (hunk, header) in hunks.zip(hunk_headers) {
            let [start_line, end_range] = header.extract().1.map(|v| v.parse::<u32>().unwrap_or(1));
            let mut line_numb_in_diff = start_line;
            diff_hunks.push(start_line..start_line + end_range);
            for (line_index, line) in hunk.split('\n').enumerate() {
                if line.starts_with('+') {
                    additions.push(line_numb_in_diff);
                }
                if line_index > 0 && !line.starts_with('-') {
                    line_numb_in_diff += 1;
                }
            }
        }
    }
    (additions, diff_hunks)
}

fn pattern_diff(
    patterns: &Patterns,
    diff: &str,
    mode: &LinesChangedOnly,
) -> HashMap<String, (Vec<u32>, Vec<Range<u32>>)> {
    let mut results = HashMap::new();
    let diff_file_delimiter = &patterns.file_delimiter;
    let hunk_info = &patterns.hunk_info;
    for file_diff in diff_file_delimiter.split(diff) {
        if file_diff.is_empty() {
            continue;
        }
        let hunk_start = if let Some(first_hunk) = hunk_info.find(file_diff) {
            first_hunk.start()
        } else {
            file_diff.len()
        };
        let front_matter = &file_diff[..hunk_start];
        if let Some(file_name) = pattern_filename(patterns, front_matter.trim_start()) {
            let file_name = file_name.strip_prefix('/').unwrap_or(file_name);
            let (added_lines, diff_hunks) = pattern_patch(patterns, &file_diff[hunk_start..]);
            if mode.is_change_valid(!added_lines.is_empty(), !diff_hunks.is_empty()) {
                results
                    .entry(file_name.to_string())
                    .or_insert((added_lines, diff_hunks));
            }
        }
    }
    results
}

/// Every text of up to `length` pieces of `alphabet`.
fn texts(alphabet: &[&str], length: usize) -> Vec<String> {
    let mut all = vec![String::new()];
    let mut last = vec![String::new()];
    for _ in 0..length {
        let mut next = Vec::new();
        for prefix in &last {
            for piece in alphabet {
                next.push(format!("{prefix}{piece}"));
            }
        }
        all.extend(next.iter().cloned());
        last = next;
    }
    all
}

#[test]
fn character_classes_as_the_patterns_read_them() {
    let digit = Regex::new(r"^\d$").unwrap();
    let space = Regex::new(r"^\s$").unwrap();
    let mut buffer = [0u8; 4];
    for code in 0..=0x10FFFF_u32 {
        if let Some(c) = char::from_u32(code) {
            let one = c.encode_utf8(&mut buffer);
            assert_eq!(char_is_decimal_digit(c), digit.is_match(one), "{code:x}");
            assert_eq!(char_is_whitespace(c), space.is_match(one), "{code:x}");
        }
    }
}

#[test]
fn hunk_headers_of_other_scripts_as_the_pattern_reads_them() {
    let patterns = patterns();
    let pieces = ["@@", " ", "\u{a0}", "-", "+", "1", "٣", "９", ",", "\u{2003}", "x"];
    for middle in texts(&pieces, 3) {
        for sample in [
            format!("@@ -1{middle} @@\n+a\n b\n"),
            format!("@@\u{3000}-٣,٤\u{85}+{middle}@@+a\n@@ -3 +4 @@"),
        ] {
            assert_eq!(parse_patch(&sample), pattern_patch(&patterns, &sample), "{sample:?}");
        }
    }
}

#[test]
fn hunk_headers_as_the_pattern_reads_them() {
    // Headers, whole and broken, in every order.
    let patterns = patterns();
    let pieces = ["@@", " ", "-", "+", "1", ",", "20", "\n", "x"];
    for middle in texts(&pieces, 4) {
        for sample in [
            format!("@@ -1{middle} @@\n+a\n b\n"),
            format!("@@ -1,2 +{middle}@@+a\n@@ -3 +4 @@"),
            format!("{middle}@@ -7 +8,9 @@{middle}"),
        ] {
            assert_eq!(parse_patch(&sample), pattern_patch(&patterns, &sample), "{sample:?}");
        }
    }
}

#[test]
fn hunk_bodies_as_the_pattern_reads_them() {
    let patterns = patterns();
    let pieces = ["+", "-", " ", "\n", "x", "@@ -1 +5,2 @@", "\\", "\r\n"];
    for sample in texts(&pieces, 5) {
        assert_eq!(parse_patch(&sample), pattern_patch(&patterns, &sample), "{sample:?}");
    }
}

#[test]
fn front_matter_as_the_patterns_read_it() {
    let pieces = [
        "+++", " ", "b", "/", "\n", "rename to ", "similarity", "x", "\t", "--- a/", "\r",
    ];
    let patterns = patterns();
    for sample in texts(&pieces, 4) {
        assert_eq!(
            get_filename_from_front_matter(&sample),
            pattern_filename(&patterns, &sample).map(|name| name.to_string()),
            "{sample:?}"
        );
    }
}

#[test]
fn diffs_as_the_patterns_read_them() {
    let pieces = [
        "diff --git a/",
        "\n",
        "+++ b/",
        "x",
        "y/z",
        "@@ -1 +2,3 @@",
        "+",
        "similarity\nrename to ",
        " ",
    ];
    let all = FileFilter::new(&[], &[], None);
    let patterns = patterns();
    for sample in texts(&pieces, 5) {
        for mode in [LinesChangedOnly::Off, LinesChangedOnly::Diff, LinesChangedOnly::On] {
            let files = parse_diff(&sample, &all, &mode);
            let expected = pattern_diff(&patterns, &sample, &mode);
            assert_eq!(files.len(), expected.len(), "{sample:?}");
            for file in files.entries() {
                let (added, hunks) = expected.get(&file.name).unwrap();
                assert_eq!(&file.lines.added_lines, added, "{sample:?}");
                assert_eq!(&file.lines.diff_hunks, hunks, "{sample:?}");
            }
        }
    }
}
