use git_bot_feedback::git_diff::{get_filename_from_front_matter, parse_patch};
use git_bot_feedback::{parse_diff, FileFilter, LinesChangedOnly};

const RENAMED_DIFF: &'static str = r#"diff --git a/tests/demo/some source.cpp b/tests/demo/some source.c
similarity index 100%
rename from /tests/demo/some source.cpp
rename to /tests/demo/some source.c
diff --git a/some picture.png b/some picture.png
new file mode 100644
Binary files /dev/null and b/some picture.png differ
"#;

#[test]
fn parse_renamed_diff() {
    let files = parse_diff(
        RENAMED_DIFF,
        &FileFilter::new(&[], &["c"], None),
        &LinesChangedOnly::Off,
    );
    let git_file = files.get("tests/demo/some source.c").unwrap();
    assert!(git_file.added_lines.is_empty());
    assert!(git_file.diff_hunks.is_empty());
}

#[test]
fn parse_renamed_only_diff() {
    let files = parse_diff(
        RENAMED_DIFF,
        &FileFilter::new(&[], &["c"], None),
        &LinesChangedOnly::Diff,
    );
    assert!(files.is_empty());
}

const RENAMED_DIFF_WITH_CHANGES: &'static str = r#"diff --git a/tests/demo/some source.cpp b/tests/demo/some source.c
similarity index 99%
rename from /tests/demo/some source.cpp
rename to /tests/demo/some source.c
@@ -3,7 +3,7 @@
\n \n \n-#include "math.h"
+#include <math.h>\n \n \n \n"#;

#[test]
fn parse_renamed_diff_with_patch() {
    let files = parse_diff(
        &String::from_iter([RENAMED_DIFF_WITH_CHANGES, TERSE_HEADERS]),
        // the glob `src/*` ignores src/demo.cpp, the file of TERSE_HEADERS
        &FileFilter::new(&["src/*"], &["c", "cpp"], None),
        &LinesChangedOnly::On,
    );
    println!("files: {files:#?}");
    let git_file = files.get("tests/demo/some source.c").unwrap();
    assert!(!git_file.is_line_in_diff(&1));
    assert!(git_file.is_line_in_diff(&4));
}

const TYPICAL_DIFF: &str = "diff --git a/path/for/Some file.cpp b/path/to/Some file.cpp\n\
                            --- a/path/for/Some file.cpp\n\
                            +++ b/path/to/Some file.cpp\n\
                            @@ -3,7 +3,7 @@\n \n \n \n\
                            -#include <some_lib/render/animation.hpp>\n\
                            +#include <some_lib/render/animations.hpp>\n \n \n \n";

#[test]
fn parse_typical_diff() {
    let files = parse_diff(
        TYPICAL_DIFF,
        &FileFilter::new(&[], &["cpp"], None),
        &LinesChangedOnly::On,
    );
    assert!(!files.is_empty());
}

const BINARY_DIFF: &'static str = "diff --git a/some picture.png b/some picture.png\n\
                new file mode 100644\n\
                Binary files /dev/null and b/some picture.png differ\n";

#[test]
fn parse_binary_diff() {
    let files = parse_diff(
        BINARY_DIFF,
        &FileFilter::new(&[], &["png"], None),
        &LinesChangedOnly::Diff,
    );
    assert!(files.is_empty());
}

const TERSE_HEADERS: &'static str = r#"diff --git a/src/demo.cpp b/src/demo.cpp
--- a/src/demo.cpp
+++ b/src/demo.cpp
@@ -3 +3 @@
-#include <stdio.h>
+#include "stdio.h"
@@ -4,0 +5,2 @@
+auto main() -> int
+{
@@ -18 +17,2 @@ int main(){
-    return 0;}
+    return 0;
+}"#;

#[test]
fn terse_hunk_header() {
    let file_filter = FileFilter::new(&[], &["cpp"], None);
    let files = parse_diff(TERSE_HEADERS, &file_filter, &LinesChangedOnly::Diff);
    let file_diff = files.get("src/demo.cpp").unwrap();
    assert_eq!(file_diff.diff_hunks, vec![3..4, 5..7, 17..19]);
}

#[test]
fn terse_hunk_header_added_lines() {
    let file_filter = FileFilter::new(&[], &["cpp"], None);
    let files = parse_diff(TERSE_HEADERS, &file_filter, &LinesChangedOnly::On);
    let file_diff = files.get("src/demo.cpp").unwrap();
    assert_eq!(file_diff.added_lines, vec![3, 5, 6, 17, 18]);
    assert_eq!(file_diff.added_ranges, vec![3..4, 5..7, 17..19]);
}

#[test]
fn single_line_hunk() {
    let (added, hunks) = parse_patch("@@ -3 +3 @@\n-#include <stdio.h>\n+#include \"stdio.h\"\n");
    assert_eq!(hunks, vec![3..4]);
    assert_eq!(added, vec![3]);
}

#[test]
fn two_added_lines_after_removal() {
    let (added, hunks) =
        parse_patch("@@ -18 +17,2 @@ int main(){\n-    return 0;}\n+    return 0;\n+}");
    assert!(hunks.contains(&(17..19)));
    assert!(added.contains(&17));
    assert!(added.contains(&18));
    assert_eq!(added.len(), 2);
}

#[test]
fn context_lines_move_the_counter() {
    let (added, hunks) = parse_patch("@@ -3,7 +3,7 @@\n \n \n \n-old\n+new\n \n \n \n");
    assert_eq!(hunks, vec![3..10]);
    assert_eq!(added, vec![6]);
}

#[test]
fn hunk_count_defaults_to_one() {
    let (_, hunks) = parse_patch("@@ -1 +7, @@\n");
    assert_eq!(hunks, vec![7..8]);
}

#[test]
fn hunk_numbers_beyond_u32_count_as_one() {
    let (_, hunks) = parse_patch("@@ -1 +99999999999,4294967296 @@\n");
    assert_eq!(hunks, vec![1..2]);
}

#[test]
fn hunk_numbers_of_other_scripts_count_as_one() {
    let (added, hunks) = parse_patch("@@ -١ +٣,4 @@\n+a\n");
    assert_eq!(hunks, vec![1..5]);
    assert_eq!(added, vec![1]);
    // Any one whitespace character separates the parts of a header.
    let (_, hunks) = parse_patch("@@\u{a0}-1\n+6,2\t@@");
    assert_eq!(hunks, vec![6..8]);
    let (_, hunks) = parse_patch("@@  -1 +6,2 @@");
    assert!(hunks.is_empty());
}

#[test]
fn hunk_range_stops_at_the_largest_line() {
    let (added, hunks) = parse_patch("@@ -1 +4294967294,5 @@\n+a\n+b\n+c\n");
    assert_eq!(hunks, vec![4294967294..4294967295]);
    assert_eq!(added, vec![4294967294]);
}

#[test]
fn text_without_hunk_header() {
    let (added, hunks) = parse_patch("+++ b/file\n+not in a hunk\n@@ -1 + 1 @@\n");
    assert!(added.is_empty());
    assert!(hunks.is_empty());
}

#[test]
fn header_in_the_middle_of_a_line() {
    let (added, hunks) = parse_patch("xx@@ -1,2 +3,4 @@+yy\n+zz");
    assert_eq!(hunks, vec![3..7]);
    // The rest of the header's line is read, and does not move the counter.
    assert_eq!(added, vec![3, 3]);
}

#[test]
fn front_matter_names() {
    assert_eq!(
        get_filename_from_front_matter("--- a/old.c\n+++ b/new.c\n"),
        Some("new.c".to_string())
    );
    assert_eq!(
        get_filename_from_front_matter("+++ /dev/null\n"),
        Some("dev/null".to_string())
    );
    assert_eq!(
        get_filename_from_front_matter("similarity index 90%\nrename from a\nrename to b c\n"),
        Some("b c".to_string())
    );
    assert_eq!(
        get_filename_from_front_matter("index 1\nrename to b\n"),
        None
    );
    assert_eq!(
        get_filename_from_front_matter("new file mode 100644\nBinary files /dev/null and b/x differ\n"),
        None
    );
    assert_eq!(get_filename_from_front_matter(" +++ b/x\n"), None);
    assert_eq!(get_filename_from_front_matter("+++ bx\n"), None);
}

#[test]
fn deleted_files_are_passed_over() {
    let diff = "diff --git a/gone.c b/gone.c\ndeleted file mode 100644\n--- a/gone.c\n+++ /dev/null\n@@ -1,2 +0,0 @@\n-a\n-b\n";
    let files = parse_diff(diff, &FileFilter::new(&[], &[], None), &LinesChangedOnly::Off);
    assert!(files.is_empty());
}

#[test]
fn first_entry_of_a_file_stays() {
    let diff = "diff --git a/a.c b/a.c\n--- a/a.c\n+++ b/a.c\n@@ -1 +1 @@\n-x\n+y\n\
                diff --git a/a.c b/a.c\n--- a/a.c\n+++ b/a.c\n@@ -9 +9,3 @@\n+z\n";
    let files = parse_diff(diff, &FileFilter::new(&[], &[], None), &LinesChangedOnly::Off);
    assert_eq!(files.len(), 1);
    assert_eq!(files.get("a.c").unwrap().diff_hunks, vec![1..2]);
}

#[test]
fn parsing_twice_gives_the_same() {
    let filter = FileFilter::new(&[], &["cpp"], None);
    let first = parse_diff(TERSE_HEADERS, &filter, &LinesChangedOnly::On);
    let second = parse_diff(TERSE_HEADERS, &filter, &LinesChangedOnly::On);
    assert_eq!(first.len(), second.len());
    for (a, b) in first.entries().iter().zip(second.entries().iter()) {
        assert_eq!(a.name, b.name);
        assert_eq!(a.lines.added_lines, b.lines.added_lines);
        assert_eq!(a.lines.added_ranges, b.lines.added_ranges);
        assert_eq!(a.lines.diff_hunks, b.lines.diff_hunks);
    }
}

#[test]
fn filter_and_mode_decide() {
    let ignored = FileFilter::new(&["src/*"], &[], None);
    assert!(parse_diff(TERSE_HEADERS, &ignored, &LinesChangedOnly::Off).is_empty());
    let other_extension = FileFilter::new(&[], &["rs"], None);
    assert!(parse_diff(TERSE_HEADERS, &other_extension, &LinesChangedOnly::Off).is_empty());
    let removal = "diff --git a/a.c b/a.c\n--- a/a.c\n+++ b/a.c\n@@ -1,2 +1 @@\n-x\n y\n";
    let all = FileFilter::new(&[], &[], None);
    assert!(parse_diff(removal, &all, &LinesChangedOnly::On).is_empty());
    assert_eq!(parse_diff(removal, &all, &LinesChangedOnly::Diff).len(), 1);
}
