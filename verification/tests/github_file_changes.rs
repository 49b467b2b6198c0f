use git_bot_feedback::client::github::payloads::GithubChangedFile;
use git_bot_feedback::client::github::{get_list_of_changed_files, make_patch_diff};
use git_bot_feedback::{FileChanges, FileFilter, LinesChangedOnly};

fn listed(filename: &str, previous: Option<&str>, patch: Option<&str>, changes: i64) -> GithubChangedFile {
    GithubChangedFile {
        filename: filename.to_string(),
        previous_filename: previous.map(|p| p.to_string()),
        patch: patch.map(|p| p.to_string()),
        changes,
    }
}

#[test]
fn patch_is_wrapped_as_a_diff() {
    assert_eq!(
        make_patch_diff("old.c", "new.c", "@@ -1 +1 @@\n-a\n+b"),
        "diff --git a/old.c b/new.c\n--- a/old.c\n+++ b/new.c\n@@ -1 +1 @@\n-a\n+b\n"
    );
}

#[test]
fn listed_files_over_pages() {
    let filter = FileFilter::new(&["docs/**"], &["c", "h"], None);
    let mut files = FileChanges::new();
    get_list_of_changed_files(
        &mut files,
        &vec![
            listed("src/a.c", None, Some("@@ -1 +1,2 @@\n-a\n+b\n+c"), 3),
            listed("src/moved.h", Some("src/old.h"), None, 0),
            listed("src/huge.c", None, None, 90000),
            listed("docs/x.c", None, Some("@@ -1 +1 @@\n-a\n+b"), 2),
            listed("README.md", None, None, 0),
        ],
        &filter,
        &LinesChangedOnly::Off,
    );
    assert_eq!(files.len(), 2);
    assert_eq!(files.get("src/a.c").unwrap().added_lines, vec![1, 2]);
    assert_eq!(files.get("src/a.c").unwrap().added_ranges, vec![1..3]);
    assert_eq!(files.get("src/a.c").unwrap().diff_hunks, vec![1..3]);
    assert!(files.get("src/moved.h").unwrap().diff_hunks.is_empty());
    assert!(!files.contains_key("src/huge.c"));
    // The next page tells of a file again: what was said first stays.
    get_list_of_changed_files(
        &mut files,
        &vec![
            listed("src/a.c", None, Some("@@ -9 +9 @@\n-x\n+y"), 2),
            listed("src/b.c", Some("src/a.c"), Some("@@ -4,0 +5 @@\n+z"), 1),
        ],
        &filter,
        &LinesChangedOnly::On,
    );
    assert_eq!(files.len(), 3);
    assert_eq!(files.get("src/a.c").unwrap().diff_hunks, vec![1..3]);
    assert_eq!(files.get("src/b.c").unwrap().added_lines, vec![5]);
    let names: Vec<&str> = files.entries().iter().map(|f| f.name.as_str()).collect();
    assert_eq!(names, vec!["src/a.c", "src/moved.h", "src/b.c"]);
}
