//! What is particular to one hosting service's API: the listing of changed
//! files, page by page.

use crate::client::github::payloads::GithubChangedFile;
use crate::file_utils::file_filter::FileFilter;
use crate::file_utils::LinesChangedOnly;
use crate::git_diff::{parse_diff, parsed_diff, with_entry, FileChanges, FileEntry};
use crate::text::{append, to_chars, to_string};
use vstd::prelude::*;

pub mod graphql;
pub mod payloads;

verus! {

/// The diff of one file, made up from its old name, its new name and its
/// patch: a cutting line, the two lines that name the file, and the patch.
pub open spec fn patch_diff(old: Seq<char>, new: Seq<char>, patch: Seq<char>) -> Seq<char> {
    "diff --git a/"@ + old + " b/"@ + new + "\n--- a/"@ + old + "\n+++ b/"@ + new + "\n"@ + patch
        + "\n"@
}

/// The name that a listed file had before the change.
pub open spec fn earlier_name(file: GithubChangedFile) -> Seq<char> {
    match file.previous_filename {
        Some(name) => name@,
        None => file.filename@,
    }
}

/// `entries` with each of `more` added in order, unless its file has an
/// entry already.
pub open spec fn with_entries(entries: Seq<FileEntry>, more: Seq<FileEntry>) -> Seq<FileEntry>
    decreases more.len(),
{
    if more.len() == 0 {
        entries
    } else {
        with_entry(with_entries(entries, more.drop_last()), more.last())
    }
}

/// The entry of a file without changed lines.
pub open spec fn unchanged(name: Seq<char>) -> FileEntry {
    FileEntry { name, added: Seq::empty(), hunks: Seq::empty() }
}

/// `entries` after one listed file was taken in. A file with a patch is read
/// as a diff. A file without a patch and without changes, such as a renamed
/// one, gets an entry without lines if it is in scope. Any other file is
/// passed over: its changes are too large for the server to list.
pub open spec fn with_listed_file(
    entries: Seq<FileEntry>,
    file: GithubChangedFile,
    filter: FileFilter,
    mode: LinesChangedOnly,
) -> Seq<FileEntry> {
    match file.patch {
        Some(patch) => with_entries(
            entries,
            parsed_diff(patch_diff(earlier_name(file), file.filename@, patch@), filter, mode),
        ),
        None => if file.changes == 0 && filter.in_scope(file.filename@) {
            with_entry(entries, unchanged(file.filename@))
        } else {
            entries
        },
    }
}

/// `entries` after the files of one page were taken in, in order.
pub open spec fn with_listed_files(
    entries: Seq<FileEntry>,
    listed: Seq<GithubChangedFile>,
    filter: FileFilter,
    mode: LinesChangedOnly,
) -> Seq<FileEntry>
    decreases listed.len(),
{
    if listed.len() == 0 {
        entries
    } else {
        with_listed_file(
            with_listed_files(entries, listed.drop_last(), filter, mode),
            listed.last(),
            filter,
            mode,
        )
    }
}

/// Makes up the diff of one file from its names and its patch.
pub fn make_patch_diff(old: &str, new: &str, patch: &str) -> (diff: String)
    ensures
        diff@ == patch_diff(old@, new@, patch@),
{
    let old = to_chars(old);
    let new = to_chars(new);
    let mut out = to_chars("diff --git a/");
    append(&mut out, &old);
    append(&mut out, &to_chars(" b/"));
    append(&mut out, &new);
    append(&mut out, &to_chars("\n--- a/"));
    append(&mut out, &old);
    append(&mut out, &to_chars("\n+++ b/"));
    append(&mut out, &new);
    append(&mut out, &to_chars("\n"));
    append(&mut out, &to_chars(patch));
    append(&mut out, &to_chars("\n"));
    to_string(&out)
}

/// Takes in one page of the server's list of changed files. Where a file
/// has an entry already, that entry stays.
pub fn get_list_of_changed_files(
    files: &mut FileChanges,
    listed: &Vec<GithubChangedFile>,
    file_filter: &FileFilter,
    lines_changed_only: &LinesChangedOnly,
)
    ensures
        final(files)@ == with_listed_files(old(files)@, listed@, *file_filter, *lines_changed_only),
{
    let mut i: usize = 0;
    while i < listed.len()
        invariant
            i <= listed.len(),
            files@ == with_listed_files(
                old(files)@,
                listed@.take(i as int),
                *file_filter,
                *lines_changed_only,
            ),
        decreases listed.len() - i,
    {
        let file = &listed[i];
        proof {
            assert(listed@.take(i + 1).drop_last() == listed@.take(i as int));
        }
        match &file.patch {
            Some(patch) => {
                let old = match &file.previous_filename {
                    Some(name) => name.as_str(),
                    None => file.filename.as_str(),
                };
                let diff = make_patch_diff(old, file.filename.as_str(), patch.as_str());
                let parsed = parse_diff(diff.as_str(), file_filter, lines_changed_only);
                let entries = parsed.entries();
                let ghost before = files@;
                let mut k: usize = 0;
                while k < entries.len()
                    invariant
                        k <= entries.len(),
                        crate::git_diff::file_views(entries@) == parsed@,
                        forall|i: int|
                            0 <= i < entries@.len() ==> (#[trigger] entries@[i]).lines.well_formed(),
                        files@ == with_entries(before, parsed@.take(k as int)),
                    decreases entries.len() - k,
                {
                    let entry = &entries[k];
                    proof {
                        assert(parsed@.take(k + 1).drop_last() == parsed@.take(k as int));
                    }
                    let lines = entry.lines.duplicate();
                    files.insert_first(entry.name.clone(), lines);
                    k += 1;
                }
                assert(parsed@.take(entries.len() as int) == parsed@);
            },
            None => {
                if file.changes == 0 && file_filter.is_not_ignored(file.filename.as_str()) {
                    files.insert_unchanged(file.filename.clone());
                }
            },
        }
        i += 1;
    }
    assert(listed@.take(listed.len() as int) == listed@);
}

} // verus!
