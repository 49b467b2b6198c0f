//! Deciding which paths are in scope.
//!
//! A filter holds patterns of ignored paths, patterns of paths that are not
//! ignored whatever else holds, and the file extensions that are wanted. A
//! pattern is a glob. A pattern that names a directory of the working tree
//! also stands for everything below it, and one that names a file stands for
//! that file; the filter does not look at the disk itself, it is told which
//! paths are directories and which are files.

use crate::file_utils::paths::{
    components, components_start_with, extension, is_hidden, lookup_name, path_components,
    path_extension, path_is_hidden, slashed, to_lookup_name,
};
use crate::text::{
    chars_views, copy_range, drop_whitespace, has_prefix, same_chars, skip_whitespace, split,
    split_on, starts_with, text_view, text_views, to_chars, to_string, trim_end, trim_start,
};
use vstd::prelude::*;
use vstd::string::StringSliceAdditionalSpecFns;

verus! {

/// The longest pattern and the longest path, in bytes, that are held against
/// each other as glob and path.
pub const GLOB_LIMIT: usize = 0x7FFF_FFFF;

/// Whether the glob `pattern` matches `path`, as the `fast_glob` crate finds.
pub uninterp spec fn glob_matches(pattern: Seq<char>, path: Seq<char>) -> bool;

/// `glob_match` of the `fast_glob` crate: whether the glob `pattern` matches
/// `path`. Both are short enough for the crate's 32-bit counters, and the
/// path holds no backslash, so that the separator of paths is the slash on
/// every system.
#[verifier::external_body]
fn glob_match(pattern: &str, path: &str) -> (matched: bool)
    requires
        pattern.spec_bytes().len() <= GLOB_LIMIT,
        path.spec_bytes().len() <= GLOB_LIMIT,
        !path@.contains('\\'),
    ensures
        matched == glob_matches(pattern@, path@),
{
    fast_glob::glob_match(pattern, path)
}

/// A set of texts, kept as a list in which nothing occurs twice.
pub open spec fn with_item(set: Seq<Seq<char>>, item: Seq<char>) -> Seq<Seq<char>> {
    if set.contains(item) {
        set
    } else {
        set.push(item)
    }
}

/// The set of `items`, each at the place of its first occurrence.
pub open spec fn set_of(items: Seq<Seq<char>>) -> Seq<Seq<char>>
    decreases items.len(),
{
    if items.len() == 0 {
        Seq::empty()
    } else {
        with_item(set_of(items.drop_last()), items.last())
    }
}

/// What one entry of an ignore list says: whether it ignores (`true`) or
/// excepts from ignoring (`false`, for an entry that starts with `!`), and
/// which pattern.
///
/// Backslashes count as slashes. Whitespace around the entry, and after the
/// `!`, is dropped, and so is one `./` at the start of the pattern.
pub open spec fn entry_pattern(entry: Seq<char>) -> (bool, Seq<char>) {
    let posix = slashed(entry);
    let start = skip_whitespace(posix, 0, posix.len() as int);
    let end = drop_whitespace(posix, start, posix.len() as int);
    let negated = start < end && posix[start] == '!';
    let from = if negated {
        skip_whitespace(posix, start + 1, end)
    } else {
        start
    };
    let body = posix.subrange(from, end);
    if has_prefix(body, "./"@) {
        (!negated, body.skip(2))
    } else {
        (!negated, body)
    }
}

/// The patterns of `entries` that ignore (`ignoring`) or that except from
/// ignoring (`!ignoring`), as a set in the order of `entries`.
pub open spec fn entry_patterns(entries: Seq<&str>, ignoring: bool) -> Seq<Seq<char>>
    decreases entries.len(),
{
    if entries.len() == 0 {
        Seq::empty()
    } else {
        let before = entry_patterns(entries.drop_last(), ignoring);
        let (ignores, pattern) = entry_pattern(entries.last()@);
        if ignores == ignoring {
            with_item(before, pattern)
        } else {
            before
        }
    }
}

/// What each of `texts` holds.
pub open spec fn str_views(texts: Seq<&str>) -> Seq<Seq<char>> {
    texts.map_values(|t: &str| t@)
}

/// What the line of a `.gitmodules` file says of a submodule's path: for a
/// line that, without the whitespace around it, starts with `path` and holds
/// `=`, what follows the first `=`, without the whitespace before it; nothing
/// where that is empty.
pub open spec fn submodule_path(line: Seq<char>) -> Option<Seq<char>> {
    let start = skip_whitespace(line, 0, line.len() as int);
    let end = drop_whitespace(line, start, line.len() as int);
    let entry = line.subrange(start, end);
    let equals = entry.index_of_first('=');
    if has_prefix(entry, "path"@) && equals is Some {
        let from = skip_whitespace(entry, equals->0 + 1, entry.len() as int);
        if from < entry.len() {
            Some(entry.skip(from))
        } else {
            None
        }
    } else {
        None
    }
}

/// The ignored patterns after the submodules that `lines` name were added:
/// each but those that are excepted from ignoring.
pub open spec fn with_submodules(
    ignored: Seq<Seq<char>>,
    not_ignored: Seq<Seq<char>>,
    lines: Seq<Seq<char>>,
) -> Seq<Seq<char>>
    decreases lines.len(),
{
    if lines.len() == 0 {
        ignored
    } else {
        let before = with_submodules(ignored, not_ignored, lines.drop_last());
        match submodule_path(lines.last()) {
            Some(path) => if not_ignored.contains(path) {
                before
            } else {
                with_item(before, path)
            },
            None => before,
        }
    }
}

/// Whether `item` is among `set`.
pub fn holds_text(set: &Vec<String>, item: &str) -> (held: bool)
    ensures
        held == text_views(set@).contains(item@),
{
    let wanted = to_chars(item);
    let mut i: usize = 0;
    while i < set.len()
        invariant
            i <= set.len(),
            wanted@ == item@,
            forall|k: int| 0 <= k < i ==> text_views(set@)[k] != item@,
        decreases set.len() - i,
    {
        assert(text_views(set@)[i as int] == set@[i as int]@);
        let here = to_chars(set[i].as_str());
        if same_chars(&here, &wanted) {
            return true;
        }
        i += 1;
    }
    false
}

/// Adds `item` to `set` unless it is there.
pub fn insert_text(set: &mut Vec<String>, item: String)
    ensures
        text_views(final(set)@) == with_item(text_views(old(set)@), item@),
{
    if !holds_text(set, item.as_str()) {
        set.push(item);
    }
}

/// Reads one entry of an ignore list.
pub fn read_entry(entry: &str) -> (read: (bool, String))
    ensures
        read.0 == entry_pattern(entry@).0,
        read.1@ == entry_pattern(entry@).1,
{
    let raw = to_chars(entry);
    let mut posix: Vec<char> = Vec::new();
    let mut i: usize = 0;
    while i < raw.len()
        invariant
            i <= raw.len(),
            posix@ == slashed(raw@.take(i as int)),
        decreases raw.len() - i,
    {
        let c = raw[i];
        posix.push(if c == '\\' {
            '/'
        } else {
            c
        });
        i += 1;
    }
    assert(raw@.take(raw.len() as int) == raw@);
    let start = trim_start(&posix, 0, posix.len());
    let end = trim_end(&posix, start, posix.len());
    let negated = start < end && posix[start] == '!';
    let from = if negated {
        trim_start(&posix, start + 1, end)
    } else {
        start
    };
    let body = copy_range(&posix, from, end);
    let current = to_chars("./");
    proof {
        reveal_strlit("./");
    }
    if starts_with(&body, &current) {
        let pattern = copy_range(&body, 2, body.len());
        (!negated, to_string(&pattern))
    } else {
        (!negated, to_string(&body))
    }
}

/// Reads the path of a submodule from one line of a `.gitmodules` file.
pub fn read_submodule_path(line: &Vec<char>) -> (path: Option<String>)
    ensures
        text_view(path) == submodule_path(line@),
{
    let start = trim_start(line, 0, line.len());
    let end = trim_end(line, start, line.len());
    let entry = copy_range(line, start, end);
    let key = to_chars("path");
    if !starts_with(&entry, &key) {
        return None;
    }
    let mut equals: usize = 0;
    while equals < entry.len() && entry[equals] != '='
        invariant
            equals <= entry.len(),
            forall|k: int| 0 <= k < equals ==> entry@[k] != '=',
        decreases entry.len() - equals,
    {
        equals += 1;
    }
    if equals >= entry.len() {
        proof {
            if entry@.index_of_first('=') is Some {
                entry@.index_of_first_ensures('=');
            }
        }
        return None;
    }
    proof {
        entry@.index_of_first_ensures('=');
    }
    let from = trim_start(&entry, equals + 1, entry.len());
    if from < entry.len() {
        let path = copy_range(&entry, from, entry.len());
        Some(to_string(&path))
    } else {
        None
    }
}

/// Which paths are in scope.
#[derive(Debug, Clone)]
pub struct FileFilter {
    /// The patterns of paths that are ignored. An empty pattern stands for
    /// the working directory, and so for every path.
    pub ignored: Vec<String>,
    /// The patterns of paths that are not ignored, whatever else holds.
    pub not_ignored: Vec<String>,
    /// The extensions of the files that are wanted, without the dot. None
    /// means that every extension is wanted; an empty extension stands for
    /// files without one.
    pub extensions: Vec<String>,
    /// The paths that are known to be directories.
    pub directories: Vec<String>,
    /// The paths that are known to be files.
    pub files: Vec<String>,
    /// A name for this filter in messages.
    pub log_scope: Option<String>,
}

impl FileFilter {
    /// `text`, a pattern or the name of a file, is short enough to be held
    /// against a glob or a path: its UTF-8 form is.
    pub open spec fn in_glob_reach(text: Seq<char>) -> bool {
        vstd::utf8::encode_utf8(text).len() <= GLOB_LIMIT
    }

    /// The pattern stands for the file `name`, given whether it matches the
    /// name as a glob: it is empty; or it matches as a glob; or it names a
    /// known file, and `name` has its components; or it names a known
    /// directory, and the components of `name` start with its components.
    pub open spec fn pattern_covers(&self, pattern: Seq<char>, name: Seq<char>, glob_hit: bool) -> bool {
        ||| pattern.len() == 0
        ||| glob_hit
        ||| (text_views(self.files@).contains(pattern) && components(name) == components(pattern))
        ||| (text_views(self.directories@).contains(pattern) && components(pattern).is_prefix_of(
            components(name),
        ))
    }

    /// The pattern matches the file `name`. Texts too long for a glob match
    /// no glob.
    pub open spec fn pattern_matches(&self, pattern: Seq<char>, name: Seq<char>) -> bool {
        self.pattern_covers(
            pattern,
            name,
            Self::in_glob_reach(pattern) && Self::in_glob_reach(name) && glob_matches(pattern, name),
        )
    }

    /// One of `patterns` matches the file at `path`.
    pub open spec fn any_matches(&self, patterns: Seq<Seq<char>>, path: Seq<char>) -> bool {
        exists|i: int|
            0 <= i < patterns.len() && self.pattern_matches(
                #[trigger] patterns[i],
                lookup_name(path),
            )
    }

    /// The file at `path` is ignored: a pattern of [`Self::ignored`] matches it.
    pub open spec fn ignores(&self, path: Seq<char>) -> bool {
        self.any_matches(text_views(self.ignored@), path)
    }

    /// The file at `path` is excepted from ignoring: a pattern of
    /// [`Self::not_ignored`] matches it.
    pub open spec fn excepts(&self, path: Seq<char>) -> bool {
        self.any_matches(text_views(self.not_ignored@), path)
    }

    /// The extension rule leaves `path` out: extensions are named, the path is
    /// not known to be a directory, and its extension is none of them.
    pub open spec fn extension_excludes(&self, path: Seq<char>) -> bool {
        &&& self.extensions@.len() > 0
        &&& !text_views(self.directories@).contains(path)
        &&& !text_views(self.extensions@).contains(extension(path))
    }

    /// The path is in scope. In this order: a path that the extension rule
    /// leaves out is not; a path that is excepted from ignoring is; a path
    /// that is ignored is not; a hidden path is not; any other path is.
    pub open spec fn in_scope(&self, path: Seq<char>) -> bool {
        if self.extension_excludes(path) {
            false
        } else if self.excepts(path) {
            true
        } else {
            !self.ignores(path) && !is_hidden(path)
        }
    }

    /// Makes a filter from a list of paths and globs, and a list of
    /// extensions.
    ///
    /// An entry of `ignore` that starts with `!` is a pattern that is not
    /// ignored; any other is a pattern that is ignored. Nothing is known of
    /// the disk yet: see [`Self::note_directory`] and [`Self::note_file`].
    pub fn new(ignore: &[&str], extensions: &[&str], log_scope: Option<&str>) -> (filter: Self)
        ensures
            text_views(filter.ignored@) == entry_patterns(ignore@, true),
            text_views(filter.not_ignored@) == entry_patterns(ignore@, false),
            text_views(filter.extensions@) == set_of(str_views(extensions@)),
            filter.directories@.len() == 0,
            filter.files@.len() == 0,
            match log_scope {
                Some(scope) => filter.log_scope matches Some(kept) && kept@ == scope@,
                None => filter.log_scope is None,
            },
    {
        let (ignored, not_ignored) = Self::parse_ignore(ignore);
        let mut wanted: Vec<String> = Vec::new();
        let mut i: usize = 0;
        while i < extensions.len()
            invariant
                i <= extensions.len(),
                text_views(wanted@) == set_of(str_views(extensions@).take(i as int)),
            decreases extensions.len() - i,
        {
            proof {
                let upto = str_views(extensions@).take(i + 1);
                assert(upto.drop_last() == str_views(extensions@).take(i as int));
            }
            let extension = to_chars(extensions[i]);
            insert_text(&mut wanted, to_string(&extension));
            i += 1;
        }
        assert(str_views(extensions@).take(extensions.len() as int) == str_views(extensions@));
        let scope = match log_scope {
            Some(scope) => {
                let chars = to_chars(scope);
                Some(to_string(&chars))
            },
            None => None,
        };
        FileFilter {
            ignored,
            not_ignored,
            extensions: wanted,
            directories: Vec::new(),
            files: Vec::new(),
            log_scope: scope,
        }
    }

    /// Sorts the entries of an ignore list into the patterns that are
    /// ignored and those that are not.
    pub fn parse_ignore(ignore: &[&str]) -> (sets: (Vec<String>, Vec<String>))
        ensures
            text_views(sets.0@) == entry_patterns(ignore@, true),
            text_views(sets.1@) == entry_patterns(ignore@, false),
    {
        let mut ignored: Vec<String> = Vec::new();
        let mut not_ignored: Vec<String> = Vec::new();
        let mut i: usize = 0;
        while i < ignore.len()
            invariant
                i <= ignore.len(),
                text_views(ignored@) == entry_patterns(ignore@.take(i as int), true),
                text_views(not_ignored@) == entry_patterns(ignore@.take(i as int), false),
            decreases ignore.len() - i,
        {
            proof {
                assert(ignore@.take(i + 1).drop_last() == ignore@.take(i as int));
            }
            let (ignores, pattern) = read_entry(ignore[i]);
            if ignores {
                insert_text(&mut ignored, pattern);
            } else {
                insert_text(&mut not_ignored, pattern);
            }
            i += 1;
        }
        assert(ignore@.take(ignore.len() as int) == ignore@);
        (ignored, not_ignored)
    }

    /// Tells the filter that `path` is a directory.
    pub fn note_directory(&mut self, path: &str)
        ensures
            text_views(final(self).directories@) == with_item(
                text_views(old(self).directories@),
                path@,
            ),
            final(self).ignored == old(self).ignored,
            final(self).not_ignored == old(self).not_ignored,
            final(self).extensions == old(self).extensions,
            final(self).files == old(self).files,
            final(self).log_scope == old(self).log_scope,
    {
        let chars = to_chars(path);
        insert_text(&mut self.directories, to_string(&chars));
    }

    /// Tells the filter that `path` is a file.
    pub fn note_file(&mut self, path: &str)
        ensures
            text_views(final(self).files@) == with_item(text_views(old(self).files@), path@),
            final(self).ignored == old(self).ignored,
            final(self).not_ignored == old(self).not_ignored,
            final(self).extensions == old(self).extensions,
            final(self).directories == old(self).directories,
            final(self).log_scope == old(self).log_scope,
    {
        let chars = to_chars(path);
        insert_text(&mut self.files, to_string(&chars));
    }

    /// Adds the submodules that the text of a `.gitmodules` file names to the
    /// ignored patterns, but for those that are excepted from ignoring.
    pub fn parse_submodules(&mut self, gitmodules: &str)
        ensures
            text_views(final(self).ignored@) == with_submodules(
                text_views(old(self).ignored@),
                text_views(old(self).not_ignored@),
                split(gitmodules@, '\n'),
            ),
            final(self).not_ignored == old(self).not_ignored,
            final(self).extensions == old(self).extensions,
            final(self).directories == old(self).directories,
            final(self).files == old(self).files,
            final(self).log_scope == old(self).log_scope,
    {
        let text = to_chars(gitmodules);
        let lines = split_on(&text, '\n');
        let mut i: usize = 0;
        while i < lines.len()
            invariant
                i <= lines.len(),
                chars_views(lines@) == split(gitmodules@, '\n'),
                self.not_ignored == old(self).not_ignored,
                self.extensions == old(self).extensions,
                self.directories == old(self).directories,
                self.files == old(self).files,
                self.log_scope == old(self).log_scope,
                text_views(self.ignored@) == with_submodules(
                    text_views(old(self).ignored@),
                    text_views(old(self).not_ignored@),
                    split(gitmodules@, '\n').take(i as int),
                ),
            decreases lines.len() - i,
        {
            proof {
                let all = split(gitmodules@, '\n');
                assert(all.take(i + 1).drop_last() == all.take(i as int));
            }
            match read_submodule_path(&lines[i]) {
                Some(path) => {
                    if !holds_text(&self.not_ignored, path.as_str()) {
                        insert_text(&mut self.ignored, path);
                    }
                },
                None => {},
            }
            i += 1;
        }
        assert(split(gitmodules@, '\n').take(lines.len() as int) == split(gitmodules@, '\n'));
    }

    /// Whether `pattern` stands for the file `name`, given whether it matches
    /// the name as a glob (`glob_hit`). The name is one to look up: without
    /// backslashes, and without `./` at its start.
    pub fn pattern_covers_name(&self, pattern: &str, name: &str, glob_hit: bool) -> (covered: bool)
        ensures
            covered == self.pattern_covers(pattern@, name@, glob_hit),
    {
        let chars = to_chars(pattern);
        if chars.len() == 0 || glob_hit {
            return true;
        }
        let is_file = holds_text(&self.files, pattern);
        let is_directory = holds_text(&self.directories, pattern);
        if !is_file && !is_directory {
            return false;
        }
        let parts = path_components(&chars);
        let name_parts = path_components(&to_chars(name));
        let starts = components_start_with(&name_parts, &parts);
        if is_file && starts && parts.len() == name_parts.len() {
            assert(chars_views(parts@) == chars_views(name_parts@));
            return true;
        }
        is_directory && starts
    }

    /// Whether a pattern of the ignored (`is_ignored`) or of the not ignored
    /// patterns matches the file at `file_name`.
    pub fn is_file_in_list(&self, file_name: &str, is_ignored: bool) -> (listed: bool)
        ensures
            listed == if is_ignored {
                self.ignores(file_name@)
            } else {
                self.excepts(file_name@)
            },
    {
        let path = to_chars(file_name);
        let name = to_string(&to_lookup_name(&path));
        let in_reach = name.as_str().as_bytes().len() <= GLOB_LIMIT;
        let set = if is_ignored {
            &self.ignored
        } else {
            &self.not_ignored
        };
        let mut i: usize = 0;
        while i < set.len()
            invariant
                i <= set.len(),
                set@ == if is_ignored {
                    self.ignored@
                } else {
                    self.not_ignored@
                },
                name@ == lookup_name(file_name@),
                !name@.contains('\\'),
                in_reach == Self::in_glob_reach(name@),
                forall|k: int|
                    0 <= k < i ==> !self.pattern_matches(#[trigger] text_views(set@)[k], name@),
            decreases set.len() - i,
        {
            let pattern = &set[i];
            assert(text_views(set@)[i as int] == pattern@);
            let glob_hit = in_reach && pattern.as_str().as_bytes().len() <= GLOB_LIMIT && glob_match(
                pattern.as_str(),
                name.as_str(),
            );
            if self.pattern_covers_name(pattern.as_str(), name.as_str(), glob_hit) {
                return true;
            }
            i += 1;
        }
        false
    }

    /// Whether the file at `file_name` is ignored.
    pub fn is_file_ignored(&self, file_name: &str) -> (ignored: bool)
        ensures
            ignored == self.ignores(file_name@),
    {
        self.is_file_in_list(file_name, true)
    }

    /// Whether the file at `file_name` is excepted from ignoring.
    pub fn is_file_not_ignored(&self, file_name: &str) -> (excepted: bool)
        ensures
            excepted == self.excepts(file_name@),
    {
        self.is_file_in_list(file_name, false)
    }

    /// Whether the file at `file_path` is in scope.
    pub fn is_not_ignored(&self, file_path: &str) -> (kept: bool)
        ensures
            kept == self.in_scope(file_path@),
    {
        let path = to_chars(file_path);
        if self.extensions.len() > 0 && !holds_text(&self.directories, file_path) {
            let wanted = path_extension(&path);
            let wanted_text = to_string(&wanted);
            if !holds_text(&self.extensions, wanted_text.as_str()) {
                return false;
            }
        }
        if self.is_file_not_ignored(file_path) {
            return true;
        }
        !self.is_file_ignored(file_path) && !path_is_hidden(&path)
    }
}

/// A path that is both ignored and excepted from ignoring is in scope, as
/// long as the extension rule does not leave it out: the exception wins.
pub proof fn lemma_exception_wins(filter: FileFilter, path: Seq<char>)
    requires
        filter.ignores(path),
        filter.excepts(path),
        !filter.extension_excludes(path),
    ensures
        filter.in_scope(path),
{
}

/// A path that is excepted from ignoring is in scope even if it is hidden, as
/// long as the extension rule does not leave it out.
pub proof fn lemma_exception_shows_hidden(filter: FileFilter, path: Seq<char>)
    requires
        filter.excepts(path),
        !filter.extension_excludes(path),
    ensures
        filter.in_scope(path),
{
}

} // verus!
