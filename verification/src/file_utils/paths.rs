//! Paths as text: their pieces between slashes, their components, their
//! extension, and whether they are hidden.

use crate::text::{chars_views, copy_range, same_chars, split, split_on};
use vstd::prelude::*;

verus! {

/// The pieces of `path` between its slashes. A path without a slash is one
/// piece; a slash at the start or at the end, or two in a row, leave an empty
/// piece.
pub open spec fn pieces(path: Seq<char>) -> Seq<Seq<char>> {
    split(path, '/')
}

/// The piece `.`, which stands for the directory it is found in.
pub open spec fn dot() -> Seq<char> {
    seq!['.']
}

/// The piece `..`, which stands for the directory above.
pub open spec fn dot_dot() -> Seq<char> {
    seq!['.', '.']
}

/// A piece that names something: neither empty nor `.`.
pub open spec fn is_name(piece: Seq<char>) -> bool {
    piece.len() > 0 && piece != dot()
}

/// A hidden piece: it begins with a dot and is neither `.` nor `..`.
pub open spec fn is_hidden_piece(piece: Seq<char>) -> bool {
    piece.len() > 0 && piece[0] == '.' && piece != dot() && piece != dot_dot()
}

/// A hidden path: one of its pieces is hidden.
pub open spec fn is_hidden(path: Seq<char>) -> bool {
    exists|i: int| 0 <= i < pieces(path).len() && is_hidden_piece(#[trigger] pieces(path)[i])
}

/// The pieces of `pieces` that name something, in order.
pub open spec fn names(pieces: Seq<Seq<char>>) -> Seq<Seq<char>>
    decreases pieces.len(),
{
    if pieces.len() == 0 {
        Seq::empty()
    } else if is_name(pieces.last()) {
        names(pieces.drop_last()).push(pieces.last())
    } else {
        names(pieces.drop_last())
    }
}

/// What comes before the names among the components of `path`: the root `/`
/// for a path that starts with a slash, `.` for one whose first piece is `.`,
/// else nothing.
pub open spec fn lead(path: Seq<char>) -> Seq<Seq<char>> {
    if path.len() > 0 && path[0] == '/' {
        seq![seq!['/']]
    } else if pieces(path)[0] == dot() {
        seq![dot()]
    } else {
        Seq::empty()
    }
}

/// The components of `path`, as the standard library's `Path` counts them on
/// a system whose separator is the slash: the root or a leading `.`, and
/// then each piece that is neither empty nor `.`.
pub open spec fn components(path: Seq<char>) -> Seq<Seq<char>> {
    lead(path) + names(pieces(path))
}

/// The position of the last `c` in `s`, or -1 if there is none.
pub open spec fn last_position(s: Seq<char>, c: char) -> int
    decreases s.len(),
{
    if s.len() == 0 {
        -1
    } else if s.last() == c {
        s.len() - 1
    } else {
        last_position(s.drop_last(), c)
    }
}

/// The extension of a file name: what follows its last dot, unless that dot
/// is the first character. Without such a dot the extension is empty.
pub open spec fn name_extension(name: Seq<char>) -> Seq<char> {
    let at = last_position(name, '.');
    if at > 0 {
        name.skip(at + 1)
    } else {
        Seq::empty()
    }
}

/// The extension of `path`: that of its last component, or nothing for a
/// path without components.
pub open spec fn extension(path: Seq<char>) -> Seq<char> {
    if components(path).len() == 0 {
        Seq::empty()
    } else {
        name_extension(components(path).last())
    }
}

/// `path` with each backslash replaced by a slash.
pub open spec fn slashed(path: Seq<char>) -> Seq<char> {
    path.map_values(|c: char| if c == '\\' { '/' } else { c })
}

/// The first position at or after `from` at which `path` does not go on
/// with `./`.
pub open spec fn skip_current(path: Seq<char>, from: int) -> int
    decreases path.len() - from,
{
    if 0 <= from && from + 2 <= path.len() && path[from] == '.' && path[from + 1] == '/' {
        skip_current(path, from + 2)
    } else {
        from
    }
}

/// The name by which a file is looked up in a list of patterns: its path with
/// slashes for backslashes, and without any `./` at its start.
pub open spec fn lookup_name(path: Seq<char>) -> Seq<char> {
    slashed(path).skip(skip_current(slashed(path), 0))
}

/// Whether `piece` is the one character `.`.
fn is_dot(piece: &Vec<char>) -> (b: bool)
    ensures
        b == (piece@ == dot()),
{
    let b = piece.len() == 1 && piece[0] == '.';
    proof {
        if b {
            assert(piece@ == dot());
        }
    }
    b
}

/// Whether `piece` is the two characters `..`.
fn is_dot_dot(piece: &Vec<char>) -> (b: bool)
    ensures
        b == (piece@ == dot_dot()),
{
    let b = piece.len() == 2 && piece[0] == '.' && piece[1] == '.';
    proof {
        if b {
            assert(piece@ == dot_dot());
        }
    }
    b
}

/// Whether one of the pieces of `path` is hidden.
pub fn path_is_hidden(path: &Vec<char>) -> (hidden: bool)
    ensures
        hidden == is_hidden(path@),
{
    let parts = split_on(path, '/');
    let mut i: usize = 0;
    while i < parts.len()
        invariant
            i <= parts.len(),
            chars_views(parts@) == pieces(path@),
            forall|k: int| 0 <= k < i ==> !is_hidden_piece(#[trigger] pieces(path@)[k]),
        decreases parts.len() - i,
    {
        let piece = &parts[i];
        assert(chars_views(parts@)[i as int] == piece@);
        if piece.len() > 0 && piece[0] == '.' && !is_dot(piece) && !is_dot_dot(piece) {
            return true;
        }
        i += 1;
    }
    false
}

/// Lists the components of `path`.
pub fn path_components(path: &Vec<char>) -> (out: Vec<Vec<char>>)
    ensures
        chars_views(out@) == components(path@),
{
    let parts = split_on(path, '/');
    let mut out: Vec<Vec<char>> = Vec::new();
    if path.len() > 0 && path[0] == '/' {
        let mut root: Vec<char> = Vec::new();
        root.push('/');
        out.push(root);
    } else if is_dot(&parts[0]) {
        let mut current: Vec<char> = Vec::new();
        current.push('.');
        out.push(current);
    }
    let mut i: usize = 0;
    while i < parts.len()
        invariant
            i <= parts.len(),
            chars_views(parts@) == pieces(path@),
            chars_views(out@) == lead(path@) + names(pieces(path@).take(i as int)),
        decreases parts.len() - i,
    {
        let piece = &parts[i];
        proof {
            assert(pieces(path@).take(i + 1).drop_last() == pieces(path@).take(i as int));
        }
        if piece.len() > 0 && !is_dot(piece) {
            let ghost listed = chars_views(out@);
            let copy = copy_range(piece, 0, piece.len());
            assert(copy@ == piece@);
            out.push(copy);
            proof {
                assert(chars_views(out@) == listed.push(piece@));
            }
        }
        i += 1;
    }
    assert(pieces(path@).take(parts.len() as int) == pieces(path@));
    out
}

/// The extension of the file name `name`.
pub fn extension_of_name(name: &Vec<char>) -> (out: Vec<char>)
    ensures
        out@ == name_extension(name@),
{
    let mut at: usize = name.len();
    assert(name@.take(name.len() as int) == name@);
    while at > 0 && name[at - 1] != '.'
        invariant
            at <= name.len(),
            last_position(name@, '.') == last_position(name@.take(at as int), '.'),
        decreases at,
    {
        proof {
            assert(name@.take(at as int).drop_last() == name@.take(at - 1));
        }
        at -= 1;
    }
    // `at` is one past the last dot, or zero if there is none.
    if at > 1 {
        let out = copy_range(name, at, name.len());
        out
    } else {
        Vec::new()
    }
}

/// The extension of `path`.
pub fn path_extension(path: &Vec<char>) -> (out: Vec<char>)
    ensures
        out@ == extension(path@),
{
    let parts = path_components(path);
    if parts.len() == 0 {
        return Vec::new();
    }
    extension_of_name(&parts[parts.len() - 1])
}

/// The name by which the file at `path` is looked up in a list of patterns.
pub fn to_lookup_name(path: &Vec<char>) -> (out: Vec<char>)
    ensures
        out@ == lookup_name(path@),
        !out@.contains('\\'),
{
    let mut posix: Vec<char> = Vec::new();
    let mut i: usize = 0;
    while i < path.len()
        invariant
            i <= path.len(),
            posix@ == slashed(path@.take(i as int)),
            !posix@.contains('\\'),
        decreases path.len() - i,
    {
        let c = path[i];
        posix.push(if c == '\\' {
            '/'
        } else {
            c
        });
        proof {
            assert forall|k: int| 0 <= k < posix@.len() implies posix@[k] != '\\' by {}
        }
        i += 1;
    }
    assert(path@.take(path.len() as int) == path@);
    let mut from: usize = 0;
    while posix.len() - from >= 2 && posix[from] == '.' && posix[from + 1] == '/'
        invariant
            from <= posix.len(),
            skip_current(posix@, 0) == skip_current(posix@, from as int),
        decreases posix.len() - from,
    {
        from += 2;
    }
    let out = copy_range(&posix, from, posix.len());
    proof {
        assert forall|k: int| 0 <= k < out@.len() implies out@[k] != '\\' by {}
    }
    out
}

/// Whether the components `shorter` are the first of the components `longer`.
pub fn components_start_with(longer: &Vec<Vec<char>>, shorter: &Vec<Vec<char>>) -> (b: bool)
    ensures
        b == chars_views(shorter@).is_prefix_of(chars_views(longer@)),
{
    if shorter.len() > longer.len() {
        return false;
    }
    let mut i: usize = 0;
    while i < shorter.len()
        invariant
            i <= shorter.len() <= longer.len(),
            forall|k: int| 0 <= k < i ==> chars_views(shorter@)[k] == chars_views(longer@)[k],
        decreases shorter.len() - i,
    {
        proof {
            assert(chars_views(shorter@)[i as int] == shorter@[i as int]@);
        }
        if !same_chars(&shorter[i], &longer[i]) {
            return false;
        }
        i += 1;
    }
    true
}

} // verus!
