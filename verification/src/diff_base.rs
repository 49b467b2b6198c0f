//! Where the diff of a local checkout starts from.
//!
//! The caller names a base, and asks the repository whether the name
//! resolves to a commit. A name that does not resolve and is a number stands
//! for that many commits before `HEAD`.

use crate::numbers::all_digits;
use crate::text::{append, char_is_digit, to_chars, to_string};
use vstd::prelude::*;

verus! {

/// The commit that a diff starts from.
#[derive(Debug, PartialEq, Eq, Clone)]
pub enum DiffBase {
    /// The commit that this reference resolves to.
    Reference(String),
    /// The ancestor of `HEAD` this many commits back; the number is kept as
    /// it was written.
    Ancestor(String),
}

/// What a [`DiffBase`] holds.
pub enum DiffBaseView {
    Reference(Seq<char>),
    Ancestor(Seq<char>),
}

impl View for DiffBase {
    type V = DiffBaseView;

    open spec fn view(&self) -> DiffBaseView {
        match self {
            DiffBase::Reference(name) => DiffBaseView::Reference(name@),
            DiffBase::Ancestor(count) => DiffBaseView::Ancestor(count@),
        }
    }
}

impl DiffBaseView {
    /// The base as a revision: the reference itself, or `HEAD~` and the number.
    pub open spec fn revision(self) -> Seq<char> {
        match self {
            DiffBaseView::Reference(name) => name,
            DiffBaseView::Ancestor(count) => "HEAD~"@ + count,
        }
    }
}

/// What `reference` stands for, given whether it resolves: itself where it
/// does; else, where it is one or more of the digits `0` to `9`, that many
/// commits before `HEAD`; else nothing.
pub open spec fn base_of(reference: Seq<char>, resolves: bool) -> Option<DiffBaseView> {
    if resolves {
        Some(DiffBaseView::Reference(reference))
    } else if reference.len() > 0 && all_digits(reference) {
        Some(DiffBaseView::Ancestor(reference))
    } else {
        None
    }
}

/// What a base holds, if there is one.
pub open spec fn base_view(base: Option<DiffBase>) -> Option<DiffBaseView> {
    match base {
        Some(b) => Some(b@),
        None => None,
    }
}

impl DiffBase {
    /// The base as a revision.
    pub fn revision(&self) -> (text: String)
        ensures
            text@ == self@.revision(),
    {
        match self {
            DiffBase::Reference(name) => name.clone(),
            DiffBase::Ancestor(count) => {
                let mut out = to_chars("HEAD~");
                append(&mut out, &to_chars(count.as_str()));
                to_string(&out)
            },
        }
    }
}

/// Decides what the base `reference` of a diff stands for, given whether the
/// repository resolves it.
pub fn diff_base(reference: &str, resolves: bool) -> (base: Option<DiffBase>)
    ensures
        base_view(base) == base_of(reference@, resolves),
{
    let chars = to_chars(reference);
    if resolves {
        return Some(DiffBase::Reference(to_string(&chars)));
    }
    if chars.len() == 0 {
        return None;
    }
    let mut i: usize = 0;
    while i < chars.len()
        invariant
            i <= chars.len(),
            chars@ == reference@,
            !resolves,
            all_digits(chars@.take(i as int)),
        decreases chars.len() - i,
    {
        if !char_is_digit(chars[i]) {
            return None;
        }
        i += 1;
    }
    assert(chars@.take(chars.len() as int) == chars@);
    Some(DiffBase::Ancestor(to_string(&chars)))
}

} // verus!
