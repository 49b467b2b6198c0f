//! Options of a comment on a thread, and the marker that tells a bot's
//! comment from a person's.

use crate::text::{has_prefix, starts_with, to_chars};
use crate::CommentKind;
use vstd::prelude::*;
use vstd::string::StringExecFns;

verus! {

/// The marker that comments carry where the caller names none.
pub const DEFAULT_MARKER: &'static str = "<!-- git_bot_feedback/0.1.0/Jan-01-2026_00-00 -->\n";

/// How a comment on a thread is posted.
#[derive(Debug, PartialEq, Eq, Structural, Clone, Copy)]
pub enum CommentPolicy {
    /// Each comment is posted as a new one, after the old ones are removed.
    Anew,
    /// One comment is kept and updated.
    Update,
}

impl Default for CommentPolicy {
    fn default() -> (policy: Self)
        ensures
            policy == CommentPolicy::Update,
    {
        CommentPolicy::Update
    }
}

/// `body` with `marker` in front of it, unless it begins with `marker` already.
pub open spec fn marked(marker: Seq<char>, body: Seq<char>) -> Seq<char> {
    if has_prefix(body, marker) {
        body
    } else {
        marker + body
    }
}

/// Whether `text` begins with `prefix`.
pub fn str_starts_with(text: &str, prefix: &str) -> (b: bool)
    ensures
        b == has_prefix(text@, prefix@),
{
    let text = to_chars(text);
    let prefix = to_chars(prefix);
    starts_with(&text, &prefix)
}

/// Puts `marker` in front of `body`, unless `body` begins with it already.
pub fn mark(marker: &str, body: &str) -> (out: String)
    ensures
        out@ == marked(marker@, body@),
{
    if str_starts_with(body, marker) {
        String::from_str(body)
    } else {
        String::from_str(marker).concat(body)
    }
}

/// What to post on a thread, and how.
#[derive(Debug)]
pub struct ThreadCommentOptions {
    /// Whether the comment replaces the bot's earlier ones or updates one of them.
    pub policy: CommentPolicy,
    /// The comment to post.
    ///
    /// May be blank if [`Self::no_lgtm`] is set and [`Self::kind`] says that
    /// all looks good.
    pub comment: String,
    /// What the comment is for.
    pub kind: CommentKind,
    /// The text that marks a comment as one of this bot's.
    ///
    /// A person's comment cannot be told from the bot's if it begins with the
    /// same text: choose something unique, such as an HTML comment.
    pub marker: String,
    /// Do not post "Looks Good To Me" comments.
    ///
    /// With this set, such a comment still causes the bot's old comments to be
    /// removed.
    pub no_lgtm: bool,
}

impl Default for ThreadCommentOptions {
    fn default() -> (options: Self)
        ensures
            options.policy == CommentPolicy::Update,
            options.comment@ == Seq::<char>::empty(),
            options.kind == CommentKind::Concerns,
            options.marker@ == DEFAULT_MARKER@,
            !options.no_lgtm,
    {
        ThreadCommentOptions {
            policy: CommentPolicy::Update,
            comment: String::new(),
            kind: CommentKind::Concerns,
            marker: String::from_str(DEFAULT_MARKER),
            no_lgtm: false,
        }
    }
}

impl ThreadCommentOptions {
    /// The comment as it is posted: with the marker in front.
    pub fn mark_comment(&self) -> (body: String)
        ensures
            body@ == marked(self.marker@, self.comment@),
    {
        mark(self.marker.as_str(), self.comment.as_str())
    }

    /// A "Looks Good To Me" comment that is not wanted: the bot's old
    /// comments go, and nothing is posted.
    pub open spec fn suppressed(&self) -> bool {
        self.kind == CommentKind::Lgtm && self.no_lgtm
    }
}

} // verus!
