//! A pull request review, as the caller proposes it.

use crate::thread_comments::DEFAULT_MARKER;
use vstd::prelude::*;
use vstd::string::StringExecFns;

verus! {

/// What a review recommends.
#[derive(Debug, PartialEq, Eq, Structural, Clone, Copy)]
pub enum ReviewAction {
    /// Approve the changes.
    Approve,
    /// Ask for changes.
    RequestChanges,
    /// Comment without approving or asking for changes.
    Comment,
}

impl Default for ReviewAction {
    fn default() -> (action: Self)
        ensures
            action == ReviewAction::Comment,
    {
        ReviewAction::Comment
    }
}

/// One comment of a review, on a span of lines of one file.
#[derive(Debug, PartialEq, Eq, Clone, Hash)]
pub struct ReviewComment {
    /// The first line of the span, where the span has more than one line.
    pub line_start: Option<u32>,
    /// The last line of the span.
    pub line_end: u32,
    /// The text of the comment, with or without the marker in front.
    pub comment: String,
    /// The file that the comment is about.
    pub path: String,
}

/// What a [`ReviewComment`] holds.
pub struct ReviewCommentView {
    pub line_start: Option<u32>,
    pub line_end: u32,
    pub comment: Seq<char>,
    pub path: Seq<char>,
}

impl View for ReviewComment {
    type V = ReviewCommentView;

    open spec fn view(&self) -> ReviewCommentView {
        ReviewCommentView {
            line_start: self.line_start,
            line_end: self.line_end,
            comment: self.comment@,
            path: self.path@,
        }
    }
}

/// What each of `comments` holds.
pub open spec fn comment_views(comments: Seq<ReviewComment>) -> Seq<ReviewCommentView> {
    comments.map_values(|c: ReviewComment| c@)
}

/// A review of a pull request.
#[derive(Debug, PartialEq, Eq, Clone)]
pub struct ReviewOptions {
    /// What the review recommends.
    pub action: ReviewAction,
    /// The summary of the review.
    pub summary: String,
    /// The comments of the review.
    pub comments: Vec<ReviewComment>,
    /// The text that marks the summary and each comment as this bot's.
    pub marker: String,
    /// Post reviews on draft pull requests too.
    pub allow_draft: bool,
    /// Post reviews on closed pull requests too.
    pub allow_closed: bool,
    /// Delete outdated review comments for good, in place of resolving them.
    ///
    /// This never reaches whole threads or review summaries.
    pub delete_review_comments: bool,
}

impl Default for ReviewOptions {
    fn default() -> (options: Self)
        ensures
            options.action == ReviewAction::Comment,
            options.summary@ == Seq::<char>::empty(),
            options.comments@ == Seq::<ReviewComment>::empty(),
            options.marker@ == DEFAULT_MARKER@,
            !options.allow_draft,
            !options.allow_closed,
            !options.delete_review_comments,
    {
        ReviewOptions {
            action: ReviewAction::Comment,
            summary: String::new(),
            comments: Vec::new(),
            marker: String::from_str(DEFAULT_MARKER),
            allow_draft: false,
            allow_closed: false,
            delete_review_comments: false,
        }
    }
}

} // verus!
