//! Feedback of CI bots on a hosted Git server, and the changed lines that the
//! feedback is about.
//!
//! The crate decides; it does not talk to a server or read a disk. Its parts:
//!
//! - [`git_diff`] reads a unified diff into the added lines and the hunks of
//!   each file, and [`file_utils`] keeps them and decides, with
//!   [`FileFilter`], which files are in scope;
//! - [`client`] judges the answers of a server that limits the rate of
//!   requests, finds the next page of a listing, keeps one comment of the
//!   bot on a thread, and reconciles the comments of a review with those
//!   that the bot posted before;
//! - [`file_annotations`] and [`output_variable`] lay out what a workflow
//!   reads from the bot.
//!
//! A comment is the bot's if it begins with the marker that the caller
//! chose; see [`thread_comments`].

use vstd::prelude::*;

pub mod client;
pub mod diff_base;
pub mod error;
pub mod file_annotations;
pub mod file_utils;
pub mod git_diff;
pub mod numbers;
pub mod output_variable;
pub mod review_comments;
pub mod text;
pub mod thread_comments;

pub use client::RestApiRateLimitHeaders;
pub use error::RateLimitError;
pub use file_annotations::{AnnotationLevel, FileAnnotation};
pub use file_utils::file_filter::FileFilter;
pub use file_utils::{FileDiffLines, LinesChangedOnly};
pub use git_diff::{parse_diff, DiffHunkHeader, FileChanges};
pub use output_variable::OutputVariable;
pub use review_comments::{ReviewAction, ReviewComment, ReviewOptions};
pub use thread_comments::{CommentPolicy, ThreadCommentOptions, DEFAULT_MARKER};

verus! {

/// What a comment is for.
#[derive(Debug, PartialEq, Eq, Structural, Clone, Copy)]
pub enum CommentKind {
    /// The comment raises concerns.
    Concerns,
    /// The comment says "Looks Good To Me".
    Lgtm,
}

impl Default for CommentKind {
    fn default() -> (kind: Self)
        ensures
            kind == CommentKind::Concerns,
    {
        CommentKind::Concerns
    }
}

} // verus!
