//! What the server lists: comments, changed files and reviews.

use vstd::prelude::*;

verus! {

/// The author of a comment.
#[derive(Debug, PartialEq, Eq, Clone)]
pub struct User {
    pub login: String,
    pub id: u64,
}

/// A comment on a thread, as the server lists it.
#[derive(Debug, PartialEq, Eq, Clone)]
pub struct ThreadComment {
    /// The comment's id.
    pub id: i64,
    /// The comment's text.
    pub body: String,
    /// The comment's author.
    pub user: User,
}

/// One changed file, as the server lists it.
#[derive(Debug, PartialEq, Eq, Clone)]
pub struct GithubChangedFile {
    /// The file's path from the root of the repository.
    pub filename: String,
    /// The file's earlier path, if the file was renamed.
    pub previous_filename: Option<String>,
    /// The patch with the file's changes, if the server sent one.
    pub patch: Option<String>,
    /// The number of changes to the file's contents.
    pub changes: i64,
}

/// The changed files of a push.
#[derive(Debug, PartialEq, Eq, Clone)]
pub struct PushEventFiles {
    pub files: Vec<GithubChangedFile>,
}

/// The state of a review.
#[derive(Debug, PartialEq, Eq, Structural, Clone, Copy)]
pub enum ReviewState {
    Approved,
    ChangesRequested,
    Commented,
    Dismissed,
    Pending,
}

/// A review of a pull request, as the server lists it.
#[derive(Debug, PartialEq, Eq, Clone)]
pub struct ReviewSummary {
    /// The review's id in the REST API.
    pub id: i64,
    /// The review's id in the query API.
    pub node_id: String,
    /// The review's summary, if it has one.
    pub body: Option<String>,
    /// The review's state.
    pub state: ReviewState,
}

} // verus!
