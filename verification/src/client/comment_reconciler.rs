//! Keeping one comment of the bot on a thread.
//!
//! The bot's comments are those whose text begins with the marker. The
//! caller lists the thread's comments page by page and hands each page to
//! [`CommentReconciler::absorb_page`], which names the comments to delete.
//! When the listing ends, or breaks off, [`CommentReconciler::finish`] names
//! the one write that is left to do.

use crate::client::github::payloads::ThreadComment;
use crate::text::has_prefix;
use crate::thread_comments::{marked, str_starts_with, CommentPolicy, ThreadCommentOptions};
use crate::CommentKind;
use vstd::prelude::*;

verus! {

/// The ids of the bot's comments among `comments`, in order.
pub open spec fn bot_comment_ids(comments: Seq<ThreadComment>, marker: Seq<char>) -> Seq<i64>
    decreases comments.len(),
{
    if comments.len() == 0 {
        Seq::empty()
    } else {
        let before = bot_comment_ids(comments.drop_last(), marker);
        if has_prefix(comments.last().body@, marker) {
            before.push(comments.last().id)
        } else {
            before
        }
    }
}

/// The ids in line for the one place that is kept: the comment kept so far,
/// if there is one, and then the bot's comments of the page.
pub open spec fn candidates(target: Option<i64>, comments: Seq<ThreadComment>, marker: Seq<char>) -> Seq<
    i64,
> {
    match target {
        Some(id) => seq![id] + bot_comment_ids(comments, marker),
        None => bot_comment_ids(comments, marker),
    }
}

/// The last write of an upsert.
#[derive(Debug, PartialEq, Eq, Clone)]
pub enum CommentWrite {
    /// Nothing is written.
    Nothing,
    /// The comment with this id gets the new text.
    Patch { id: i64, body: String },
    /// A new comment is posted.
    Post { body: String },
}

/// The state of an upsert while the thread's comments are listed.
#[derive(Debug)]
pub struct CommentReconciler {
    delete_all: bool,
    target: Option<i64>,
}

impl CommentReconciler {
    #[verifier::type_invariant]
    spec fn consistent(self) -> bool {
        self.delete_all ==> self.target is None
    }

    /// Whether every comment of the bot is deleted.
    pub closed spec fn deletes_all(&self) -> bool {
        self.delete_all
    }

    /// The comment that is kept so far.
    pub closed spec fn kept(&self) -> Option<i64> {
        self.target
    }

    /// The start of an upsert under `options`. Every comment of the bot is
    /// deleted where the policy is to post anew, and where the comment says
    /// that all looks good and such comments are not wanted.
    pub fn new(options: &ThreadCommentOptions) -> (state: Self)
        ensures
            state.deletes_all() == (options.policy == CommentPolicy::Anew || options.suppressed()),
            state.kept() is None,
    {
        let is_lgtm = options.kind == CommentKind::Lgtm;
        CommentReconciler {
            delete_all: options.policy == CommentPolicy::Anew || (is_lgtm && options.no_lgtm),
            target: None,
        }
    }

    /// The id of the comment that is kept so far.
    pub fn target(&self) -> (id: Option<i64>)
        ensures
            id == self.kept(),
            self.deletes_all() ==> id is None,
    {
        proof {
            use_type_invariant(self);
        }
        self.target
    }

    /// Takes in one page of the thread's comments and returns the ids of the
    /// comments to delete, in order.
    ///
    /// Where all are deleted, these are the bot's comments of the page. Else
    /// the last of the bot's comments seen so far is kept, and every earlier
    /// one is deleted.
    pub fn absorb_page(&mut self, comments: &Vec<ThreadComment>, marker: &str) -> (deletions: Vec<
        i64,
    >)
        ensures
            final(self).deletes_all() == old(self).deletes_all(),
            old(self).deletes_all() ==> deletions@ == bot_comment_ids(comments@, marker@)
                && final(self).kept() is None,
            !old(self).deletes_all() ==> ({
                let line = candidates(old(self).kept(), comments@, marker@);
                if line.len() == 0 {
                    deletions@.len() == 0 && final(self).kept() is None
                } else {
                    deletions@ == line.drop_last() && final(self).kept() == Some(line.last())
                }
            }),
    {
        proof {
            use_type_invariant(&*self);
        }
        let mut deletions: Vec<i64> = Vec::new();
        let mut i: usize = 0;
        while i < comments.len()
            invariant
                i <= comments.len(),
                self.delete_all == old(self).delete_all,
                self.delete_all ==> self.target is None && deletions@ == bot_comment_ids(
                    comments@.take(i as int),
                    marker@,
                ),
                !self.delete_all ==> ({
                    let line = candidates(old(self).target, comments@.take(i as int), marker@);
                    if line.len() == 0 {
                        deletions@.len() == 0 && self.target is None
                    } else {
                        deletions@ == line.drop_last() && self.target == Some(line.last())
                    }
                }),
            decreases comments.len() - i,
        {
            let comment = &comments[i];
            proof {
                assert(comments@.take(i + 1).drop_last() == comments@.take(i as int));
            }
            if str_starts_with(comment.body.as_str(), marker) {
                if self.delete_all {
                    deletions.push(comment.id);
                } else {
                    match self.target {
                        Some(earlier) => {
                            deletions.push(earlier);
                        },
                        None => {},
                    }
                    self.target = Some(comment.id);
                }
            }
            i += 1;
        }
        assert(comments@.take(comments.len() as int) == comments@);
        deletions
    }

    /// The write that ends the upsert: none where the comment is not wanted;
    /// else an update of the comment that was kept; else a new comment. The
    /// text carries the marker.
    pub fn finish(&self, options: &ThreadCommentOptions) -> (write: CommentWrite)
        ensures
            options.suppressed() ==> write == CommentWrite::Nothing,
            !options.suppressed() ==> match self.kept() {
                Some(kept) => write matches CommentWrite::Patch { id, body } && id == kept && body@
                    == marked(options.marker@, options.comment@),
                None => write matches CommentWrite::Post { body } && body@ == marked(
                    options.marker@,
                    options.comment@,
                ),
            },
    {
        let is_lgtm = options.kind == CommentKind::Lgtm;
        if is_lgtm && options.no_lgtm {
            return CommentWrite::Nothing;
        }
        let body = options.mark_comment();
        match self.target {
            Some(id) => CommentWrite::Patch { id, body },
            None => CommentWrite::Post { body },
        }
    }
}

} // verus!
