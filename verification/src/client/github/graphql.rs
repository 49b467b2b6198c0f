//! Review threads of a pull request: collecting the bot's comments from the
//! pages of a nested, paged query, and deciding which of them stay.
//!
//! Nothing here talks to a server. The caller fetches a page, hands it to
//! [`ReviewThreadScan::absorb_page`], and asks the scan what to fetch next;
//! once the scan is complete, [`check_reused_comments`] says which reviews to
//! keep and which comments and threads to close, in the order to close them.

use crate::client::github::payloads::{ReviewState, ReviewSummary};
use crate::review_comments::{comment_views, ReviewComment, ReviewCommentView, ReviewOptions};
use crate::text::has_prefix;
use crate::thread_comments::{mark, marked, str_starts_with};
use vstd::prelude::*;
use vstd::string::StringExecFns;

verus! {

/// What identifies a review thread, and whether it is still open to view.
#[derive(Debug, PartialEq, Eq, Hash, Clone)]
pub struct ThreadInfo {
    pub id: String,
    pub is_collapsed: bool,
    pub is_resolved: bool,
}

/// What a [`ThreadInfo`] holds.
pub struct ThreadInfoView {
    pub id: Seq<char>,
    pub is_collapsed: bool,
    pub is_resolved: bool,
}

impl View for ThreadInfo {
    type V = ThreadInfoView;

    open spec fn view(&self) -> ThreadInfoView {
        ThreadInfoView {
            id: self.id@,
            is_collapsed: self.is_collapsed,
            is_resolved: self.is_resolved,
        }
    }
}

impl ThreadInfo {
    /// The identity of `thread`.
    pub fn from(thread: &QueryResponseReviewThread) -> (info: Self)
        ensures
            info@ == thread.info(),
    {
        ThreadInfo {
            id: thread.id.clone(),
            is_collapsed: thread.is_collapsed,
            is_resolved: thread.is_resolved,
        }
    }

    /// Whether `self` and `other` identify the same thread in the same state.
    pub fn same_as(&self, other: &ThreadInfo) -> (same: bool)
        ensures
            same == (self@ == other@),
    {
        self.id == other.id && self.is_collapsed == other.is_collapsed && self.is_resolved
            == other.is_resolved
    }

    /// A copy of `self`.
    pub fn duplicate(&self) -> (copy: Self)
        ensures
            copy@ == self@,
    {
        ThreadInfo {
            id: self.id.clone(),
            is_collapsed: self.is_collapsed,
            is_resolved: self.is_resolved,
        }
    }
}

/// What a close request is aimed at.
#[derive(Debug, Clone)]
pub enum IdKind {
    /// A whole thread, by its id.
    Thread(String),
    /// One comment, by its id.
    Comment(String),
}

/// What an [`IdKind`] holds.
pub enum IdKindView {
    Thread(Seq<char>),
    Comment(Seq<char>),
}

impl View for IdKind {
    type V = IdKindView;

    open spec fn view(&self) -> IdKindView {
        match self {
            IdKind::Thread(id) => IdKindView::Thread(id@),
            IdKind::Comment(id) => IdKindView::Comment(id@),
        }
    }
}

impl IdKindView {
    /// The id itself.
    pub open spec fn value(self) -> Seq<char> {
        match self {
            IdKindView::Thread(id) => id,
            IdKindView::Comment(id) => id,
        }
    }
}

impl IdKindView {
    /// What the target is called in messages: `thread` or `comment`, and
    /// the id.
    pub open spec fn description(self) -> Seq<char> {
        match self {
            IdKindView::Thread(id) => "thread "@ + id,
            IdKindView::Comment(id) => "comment "@ + id,
        }
    }
}

impl IdKind {
    /// The target as it is called in messages.
    pub fn to_string(&self) -> (text: String)
        ensures
            text@ == self@.description(),
    {
        match self {
            IdKind::Thread(id) => String::from_str("thread ").concat(id.as_str()),
            IdKind::Comment(id) => String::from_str("comment ").concat(id.as_str()),
        }
    }

    /// The id itself.
    pub fn value(&self) -> (id: &str)
        ensures
            id@ == self@.value(),
    {
        match self {
            IdKind::Thread(id) => id.as_str(),
            IdKind::Comment(id) => id.as_str(),
        }
    }
}

/// The review that a comment belongs to.
#[derive(Debug, Clone, PartialEq, Eq, Hash)]
pub struct QueryResponsePrReview {
    pub id: String,
    pub is_minimized: bool,
}

/// One comment of a review thread, as the server reports it.
#[derive(Debug, Clone, PartialEq, Eq, Hash)]
pub struct QueryResponseReviewThreadComment {
    pub id: String,
    pub body: String,
    pub path: String,
    pub line: Option<i64>,
    pub start_line: Option<i64>,
    pub original_line: i64,
    pub original_start_line: Option<i64>,
    pub pull_request_review: QueryResponsePrReview,
}

/// What a [`QueryResponseReviewThreadComment`] holds.
pub struct ThreadCommentView {
    pub id: Seq<char>,
    pub body: Seq<char>,
    pub path: Seq<char>,
    pub line: Option<i64>,
    pub start_line: Option<i64>,
    pub original_line: i64,
    pub original_start_line: Option<i64>,
    pub review_id: Seq<char>,
    pub review_is_minimized: bool,
}

impl View for QueryResponseReviewThreadComment {
    type V = ThreadCommentView;

    open spec fn view(&self) -> ThreadCommentView {
        ThreadCommentView {
            id: self.id@,
            body: self.body@,
            path: self.path@,
            line: self.line,
            start_line: self.start_line,
            original_line: self.original_line,
            original_start_line: self.original_start_line,
            review_id: self.pull_request_review.id@,
            review_is_minimized: self.pull_request_review.is_minimized,
        }
    }
}

impl ThreadCommentView {
    /// The first line of the span that the comment is on, if the span has one:
    /// the current one, else the original one.
    pub open spec fn effective_start(self) -> Option<i64> {
        if self.start_line is Some {
            self.start_line
        } else {
            self.original_start_line
        }
    }

    /// The last line of the span that the comment is on: the current one, else
    /// the original one.
    pub open spec fn effective_end(self) -> i64 {
        match self.line {
            Some(line) => line,
            None => self.original_line,
        }
    }
}

impl QueryResponseReviewThreadComment {
    /// Whether `self` and `other` hold the same values.
    pub fn same_as(&self, other: &QueryResponseReviewThreadComment) -> (same: bool)
        ensures
            same == (self@ == other@),
    {
        self.id == other.id && self.body == other.body && self.path == other.path && self.line
            == other.line && self.start_line == other.start_line && self.original_line
            == other.original_line && self.original_start_line == other.original_start_line
            && self.pull_request_review.id == other.pull_request_review.id
            && self.pull_request_review.is_minimized == other.pull_request_review.is_minimized
    }

    /// A copy of `self`.
    pub fn duplicate(&self) -> (copy: Self)
        ensures
            copy@ == self@,
    {
        QueryResponseReviewThreadComment {
            id: self.id.clone(),
            body: self.body.clone(),
            path: self.path.clone(),
            line: self.line,
            start_line: self.start_line,
            original_line: self.original_line,
            original_start_line: self.original_start_line,
            pull_request_review: QueryResponsePrReview {
                id: self.pull_request_review.id.clone(),
                is_minimized: self.pull_request_review.is_minimized,
            },
        }
    }
}

/// What each of `comments` holds.
pub open spec fn thread_comment_views(comments: Seq<QueryResponseReviewThreadComment>) -> Seq<
    ThreadCommentView,
> {
    comments.map_values(|c: QueryResponseReviewThreadComment| c@)
}

/// Where a page of results ends, and whether another follows.
#[derive(Debug, Clone)]
pub struct PageInfo {
    pub has_next_page: bool,
    pub end_cursor: Option<String>,
}

/// What a cursor holds, if there is one.
pub open spec fn cursor_view(cursor: Option<String>) -> Option<Seq<char>> {
    match cursor {
        Some(c) => Some(c@),
        None => None,
    }
}

/// A copy of `cursor`.
pub fn copy_cursor(cursor: &Option<String>) -> (copy: Option<String>)
    ensures
        cursor_view(copy) == cursor_view(*cursor),
{
    match cursor {
        Some(c) => Some(c.clone()),
        None => None,
    }
}

/// One page of the comments of a thread.
#[derive(Debug)]
pub struct QueryResponseReviewThreadComments {
    pub nodes: Vec<QueryResponseReviewThreadComment>,
    pub page_info: PageInfo,
}

/// A review thread with one page of its comments, as the server reports it.
#[derive(Debug)]
pub struct QueryResponseReviewThread {
    pub id: String,
    pub is_collapsed: bool,
    pub is_resolved: bool,
    pub comments: QueryResponseReviewThreadComments,
}

impl QueryResponseReviewThread {
    /// The identity of the thread.
    pub open spec fn info(&self) -> ThreadInfoView {
        ThreadInfoView {
            id: self.id@,
            is_collapsed: self.is_collapsed,
            is_resolved: self.is_resolved,
        }
    }
}

/// One page of the review threads of a pull request.
#[derive(Debug)]
pub struct QueryResponseReviewThreads {
    pub nodes: Vec<QueryResponseReviewThread>,
    pub page_info: PageInfo,
}

/// A review thread and those of its comments that the bot wrote.
#[derive(Debug)]
pub struct ReviewThread {
    pub info: ThreadInfo,
    pub comments: Vec<QueryResponseReviewThreadComment>,
}

/// What a [`ReviewThread`] holds.
pub struct ReviewThreadView {
    pub info: ThreadInfoView,
    pub comments: Seq<ThreadCommentView>,
}

impl View for ReviewThread {
    type V = ReviewThreadView;

    open spec fn view(&self) -> ReviewThreadView {
        ReviewThreadView { info: self.info@, comments: thread_comment_views(self.comments@) }
    }
}

/// What each of `threads` holds.
pub open spec fn thread_views(threads: Seq<ReviewThread>) -> Seq<ReviewThreadView> {
    threads.map_values(|t: ReviewThread| t@)
}

/// A request to close a comment or a thread of a review.
#[derive(Debug, Clone)]
pub struct ReviewClosure {
    /// What to close.
    pub target: IdKind,
    /// Delete it for good, in place of resolving it. Never set for a thread.
    pub delete: bool,
}

/// What a [`ReviewClosure`] holds.
pub struct ReviewClosureView {
    pub target: IdKindView,
    pub delete: bool,
}

impl View for ReviewClosure {
    type V = ReviewClosureView;

    open spec fn view(&self) -> ReviewClosureView {
        ReviewClosureView { target: self.target@, delete: self.delete }
    }
}

/// What each of `closures` holds.
pub open spec fn closure_views(closures: Seq<ReviewClosure>) -> Seq<ReviewClosureView> {
    closures.map_values(|c: ReviewClosure| c@)
}

/// What each of `ids` holds.
pub open spec fn id_views(ids: Seq<String>) -> Seq<Seq<char>> {
    ids.map_values(|id: String| id@)
}

/// What a reconciliation has decided so far.
pub struct Reconciliation {
    /// The ids of the reviews to keep on display, one for each comment that
    /// was matched.
    pub keep: Seq<Seq<char>>,
    /// The proposed comments that no existing comment has matched yet.
    pub pending: Seq<ReviewCommentView>,
    /// The comments and threads to close, in the order to close them.
    pub closures: Seq<ReviewClosureView>,
}

/// An existing `comment` of the thread `info` says what `proposed` would say,
/// at the same place, and is on display: same file, same span of lines, same
/// body once `proposed` carries the marker, in a thread that is neither
/// resolved nor collapsed, of a review that is not minimized.
pub open spec fn is_reusable(
    info: ThreadInfoView,
    comment: ThreadCommentView,
    proposed: ReviewCommentView,
    marker: Seq<char>,
) -> bool {
    &&& proposed.path == comment.path
    &&& match (proposed.line_start, comment.effective_start()) {
        (Some(a), Some(b)) => a as int == b as int,
        (None, None) => true,
        _ => false,
    }
    &&& proposed.line_end as int == comment.effective_end() as int
    &&& marked(marker, proposed.comment) == comment.body
    &&& !info.is_resolved
    &&& !info.is_collapsed
    &&& !comment.review_is_minimized
}

/// The position at or after `from` of the first of `pending` that `comment`
/// can stand for, or the length of `pending` if there is none.
pub open spec fn first_reusable(
    info: ThreadInfoView,
    comment: ThreadCommentView,
    pending: Seq<ReviewCommentView>,
    marker: Seq<char>,
    from: int,
) -> int
    decreases pending.len() - from,
{
    if from < 0 || from >= pending.len() {
        pending.len() as int
    } else if is_reusable(info, comment, pending[from], marker) {
        from
    } else {
        first_reusable(info, comment, pending, marker, from + 1)
    }
}

/// The decision on one existing comment: where it matches a pending proposed
/// comment, its review is kept and the first such proposed comment is no
/// longer pending; else the comment is closed. The flag says whether it
/// matched.
pub open spec fn reconcile_comment(
    state: Reconciliation,
    info: ThreadInfoView,
    comment: ThreadCommentView,
    marker: Seq<char>,
    delete: bool,
) -> (Reconciliation, bool) {
    let at = first_reusable(info, comment, state.pending, marker, 0);
    if at < state.pending.len() {
        (
            Reconciliation {
                keep: state.keep.push(comment.review_id),
                pending: state.pending.remove(at),
                closures: state.closures,
            },
            true,
        )
    } else {
        (
            Reconciliation {
                keep: state.keep,
                pending: state.pending,
                closures: state.closures.push(
                    ReviewClosureView { target: IdKindView::Comment(comment.id), delete },
                ),
            },
            false,
        )
    }
}

/// The decisions on `comments` of one thread, in their order. The flag says
/// whether any of them matched.
pub open spec fn reconcile_comments(
    state: Reconciliation,
    info: ThreadInfoView,
    comments: Seq<ThreadCommentView>,
    marker: Seq<char>,
    delete: bool,
) -> (Reconciliation, bool)
    decreases comments.len(),
{
    if comments.len() == 0 {
        (state, false)
    } else {
        let (before, kept_before) = reconcile_comments(
            state,
            info,
            comments.drop_last(),
            marker,
            delete,
        );
        let (after, kept) = reconcile_comment(before, info, comments.last(), marker, delete);
        (after, kept_before || kept)
    }
}

/// The decisions on one thread: those on its comments, and then, if none of
/// them matched, the thread is resolved. A thread is never deleted.
pub open spec fn reconcile_thread(
    state: Reconciliation,
    thread: ReviewThreadView,
    marker: Seq<char>,
    delete: bool,
) -> Reconciliation {
    let (after, kept) = reconcile_comments(state, thread.info, thread.comments, marker, delete);
    if kept {
        after
    } else {
        Reconciliation {
            keep: after.keep,
            pending: after.pending,
            closures: after.closures.push(
                ReviewClosureView { target: IdKindView::Thread(thread.info.id), delete: false },
            ),
        }
    }
}

/// The decisions on `threads`, in their order.
pub open spec fn reconcile_threads(
    state: Reconciliation,
    threads: Seq<ReviewThreadView>,
    marker: Seq<char>,
    delete: bool,
) -> Reconciliation
    decreases threads.len(),
{
    if threads.len() == 0 {
        state
    } else {
        reconcile_thread(
            reconcile_threads(state, threads.drop_last(), marker, delete),
            threads.last(),
            marker,
            delete,
        )
    }
}

/// Where a reconciliation starts: nothing kept, nothing closed, all of
/// `proposed` pending.
pub open spec fn reconciliation_start(proposed: Seq<ReviewCommentView>) -> Reconciliation {
    Reconciliation { keep: Seq::empty(), pending: proposed, closures: Seq::empty() }
}

/// The decisions that the three lists stand for.
pub open spec fn progress(
    keep: Seq<String>,
    pending: Seq<ReviewComment>,
    closures: Seq<ReviewClosure>,
) -> Reconciliation {
    Reconciliation {
        keep: id_views(keep),
        pending: comment_views(pending),
        closures: closure_views(closures),
    }
}

/// What [`check_reused_comments`] decides besides the comments that remain
/// to be posted.
#[derive(Debug)]
pub struct ReviewPlan {
    /// The ids of the reviews to keep on display.
    pub keep_reviews: Vec<String>,
    /// The comments and threads to close, in the order to close them.
    pub closures: Vec<ReviewClosure>,
}

/// Whether the existing `comment` of the thread `info` can stand for `proposed`.
pub fn can_reuse(
    info: &ThreadInfo,
    comment: &QueryResponseReviewThreadComment,
    proposed: &ReviewComment,
    marker: &str,
) -> (reusable: bool)
    ensures
        reusable == is_reusable(info@, comment@, proposed@, marker@),
{
    if info.is_resolved || info.is_collapsed || comment.pull_request_review.is_minimized {
        return false;
    }
    if proposed.path != comment.path {
        return false;
    }
    let line_start: Option<i64> = if comment.start_line.is_some() {
        comment.start_line
    } else {
        comment.original_start_line
    };
    let same_start = match (proposed.line_start, line_start) {
        (Some(a), Some(b)) => a as i64 == b,
        (None, None) => true,
        _ => false,
    };
    let line_end: i64 = match comment.line {
        Some(line) => line,
        None => comment.original_line,
    };
    if !same_start || proposed.line_end as i64 != line_end {
        return false;
    }
    let body = mark(marker, proposed.comment.as_str());
    body == comment.body
}

/// Matches the bot's existing review comments against the comments of a new
/// review.
///
/// An existing comment that says what a proposed comment would say, at the
/// same place, and is still on display, stands for that proposed comment: its
/// review is kept, and the proposed comment leaves `options.comments`, so that
/// it is not posted again and no second existing comment can stand for it.
/// Every other existing comment is closed: resolved, or deleted where
/// `options.delete_review_comments` is set. A thread none of whose comments
/// was kept is resolved after its comments were closed.
///
/// The caller carries out `closures` in order and stops at the first that
/// fails.
pub fn check_reused_comments(threads: &Vec<ReviewThread>, options: &mut ReviewOptions) -> (plan:
    ReviewPlan)
    ensures
        ({
            let decided = reconcile_threads(
                reconciliation_start(comment_views(old(options).comments@)),
                thread_views(threads@),
                old(options).marker@,
                old(options).delete_review_comments,
            );
            &&& id_views(plan.keep_reviews@) == decided.keep
            &&& closure_views(plan.closures@) == decided.closures
            &&& comment_views(final(options).comments@) == decided.pending
        }),
        spares_threads(closure_views(plan.closures@)),
        plan.keep_reviews@.len() + final(options).comments@.len() == old(options).comments@.len(),
        final(options).marker == old(options).marker,
        final(options).summary == old(options).summary,
        final(options).action == old(options).action,
        final(options).allow_draft == old(options).allow_draft,
        final(options).allow_closed == old(options).allow_closed,
        final(options).delete_review_comments == old(options).delete_review_comments,
{
    proof {
        let start = reconciliation_start(comment_views(options.comments@));
        lemma_threads_are_never_deleted(
            start,
            thread_views(threads@),
            options.marker@,
            options.delete_review_comments,
        );
        lemma_proposed_comments_are_accounted_for(
            start,
            thread_views(threads@),
            options.marker@,
            options.delete_review_comments,
        );
    }
    let mut keep_reviews: Vec<String> = Vec::new();
    let mut closures: Vec<ReviewClosure> = Vec::new();
    let delete = options.delete_review_comments;
    let ghost start = reconciliation_start(comment_views(options.comments@));
    let ghost marker = options.marker@;
    let mut t: usize = 0;
    proof {
        assert(id_views(keep_reviews@) == Seq::<Seq<char>>::empty());
        assert(closure_views(closures@) == Seq::<ReviewClosureView>::empty());
    }
    while t < threads.len()
        invariant
            t <= threads.len(),
            options.marker == old(options).marker,
            options.summary == old(options).summary,
            options.action == old(options).action,
            options.allow_draft == old(options).allow_draft,
            options.allow_closed == old(options).allow_closed,
            options.delete_review_comments == old(options).delete_review_comments,
            delete == options.delete_review_comments,
            marker == options.marker@,
            progress(keep_reviews@, options.comments@, closures@) == reconcile_threads(
                start,
                thread_views(threads@).take(t as int),
                marker,
                delete,
            ),
        decreases threads.len() - t,
    {
        let thread = &threads[t];
        let ghost before_thread = progress(keep_reviews@, options.comments@, closures@);
        let ghost seen = thread_comment_views(thread.comments@);
        let mut keep_thread = false;
        let mut c: usize = 0;
        while c < thread.comments.len()
            invariant
                c <= thread.comments.len(),
                seen == thread_comment_views(thread.comments@),
                options.marker == old(options).marker,
                options.summary == old(options).summary,
                options.action == old(options).action,
                options.allow_draft == old(options).allow_draft,
                options.allow_closed == old(options).allow_closed,
                options.delete_review_comments == old(options).delete_review_comments,
                delete == options.delete_review_comments,
                marker == options.marker@,
                (progress(keep_reviews@, options.comments@, closures@), keep_thread)
                    == reconcile_comments(before_thread, thread.info@, seen.take(c as int), marker, delete),
            decreases thread.comments.len() - c,
        {
            let comment = &thread.comments[c];
            let ghost pending = comment_views(options.comments@);
            let ghost before_comment = progress(keep_reviews@, options.comments@, closures@);
            let mut p: usize = 0;
            let mut found = false;
            while p < options.comments.len()
                invariant_except_break
                    !found,
                    first_reusable(thread.info@, comment@, pending, marker, 0) == first_reusable(
                        thread.info@,
                        comment@,
                        pending,
                        marker,
                        p as int,
                    ),
                invariant
                    p <= options.comments.len(),
                    pending == comment_views(options.comments@),
                    marker == options.marker@,
                ensures
                    p <= options.comments.len(),
                    pending == comment_views(options.comments@),
                    found <==> p < options.comments.len(),
                    p == first_reusable(thread.info@, comment@, pending, marker, 0),
                decreases options.comments.len() - p,
            {
                if can_reuse(&thread.info, comment, &options.comments[p], options.marker.as_str()) {
                    found = true;
                    break ;
                }
                p += 1;
            }
            proof {
                assert(seen.take(c + 1).drop_last() == seen.take(c as int));
            }
            if found {
                keep_reviews.push(comment.pull_request_review.id.clone());
                options.comments.remove(p);
                keep_thread = true;
                proof {
                    assert(comment_views(options.comments@) == pending.remove(p as int));
                    assert(id_views(keep_reviews@) == before_comment.keep.push(comment@.review_id));
                }
            } else {
                closures.push(
                    ReviewClosure { target: IdKind::Comment(comment.id.clone()), delete },
                );
                proof {
                    assert(closure_views(closures@) == before_comment.closures.push(
                        ReviewClosureView { target: IdKindView::Comment(comment@.id), delete },
                    ));
                }
            }
            c += 1;
        }
        proof {
            assert(seen.take(thread.comments.len() as int) == seen);
            assert(thread_views(threads@).take(t + 1).drop_last() == thread_views(threads@).take(
                t as int,
            ));
        }
        if !keep_thread {
            let ghost closed = closure_views(closures@);
            closures.push(ReviewClosure { target: IdKind::Thread(thread.info.id.clone()), delete: false });
            proof {
                assert(closure_views(closures@) == closed.push(
                    ReviewClosureView { target: IdKindView::Thread(thread.info@.id), delete: false },
                ));
            }
        }
        t += 1;
    }
    assert(thread_views(threads@).take(threads.len() as int) == thread_views(threads@));
    ReviewPlan { keep_reviews, closures }
}

/// No closure of `closures` deletes a thread.
pub open spec fn spares_threads(closures: Seq<ReviewClosureView>) -> bool {
    forall|i: int|
        0 <= i < closures.len() ==> ((#[trigger] closures[i]).target is Thread ==> !closures[i].delete)
}

/// The kept reviews and the pending comments of `after` account for those of
/// `before`: each proposed comment is still pending or stands behind one
/// more kept review, and nothing is pending that was not pending before.
pub open spec fn accounts_for(before: Reconciliation, after: Reconciliation) -> bool {
    &&& after.keep.len() + after.pending.len() == before.keep.len() + before.pending.len()
    &&& after.pending.len() <= before.pending.len()
    &&& forall|c: ReviewCommentView| after.pending.contains(c) ==> before.pending.contains(c)
}

proof fn lemma_first_reusable_in_range(
    info: ThreadInfoView,
    comment: ThreadCommentView,
    pending: Seq<ReviewCommentView>,
    marker: Seq<char>,
    from: int,
)
    requires
        0 <= from,
    ensures
        first_reusable(info, comment, pending, marker, from) <= pending.len(),
        from <= pending.len() ==> from <= first_reusable(info, comment, pending, marker, from),
    decreases pending.len() - from,
{
    if from < pending.len() && !is_reusable(info, comment, pending[from], marker) {
        lemma_first_reusable_in_range(info, comment, pending, marker, from + 1);
    }
}

proof fn lemma_comments_spare_threads(
    state: Reconciliation,
    info: ThreadInfoView,
    comments: Seq<ThreadCommentView>,
    marker: Seq<char>,
    delete: bool,
)
    requires
        spares_threads(state.closures),
    ensures
        spares_threads(reconcile_comments(state, info, comments, marker, delete).0.closures),
    decreases comments.len(),
{
    if comments.len() > 0 {
        lemma_comments_spare_threads(state, info, comments.drop_last(), marker, delete);
    }
}

proof fn lemma_comments_account(
    state: Reconciliation,
    info: ThreadInfoView,
    comments: Seq<ThreadCommentView>,
    marker: Seq<char>,
    delete: bool,
)
    ensures
        accounts_for(state, reconcile_comments(state, info, comments, marker, delete).0),
    decreases comments.len(),
{
    if comments.len() > 0 {
        lemma_comments_account(state, info, comments.drop_last(), marker, delete);
        let before = reconcile_comments(state, info, comments.drop_last(), marker, delete).0;
        lemma_first_reusable_in_range(info, comments.last(), before.pending, marker, 0);
    }
}

/// Whatever the threads and the proposed comments, a reconciliation deletes
/// no thread: threads are resolved, also where comments are deleted.
pub proof fn lemma_threads_are_never_deleted(
    state: Reconciliation,
    threads: Seq<ReviewThreadView>,
    marker: Seq<char>,
    delete: bool,
)
    requires
        spares_threads(state.closures),
    ensures
        spares_threads(reconcile_threads(state, threads, marker, delete).closures),
    decreases threads.len(),
{
    if threads.len() > 0 {
        lemma_threads_are_never_deleted(state, threads.drop_last(), marker, delete);
        let before = reconcile_threads(state, threads.drop_last(), marker, delete);
        let thread = threads.last();
        lemma_comments_spare_threads(before, thread.info, thread.comments, marker, delete);
    }
}

/// A reconciliation loses no proposed comment and invents none: each is
/// either left pending, or it is gone from the pending ones and one review
/// more is kept for it.
pub proof fn lemma_proposed_comments_are_accounted_for(
    state: Reconciliation,
    threads: Seq<ReviewThreadView>,
    marker: Seq<char>,
    delete: bool,
)
    ensures
        accounts_for(state, reconcile_threads(state, threads, marker, delete)),
    decreases threads.len(),
{
    if threads.len() > 0 {
        lemma_proposed_comments_are_accounted_for(state, threads.drop_last(), marker, delete);
        let before = reconcile_threads(state, threads.drop_last(), marker, delete);
        let thread = threads.last();
        lemma_comments_account(before, thread.info, thread.comments, marker, delete);
    }
}

/// A comment with `body`, in a thread identified by `info`, is one that the
/// scan collects: it carries the marker, and its thread is open where only
/// open threads are asked for.
pub open spec fn is_collected(
    body: Seq<char>,
    info: ThreadInfoView,
    marker: Seq<char>,
    no_dismissed: bool,
) -> bool {
    has_prefix(body, marker) && (!no_dismissed || (!info.is_resolved && !info.is_collapsed))
}

/// The position at or after `from` of the thread of `found` that `info`
/// identifies, or the length of `found` if there is none.
pub open spec fn thread_position(found: Seq<ReviewThreadView>, info: ThreadInfoView, from: int) -> int
    decreases found.len() - from,
{
    if from < 0 || from >= found.len() {
        found.len() as int
    } else if found[from].info == info {
        from
    } else {
        thread_position(found, info, from + 1)
    }
}

/// `found` with `comment` filed under the thread `info`: added to the
/// comments of that thread unless it is among them already, or as the first
/// comment of a new last thread.
pub open spec fn filed(
    found: Seq<ReviewThreadView>,
    info: ThreadInfoView,
    comment: ThreadCommentView,
) -> Seq<ReviewThreadView> {
    let at = thread_position(found, info, 0);
    if at < found.len() {
        if found[at].comments.contains(comment) {
            found
        } else {
            found.update(at, ReviewThreadView { info, comments: found[at].comments.push(comment) })
        }
    } else {
        found.push(ReviewThreadView { info, comments: seq![comment] })
    }
}

/// `found` after the comments of one page of one thread were looked at: each
/// that is collected is filed, in order.
pub open spec fn filed_comments(
    found: Seq<ReviewThreadView>,
    info: ThreadInfoView,
    comments: Seq<ThreadCommentView>,
    marker: Seq<char>,
    no_dismissed: bool,
) -> Seq<ReviewThreadView>
    decreases comments.len(),
{
    if comments.len() == 0 {
        found
    } else {
        let before = filed_comments(found, info, comments.drop_last(), marker, no_dismissed);
        if is_collected(comments.last().body, info, marker, no_dismissed) {
            filed(before, info, comments.last())
        } else {
            before
        }
    }
}

/// `found` after the threads of one page were looked at, in order.
pub open spec fn filed_threads(
    found: Seq<ReviewThreadView>,
    threads: Seq<QueryResponseReviewThread>,
    marker: Seq<char>,
    no_dismissed: bool,
) -> Seq<ReviewThreadView>
    decreases threads.len(),
{
    if threads.len() == 0 {
        found
    } else {
        filed_comments(
            filed_threads(found, threads.drop_last(), marker, no_dismissed),
            threads.last().info(),
            thread_comment_views(threads.last().comments.nodes@),
            marker,
            no_dismissed,
        )
    }
}

/// The comment cursor after a page: that of the last thread of the page, if
/// its comments go on; none, if they do not; `previous`, if the page has no
/// thread.
pub open spec fn comment_cursor_after(
    previous: Option<Seq<char>>,
    threads: Seq<QueryResponseReviewThread>,
) -> Option<Seq<char>> {
    if threads.len() == 0 {
        previous
    } else if threads.last().comments.page_info.has_next_page {
        cursor_view(threads.last().comments.page_info.end_cursor)
    } else {
        None
    }
}

/// No two threads of `found` have the same identity, and no thread holds the
/// same comment twice.
pub open spec fn is_index(found: Seq<ReviewThreadView>) -> bool {
    &&& forall|i: int, j: int|
        0 <= i < j < found.len() ==> (#[trigger] found[i]).info != (#[trigger] found[j]).info
    &&& forall|i: int| 0 <= i < found.len() ==> (#[trigger] found[i]).comments.no_duplicates()
}

/// The progress of a scan through the review threads of a pull request and,
/// within each thread, through its comments.
///
/// The comment cursor is followed to its end before the thread cursor moves.
/// No two threads found have the same identity, and none holds the same
/// comment twice.
#[derive(Debug)]
pub struct ReviewThreadScan {
    after_thread: Option<String>,
    after_comment: Option<String>,
    has_next_page: bool,
    found: Vec<ReviewThread>,
}

impl ReviewThreadScan {
    #[verifier::type_invariant]
    spec fn well_formed(&self) -> bool {
        is_index(thread_views(self.found@))
    }

    /// The threads found so far, each with the bot's comments found in it.
    pub closed spec fn threads(&self) -> Seq<ReviewThreadView> {
        thread_views(self.found@)
    }

    /// The thread cursor to send with the next query.
    pub closed spec fn thread_cursor(&self) -> Option<Seq<char>> {
        cursor_view(self.after_thread)
    }

    /// The comment cursor to send with the next query.
    pub closed spec fn comment_cursor(&self) -> Option<Seq<char>> {
        cursor_view(self.after_comment)
    }

    /// Whether there is a next query to send.
    pub closed spec fn goes_on(&self) -> bool {
        self.has_next_page
    }

    /// A scan that has seen nothing yet.
    pub fn new() -> (scan: Self)
        ensures
            scan.thread_cursor() is None,
            scan.comment_cursor() is None,
            scan.goes_on(),
            scan.threads().len() == 0,
    {
        let found: Vec<ReviewThread> = Vec::new();
        ReviewThreadScan { after_thread: None, after_comment: None, has_next_page: true, found }
    }

    /// The thread cursor to send with the next query.
    pub fn after_thread(&self) -> (cursor: &Option<String>)
        ensures
            cursor_view(*cursor) == self.thread_cursor(),
    {
        &self.after_thread
    }

    /// The comment cursor to send with the next query.
    pub fn after_comment(&self) -> (cursor: &Option<String>)
        ensures
            cursor_view(*cursor) == self.comment_cursor(),
    {
        &self.after_comment
    }

    /// Whether there is a next query to send.
    pub fn has_next_page(&self) -> (more: bool)
        ensures
            more == self.goes_on(),
    {
        self.has_next_page
    }

    /// The threads found so far: no two with the same identity, and none with
    /// the same comment twice.
    pub fn found(&self) -> (found: &Vec<ReviewThread>)
        ensures
            thread_views(found@) == self.threads(),
            is_index(self.threads()),
    {
        proof {
            use_type_invariant(self);
        }
        &self.found
    }

    /// Ends the scan and hands out the threads found.
    pub fn into_threads(self) -> (found: Vec<ReviewThread>)
        ensures
            thread_views(found@) == self.threads(),
            is_index(self.threads()),
    {
        proof {
            use_type_invariant(&self);
        }
        self.found
    }

    /// Takes in one page of results: files the bot's comments under their
    /// threads, and moves the cursors.
    ///
    /// With `no_dismissed`, comments of resolved or collapsed threads are
    /// passed over. The comment cursor becomes that of the last thread on the
    /// page, if its comments go on. Only once no comment cursor is left does
    /// the thread cursor move, or the scan end where no page of threads
    /// follows.
    pub fn absorb_page(&mut self, page: &QueryResponseReviewThreads, marker: &str, no_dismissed: bool)
        ensures
            final(self).threads() == filed_threads(
                old(self).threads(),
                page.nodes@,
                marker@,
                no_dismissed,
            ),
            final(self).comment_cursor() == comment_cursor_after(
                old(self).comment_cursor(),
                page.nodes@,
            ),
            final(self).thread_cursor() == if final(self).comment_cursor() is None
                && page.page_info.has_next_page {
                cursor_view(page.page_info.end_cursor)
            } else {
                old(self).thread_cursor()
            },
            final(self).goes_on() == (old(self).goes_on() && !(final(self).comment_cursor() is None
                && !page.page_info.has_next_page)),
    {
        proof {
            use_type_invariant(&*self);
        }
        let mut scan = ReviewThreadScan::new();
        std::mem::swap(self, &mut scan);
        let ReviewThreadScan { after_thread, after_comment, has_next_page, found } = scan;
        let mut after_thread = after_thread;
        let mut after_comment = after_comment;
        let mut has_next_page = has_next_page;
        let mut found = found;
        let mut t: usize = 0;
        while t < page.nodes.len()
            invariant
                t <= page.nodes.len(),
                is_index(thread_views(found@)),
                thread_views(found@) == filed_threads(
                    old(self).threads(),
                    page.nodes@.take(t as int),
                    marker@,
                    no_dismissed,
                ),
                cursor_view(after_comment) == comment_cursor_after(
                    old(self).comment_cursor(),
                    page.nodes@.take(t as int),
                ),
            decreases page.nodes.len() - t,
        {
            let thread = &page.nodes[t];
            let info = ThreadInfo::from(thread);
            let ghost before = thread_views(found@);
            let ghost nodes = thread_comment_views(thread.comments.nodes@);
            let open = !thread.is_resolved && !thread.is_collapsed;
            let mut c: usize = 0;
            while c < thread.comments.nodes.len()
                invariant
                    c <= thread.comments.nodes.len(),
                    info@ == thread.info(),
                    open == (!thread.is_resolved && !thread.is_collapsed),
                    nodes == thread_comment_views(thread.comments.nodes@),
                    is_index(thread_views(found@)),
                    thread_views(found@) == filed_comments(
                        before,
                        info@,
                        nodes.take(c as int),
                        marker@,
                        no_dismissed,
                    ),
                decreases thread.comments.nodes.len() - c,
            {
                let comment = &thread.comments.nodes[c];
                proof {
                    assert(nodes.take(c + 1).drop_last() == nodes.take(c as int));
                }
                if str_starts_with(comment.body.as_str(), marker) && (!no_dismissed || open) {
                    file_comment(&mut found, &info, comment);
                }
                c += 1;
            }
            proof {
                assert(nodes.take(thread.comments.nodes.len() as int) == nodes);
                assert(page.nodes@.take(t + 1).drop_last() == page.nodes@.take(t as int));
            }
            after_comment = if thread.comments.page_info.has_next_page {
                copy_cursor(&thread.comments.page_info.end_cursor)
            } else {
                None
            };
            t += 1;
        }
        assert(page.nodes@.take(page.nodes.len() as int) == page.nodes@);
        if after_comment.is_none() {
            if !page.page_info.has_next_page {
                has_next_page = false;
            } else {
                after_thread = copy_cursor(&page.page_info.end_cursor);
            }
        }
        *self = ReviewThreadScan { after_thread, after_comment, has_next_page, found };
    }
}

/// Files `comment` under the thread `info` of `found`.
fn file_comment(
    found: &mut Vec<ReviewThread>,
    info: &ThreadInfo,
    comment: &QueryResponseReviewThreadComment,
)
    requires
        is_index(thread_views(old(found)@)),
    ensures
        thread_views(final(found)@) == filed(thread_views(old(found)@), info@, comment@),
        is_index(thread_views(final(found)@)),
{
    let ghost before = thread_views(found@);
    let mut at: usize = 0;
    while at < found.len()
        invariant_except_break
            thread_position(before, info@, 0) == thread_position(before, info@, at as int),
        invariant
            at <= found.len(),
            before == thread_views(found@),
        ensures
            at <= found.len(),
            at == thread_position(before, info@, 0),
            at < found.len() ==> before[at as int].info == info@,
        decreases found.len() - at,
    {
        if found[at].info.same_as(info) {
            break ;
        }
        at += 1;
    }
    if at < found.len() {
        let ghost held = before[at as int].comments;
        let mut k: usize = 0;
        let mut present = false;
        while k < found[at].comments.len()
            invariant_except_break
                !present,
                forall|j: int| 0 <= j < k ==> held[j] != comment@,
            invariant
                at < found.len(),
                k <= found[at as int].comments.len(),
                held == thread_comment_views(found@[at as int].comments@),
            ensures
                present == held.contains(comment@),
            decreases found[at as int].comments.len() - k,
        {
            assert(held[k as int] == found@[at as int].comments@[k as int]@);
            if found[at].comments[k].same_as(comment) {
                present = true;
                break ;
            }
            k += 1;
        }
        if !present {
            let mut thread = found.remove(at);
            thread.comments.push(comment.duplicate());
            let ghost new_thread = thread;
            found.insert(at, thread);
            proof {
                let grown = ReviewThreadView { info: info@, comments: held.push(comment@) };
                assert(thread_comment_views(new_thread.comments@) == held.push(comment@));
                assert(thread_views(found@) == before.update(at as int, grown));
            }
        }
    } else {
        let mut comments: Vec<QueryResponseReviewThreadComment> = Vec::new();
        comments.push(comment.duplicate());
        found.push(ReviewThread { info: info.duplicate(), comments });
        proof {
            let added = ReviewThreadView { info: info@, comments: seq![comment@] };
            assert(thread_comment_views(comments@) == seq![comment@]);
            assert(thread_views(found@) == before.push(added));
            lemma_position_absent(before, info@, 0);
        }
    }
}

/// Where no thread at or after `from` is identified by `info`, none of them
/// has that identity.
proof fn lemma_position_absent(found: Seq<ReviewThreadView>, info: ThreadInfoView, from: int)
    requires
        0 <= from,
        thread_position(found, info, from) >= found.len(),
    ensures
        forall|i: int| from <= i < found.len() ==> (#[trigger] found[i]).info != info,
    decreases found.len() - from,
{
    if from < found.len() {
        lemma_position_absent(found, info, from + 1);
    }
}

/// A review that is taken off display.
#[derive(Debug, PartialEq, Eq, Clone)]
pub struct OutdatedReview {
    /// The review's id in the query API, by which it is hidden.
    pub node_id: String,
    /// The review's id in the REST API, by which it is dismissed.
    pub id: i64,
    /// Whether the review is to be dismissed after it was hidden: it is,
    /// unless it has been dismissed before.
    pub dismiss: bool,
}

/// What an [`OutdatedReview`] holds.
pub struct OutdatedReviewView {
    pub node_id: Seq<char>,
    pub id: i64,
    pub dismiss: bool,
}

impl View for OutdatedReview {
    type V = OutdatedReviewView;

    open spec fn view(&self) -> OutdatedReviewView {
        OutdatedReviewView { node_id: self.node_id@, id: self.id, dismiss: self.dismiss }
    }
}

/// What each of `reviews` holds.
pub open spec fn outdated_views(reviews: Seq<OutdatedReview>) -> Seq<OutdatedReviewView> {
    reviews.map_values(|r: OutdatedReview| r@)
}

/// A review is outdated where it is not kept and its summary is the bot's:
/// it has one, and that begins with the marker.
pub open spec fn is_outdated(review: ReviewSummary, keep: Seq<Seq<char>>, marker: Seq<char>) -> bool {
    &&& !keep.contains(review.node_id@)
    &&& review.body matches Some(body)
    &&& has_prefix(body@, marker)
}

/// The outdated reviews among `reviews`, in order.
pub open spec fn outdated_among(reviews: Seq<ReviewSummary>, keep: Seq<Seq<char>>, marker: Seq<char>) -> Seq<
    OutdatedReviewView,
>
    decreases reviews.len(),
{
    if reviews.len() == 0 {
        Seq::empty()
    } else {
        let before = outdated_among(reviews.drop_last(), keep, marker);
        let review = reviews.last();
        if is_outdated(review, keep, marker) {
            before.push(
                OutdatedReviewView {
                    node_id: review.node_id@,
                    id: review.id,
                    dismiss: review.state != ReviewState::Dismissed,
                },
            )
        } else {
            before
        }
    }
}

/// Whether `id` is among `ids`.
pub fn holds_id(ids: &Vec<String>, id: &String) -> (held: bool)
    ensures
        held == id_views(ids@).contains(id@),
{
    let mut i: usize = 0;
    while i < ids.len()
        invariant
            i <= ids.len(),
            forall|k: int| 0 <= k < i ==> id_views(ids@)[k] != id@,
        decreases ids.len() - i,
    {
        assert(id_views(ids@)[i as int] == ids@[i as int]@);
        if ids[i] == *id {
            return true;
        }
        i += 1;
    }
    false
}

/// Picks from one page of reviews those to take off display: the bot's
/// reviews that are not among `keep_reviews`. Each is hidden, and dismissed
/// too unless it has been dismissed before.
pub fn hide_outdated_reviews(
    reviews: &Vec<ReviewSummary>,
    keep_reviews: &Vec<String>,
    marker: &str,
) -> (outdated: Vec<OutdatedReview>)
    ensures
        outdated_views(outdated@) == outdated_among(reviews@, id_views(keep_reviews@), marker@),
{
    let mut outdated: Vec<OutdatedReview> = Vec::new();
    let mut i: usize = 0;
    while i < reviews.len()
        invariant
            i <= reviews.len(),
            outdated_views(outdated@) == outdated_among(
                reviews@.take(i as int),
                id_views(keep_reviews@),
                marker@,
            ),
        decreases reviews.len() - i,
    {
        let review = &reviews[i];
        proof {
            assert(reviews@.take(i + 1).drop_last() == reviews@.take(i as int));
        }
        let is_bots = match &review.body {
            Some(body) => str_starts_with(body.as_str(), marker),
            None => false,
        };
        if is_bots && !holds_id(keep_reviews, &review.node_id) {
            let dismiss = match review.state {
                ReviewState::Dismissed => false,
                _ => true,
            };
            outdated.push(OutdatedReview { node_id: review.node_id.clone(), id: review.id, dismiss });
        }
        i += 1;
    }
    assert(reviews@.take(reviews.len() as int) == reviews@);
    outdated
}

} // verus!
