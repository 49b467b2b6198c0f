use git_bot_feedback::client::github::graphql::{
    check_reused_comments, hide_outdated_reviews, IdKind, OutdatedReview, PageInfo,
    QueryResponsePrReview, QueryResponseReviewThread, QueryResponseReviewThreadComment,
    QueryResponseReviewThreadComments, QueryResponseReviewThreads, ReviewClosure, ReviewThread,
    ReviewThreadScan, ThreadInfo,
};
use git_bot_feedback::client::github::payloads::{ReviewState, ReviewSummary};
use git_bot_feedback::{ReviewAction, ReviewComment, ReviewOptions, DEFAULT_MARKER};

const MARKER: &str = "<!-- bot -->";

fn existing(id: &str, review: &str, path: &str, line: i64, body: &str) -> QueryResponseReviewThreadComment {
    QueryResponseReviewThreadComment {
        id: id.to_string(),
        body: body.to_string(),
        path: path.to_string(),
        line: Some(line),
        start_line: None,
        original_line: line,
        original_start_line: None,
        pull_request_review: QueryResponsePrReview {
            id: review.to_string(),
            is_minimized: false,
        },
    }
}

fn proposed(path: &str, line_start: Option<u32>, line_end: u32, comment: &str) -> ReviewComment {
    ReviewComment {
        line_start,
        line_end,
        comment: comment.to_string(),
        path: path.to_string(),
    }
}

fn thread(id: &str, comments: Vec<QueryResponseReviewThreadComment>) -> ReviewThread {
    ReviewThread {
        info: ThreadInfo {
            id: id.to_string(),
            is_collapsed: false,
            is_resolved: false,
        },
        comments,
    }
}

fn options(comments: Vec<ReviewComment>, delete: bool) -> ReviewOptions {
    ReviewOptions {
        comments,
        marker: MARKER.to_string(),
        delete_review_comments: delete,
        ..Default::default()
    }
}

fn closures(plan: &[ReviewClosure]) -> Vec<(String, bool)> {
    plan.iter().map(|c| (c.target.to_string(), c.delete)).collect()
}

#[test]
fn default_review_options() {
    let options = ReviewOptions::default();
    assert_eq!(options.action, ReviewAction::Comment);
    assert_eq!(options.summary, "");
    assert!(options.comments.is_empty());
    assert_eq!(options.marker, DEFAULT_MARKER);
    assert!(!options.allow_draft);
    assert!(!options.allow_closed);
    assert!(!options.delete_review_comments);
}

#[test]
fn matching_comment_is_kept_and_other_resolved() {
    let threads = vec![thread(
        "T1",
        vec![
            existing("C1", "R1", "src/a.c", 7, "<!-- bot -->use a const"),
            existing("C2", "R1", "src/a.c", 7, "<!-- bot -->outdated"),
        ],
    )];
    let mut options = options(
        vec![
            proposed("src/b.c", None, 7, "use a const"),
            proposed("src/a.c", None, 7, "use a const"),
        ],
        false,
    );
    let plan = check_reused_comments(&threads, &mut options);
    assert_eq!(plan.keep_reviews, vec!["R1".to_string()]);
    assert_eq!(options.comments, vec![proposed("src/b.c", None, 7, "use a const")]);
    assert_eq!(closures(&plan.closures), vec![("comment C2".to_string(), false)]);
}

#[test]
fn unmatched_thread_is_resolved_never_deleted() {
    let threads = vec![
        thread("T1", vec![existing("C1", "R1", "a", 1, "<!-- bot -->x")]),
        thread("T2", vec![]),
    ];
    let mut options = options(vec![proposed("a", None, 2, "x")], true);
    let plan = check_reused_comments(&threads, &mut options);
    assert!(plan.keep_reviews.is_empty());
    assert_eq!(options.comments.len(), 1);
    assert_eq!(
        closures(&plan.closures),
        vec![
            ("comment C1".to_string(), true),
            ("thread T1".to_string(), false),
            ("thread T2".to_string(), false),
        ]
    );
}

#[test]
fn a_proposed_comment_is_matched_once() {
    let threads = vec![
        thread("T1", vec![existing("C1", "R1", "a", 1, "<!-- bot -->x")]),
        thread("T2", vec![existing("C2", "R2", "a", 1, "<!-- bot -->x")]),
        thread("T3", vec![existing("C3", "R3", "a", 1, "<!-- bot -->x")]),
    ];
    let mut options = options(
        vec![
            proposed("a", None, 1, "x"),
            proposed("a", None, 1, "y"),
            proposed("a", None, 1, "<!-- bot -->x"),
        ],
        false,
    );
    let plan = check_reused_comments(&threads, &mut options);
    assert_eq!(plan.keep_reviews, vec!["R1".to_string(), "R2".to_string()]);
    assert_eq!(options.comments, vec![proposed("a", None, 1, "y")]);
    assert_eq!(
        closures(&plan.closures),
        vec![("comment C3".to_string(), false), ("thread T3".to_string(), false)]
    );
}

#[test]
fn what_keeps_a_comment_from_matching() {
    let suggestion = proposed("a", Some(3), 5, "x");
    let fits = |change: &dyn Fn(&mut ReviewThread)| {
        let mut comment = existing("C", "R", "a", 5, "<!-- bot -->x");
        comment.start_line = Some(3);
        let mut t = thread("T", vec![comment]);
        change(&mut t);
        let mut options = options(vec![suggestion.clone()], false);
        let plan = check_reused_comments(&vec![t], &mut options);
        assert_eq!(plan.keep_reviews.len() + options.comments.len(), 1);
        assert_eq!(plan.keep_reviews.len() == 1, plan.closures.is_empty());
        plan.closures.is_empty()
    };
    assert!(fits(&|_| {}));
    assert!(!fits(&|t| t.info.is_resolved = true));
    assert!(!fits(&|t| t.info.is_collapsed = true));
    assert!(!fits(&|t| t.comments[0].pull_request_review.is_minimized = true));
    assert!(!fits(&|t| t.comments[0].path = "b".to_string()));
    assert!(!fits(&|t| t.comments[0].body = "x".to_string()));
    assert!(!fits(&|t| t.comments[0].line = Some(6)));
    assert!(!fits(&|t| t.comments[0].start_line = Some(2)));
    assert!(!fits(&|t| t.comments[0].start_line = None));
    // Where the current lines are gone, the original ones count.
    assert!(fits(&|t| {
        t.comments[0].line = None;
        t.comments[0].original_line = 5;
        t.comments[0].start_line = None;
        t.comments[0].original_start_line = Some(3);
    }));
    assert!(!fits(&|t| {
        t.comments[0].line = None;
        t.comments[0].original_line = 4;
    }));
}

fn page(
    threads: Vec<(&str, bool, bool, Vec<QueryResponseReviewThreadComment>, Option<&str>)>,
    next: Option<&str>,
) -> QueryResponseReviewThreads {
    QueryResponseReviewThreads {
        nodes: threads
            .into_iter()
            .map(|(id, is_resolved, is_collapsed, nodes, more)| QueryResponseReviewThread {
                id: id.to_string(),
                is_collapsed,
                is_resolved,
                comments: QueryResponseReviewThreadComments {
                    nodes,
                    page_info: PageInfo {
                        has_next_page: more.is_some(),
                        end_cursor: more.map(|c| c.to_string()),
                    },
                },
            })
            .collect(),
        page_info: PageInfo {
            has_next_page: next.is_some(),
            end_cursor: next.map(|c| c.to_string()),
        },
    }
}

#[test]
fn scan_collects_bot_comments() {
    let mut scan = ReviewThreadScan::new();
    assert!(scan.has_next_page());
    scan.absorb_page(
        &page(
            vec![
                (
                    "T1",
                    false,
                    false,
                    vec![
                        existing("C1", "R1", "a", 1, "<!-- bot -->x"),
                        existing("C2", "R1", "a", 1, "a person's"),
                        existing("C1", "R1", "a", 1, "<!-- bot -->x"),
                    ],
                    None,
                ),
                ("T2", true, false, vec![existing("C3", "R1", "a", 1, "<!-- bot -->y")], None),
                ("T3", false, true, vec![existing("C4", "R1", "a", 1, "<!-- bot -->z")], Some("c9")),
            ],
            Some("t3"),
        ),
        MARKER,
        true,
    );
    // The comments of the last thread go on: the thread cursor stays.
    assert_eq!(*scan.after_comment(), Some("c9".to_string()));
    assert_eq!(*scan.after_thread(), None);
    assert!(scan.has_next_page());
    assert_eq!(scan.found().len(), 1);
    assert_eq!(scan.found()[0].info.id, "T1");
    assert_eq!(scan.found()[0].comments.len(), 1);
    scan.absorb_page(
        &page(
            vec![
                ("T1", false, false, vec![existing("C5", "R2", "a", 2, "<!-- bot -->w")], None),
                ("T4", false, false, vec![existing("C6", "R2", "a", 2, "<!-- bot -->v")], None),
            ],
            Some("t4"),
        ),
        MARKER,
        true,
    );
    assert_eq!(*scan.after_comment(), None);
    assert_eq!(*scan.after_thread(), Some("t4".to_string()));
    assert!(scan.has_next_page());
    assert_eq!(scan.found().len(), 2);
    assert_eq!(scan.found()[0].comments.len(), 2);
    assert_eq!(scan.found()[1].info.id, "T4");
    scan.absorb_page(&page(vec![], None), MARKER, true);
    assert!(!scan.has_next_page());
    assert_eq!(*scan.after_thread(), Some("t4".to_string()));
    assert_eq!(scan.found().len(), 2);
}

#[test]
fn scan_takes_closed_threads_when_asked() {
    let mut scan = ReviewThreadScan::new();
    scan.absorb_page(
        &page(
            vec![
                ("T2", true, false, vec![existing("C3", "R1", "a", 1, "<!-- bot -->y")], None),
                ("T3", false, true, vec![existing("C4", "R1", "a", 1, "<!-- bot -->z")], None),
                ("T2", false, false, vec![existing("C5", "R1", "a", 1, "<!-- bot -->y")], None),
            ],
            None,
        ),
        MARKER,
        false,
    );
    assert!(!scan.has_next_page());
    // A thread is known by its id and its state.
    assert_eq!(scan.found().len(), 3);
    let ids: Vec<String> = scan.into_threads().into_iter().map(|t| t.info.id).collect();
    assert_eq!(ids, vec!["T2".to_string(), "T3".to_string(), "T2".to_string()]);
}

fn review(id: i64, node_id: &str, body: Option<&str>, state: ReviewState) -> ReviewSummary {
    ReviewSummary {
        id,
        node_id: node_id.to_string(),
        body: body.map(|b| b.to_string()),
        state,
    }
}

#[test]
fn outdated_reviews_are_hidden_and_dismissed() {
    let reviews = vec![
        review(1, "R1", Some("<!-- bot -->kept"), ReviewState::Commented),
        review(2, "R2", Some("<!-- bot -->old"), ReviewState::ChangesRequested),
        review(3, "R3", Some("a person's"), ReviewState::Approved),
        review(4, "R4", None, ReviewState::Commented),
        review(5, "R5", Some("<!-- bot -->older"), ReviewState::Dismissed),
    ];
    let outdated = hide_outdated_reviews(&reviews, &vec!["R1".to_string()], MARKER);
    assert_eq!(
        outdated,
        vec![
            OutdatedReview {
                node_id: "R2".to_string(),
                id: 2,
                dismiss: true
            },
            OutdatedReview {
                node_id: "R5".to_string(),
                id: 5,
                dismiss: false
            },
        ]
    );
    assert!(hide_outdated_reviews(&vec![], &vec![], MARKER).is_empty());
}

#[test]
fn id_kind_value() {
    assert_eq!(IdKind::Thread("T1".to_string()).value(), "T1");
    assert_eq!(IdKind::Comment("C1".to_string()).value(), "C1");
    assert_eq!(IdKind::Thread("T1".to_string()).to_string(), "thread T1");
    assert_eq!(IdKind::Comment("C1".to_string()).to_string(), "comment C1");
}
