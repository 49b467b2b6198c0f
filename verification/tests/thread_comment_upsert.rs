use git_bot_feedback::client::comment_reconciler::{CommentReconciler, CommentWrite};
use git_bot_feedback::client::github::payloads::{ThreadComment, User};
use git_bot_feedback::{CommentKind, CommentPolicy, ThreadCommentOptions};

const MARKER: &str = "<!-- git-bot-feedback -->\n";

fn comment(id: i64, body: &str) -> ThreadComment {
    ThreadComment {
        id,
        body: body.to_string(),
        user: User {
            login: "bot".to_string(),
            id: 1,
        },
    }
}

fn options(policy: CommentPolicy, kind: CommentKind, no_lgtm: bool) -> ThreadCommentOptions {
    ThreadCommentOptions {
        policy,
        comment: "new text".to_string(),
        kind,
        marker: MARKER.to_string(),
        no_lgtm,
    }
}

fn existing() -> Vec<ThreadComment> {
    vec![
        comment(10, "a person's comment"),
        comment(11, "<!-- git-bot-feedback -->\nolder"),
        comment(12, "quoting <!-- git-bot-feedback -->\n"),
        comment(13, "<!-- git-bot-feedback -->\nnewer"),
    ]
}

#[test]
fn update_keeps_the_newest() {
    let options = options(CommentPolicy::Update, CommentKind::Concerns, false);
    let mut upsert = CommentReconciler::new(&options);
    assert_eq!(upsert.absorb_page(&existing(), MARKER), vec![11]);
    assert_eq!(upsert.target(), Some(13));
    assert_eq!(
        upsert.finish(&options),
        CommentWrite::Patch {
            id: 13,
            body: "<!-- git-bot-feedback -->\nnew text".to_string()
        }
    );
}

#[test]
fn anew_deletes_all_and_posts() {
    let options = options(CommentPolicy::Anew, CommentKind::Concerns, false);
    let mut upsert = CommentReconciler::new(&options);
    assert_eq!(upsert.absorb_page(&existing(), MARKER), vec![11, 13]);
    assert_eq!(upsert.target(), None);
    assert_eq!(
        upsert.finish(&options),
        CommentWrite::Post {
            body: "<!-- git-bot-feedback -->\nnew text".to_string()
        }
    );
}

#[test]
fn update_over_pages() {
    let options = options(CommentPolicy::Update, CommentKind::Lgtm, false);
    let mut upsert = CommentReconciler::new(&options);
    assert_eq!(upsert.absorb_page(&vec![], MARKER), vec![] as Vec<i64>);
    assert_eq!(upsert.target(), None);
    assert_eq!(upsert.absorb_page(&existing(), MARKER), vec![11]);
    assert_eq!(
        upsert.absorb_page(&vec![comment(20, MARKER), comment(21, "no"), comment(22, MARKER)], MARKER),
        vec![13, 20]
    );
    assert_eq!(upsert.absorb_page(&vec![comment(30, "no")], MARKER), vec![] as Vec<i64>);
    assert_eq!(upsert.target(), Some(22));
    assert!(matches!(upsert.finish(&options), CommentWrite::Patch { id: 22, .. }));
}

#[test]
fn unwanted_praise_deletes_and_writes_nothing() {
    for policy in [CommentPolicy::Update, CommentPolicy::Anew] {
        let options = options(policy, CommentKind::Lgtm, true);
        let mut upsert = CommentReconciler::new(&options);
        assert_eq!(upsert.absorb_page(&existing(), MARKER), vec![11, 13]);
        assert_eq!(upsert.target(), None);
        assert_eq!(upsert.finish(&options), CommentWrite::Nothing);
    }
}

#[test]
fn nothing_to_update_posts() {
    let options = options(CommentPolicy::Update, CommentKind::Concerns, true);
    let mut upsert = CommentReconciler::new(&options);
    assert_eq!(upsert.absorb_page(&vec![comment(1, "hello")], MARKER), vec![] as Vec<i64>);
    assert_eq!(
        upsert.finish(&options),
        CommentWrite::Post {
            body: "<!-- git-bot-feedback -->\nnew text".to_string()
        }
    );
}
