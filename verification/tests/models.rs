use reddit_cli::models::{
    build_capped_comment_tree, build_comment_tree, FormattedComment, FormattedPost, FormattedUser, Listing, ListingData, RawComment,
    RawPost, RawUser, RawUserComment, Thing, UserComment,
};

fn raw(id: &str, author: Option<&str>, body: &str, score: i64, replies: Vec<Thing<RawComment>>) -> RawComment {
    RawComment {
        id: Some(id.to_string()),
        author: author.map(|a| a.to_string()),
        body: Some(body.to_string()),
        score: Some(score),
        created_utc: Some(1_700_000_000),
        replies: if replies.is_empty() {
            None
        } else {
            Some(Listing { data: ListingData { children: replies } })
        },
    }
}

fn t1(c: RawComment) -> Thing<RawComment> {
    Thing { kind: "t1".to_string(), data: c }
}

fn more() -> Thing<RawComment> {
    Thing {
        kind: "more".to_string(),
        data: RawComment { id: None, author: None, body: None, score: None, created_utc: None, replies: None },
    }
}

fn shape(cs: &[FormattedComment]) -> Vec<(String, u32, usize)> {
    let mut out = Vec::new();
    for c in cs {
        out.push((c.id.clone(), c.depth, c.replies.as_ref().map(|r| r.len()).unwrap_or(0)));
        if let Some(r) = &c.replies {
            assert!(!r.is_empty());
            out.extend(shape(r));
        }
    }
    out
}

fn sample() -> Vec<Thing<RawComment>> {
    vec![
        t1(raw("a", Some("alice"), "top", 10, vec![
            t1(raw("a1", Some("bob"), "reply", 2, vec![t1(raw("a11", Some("carol"), "deep", 1, vec![]))])),
            more(),
            t1(raw("a2", None, "deleted", 0, vec![])),
        ])),
        more(),
        t1(raw("b", None, "[deleted]", 0, vec![t1(raw("b1", Some("dan"), "orphan", 1, vec![]))])),
        t1(raw("c", Some("erin"), "third", -3, vec![])),
        t1(raw("d", Some("frank"), "fourth", 4, vec![])),
    ]
}

#[test]
fn comment_tree_full_depth() {
    let tree = build_comment_tree(&sample(), 5, 50);
    assert_eq!(
        shape(&tree),
        vec![
            ("a".to_string(), 0, 1),
            ("a1".to_string(), 1, 1),
            ("a11".to_string(), 2, 0),
            ("c".to_string(), 0, 0),
            ("d".to_string(), 0, 0),
        ]
    );
    assert_eq!(tree[0].author, "alice");
    assert_eq!(tree[0].body, "top");
    assert_eq!(tree[0].score, 10);
    assert_eq!(tree[0].created_utc, 1_700_000_000);
    assert_eq!(tree[1].score, -3);
}

#[test]
fn comment_tree_depth_limit() {
    let tree = build_comment_tree(&sample(), 1, 50);
    assert_eq!(
        shape(&tree),
        vec![("a".to_string(), 0, 1), ("a1".to_string(), 1, 0), ("c".to_string(), 0, 0), ("d".to_string(), 0, 0)]
    );
    let flat = build_comment_tree(&sample(), 0, 50);
    assert_eq!(shape(&flat).len(), 3);
    assert!(flat.iter().all(|c| c.replies.is_none()));
}

#[test]
fn comment_tree_limit_counts_comments_before_authors() {
    // The limit takes the first `limit` comment items; one of them has no author.
    let tree = build_comment_tree(&sample(), 5, 2);
    assert_eq!(shape(&tree), vec![("a".to_string(), 0, 1), ("a1".to_string(), 1, 1), ("a11".to_string(), 2, 0)]);
    let tree = build_comment_tree(&sample(), 5, 3);
    assert_eq!(tree.len(), 2);
    assert_eq!(build_comment_tree(&sample(), 5, 0).len(), 0);
    assert_eq!(build_comment_tree(&[], 5, 10).len(), 0);
}

#[test]
fn missing_fields_default() {
    let c = RawComment { id: None, author: Some("x".to_string()), body: None, score: None, created_utc: None, replies: None };
    let tree = build_comment_tree(&[t1(c)], 3, 3);
    assert_eq!(tree.len(), 1);
    assert_eq!(tree[0].id, "");
    assert_eq!(tree[0].body, "");
    assert_eq!(tree[0].score, 0);
    assert_eq!(tree[0].created_utc, 0);
    assert!(tree[0].replies.is_none());
}

fn raw_post(selftext: Option<&str>) -> RawPost {
    RawPost {
        id: "abc".to_string(),
        title: "Title".to_string(),
        author: "me".to_string(),
        subreddit: "rust".to_string(),
        score: 1234,
        upvote_percent: 95,
        num_comments: 56,
        created_utc: 1_700_000_000,
        url: "https://example.com".to_string(),
        selftext: selftext.map(|s| s.to_string()),
        is_self: true,
        permalink: "/r/rust/comments/abc/title/".to_string(),
    }
}

#[test]
fn formatted_post_from_raw() {
    let p = FormattedPost::from_raw(raw_post(Some("body")));
    assert_eq!(p.permalink, "https://reddit.com/r/rust/comments/abc/title/");
    assert_eq!(p.selftext, Some("body".to_string()));
    assert_eq!(p.title, "Title");
    assert_eq!(p.score, 1234);
    assert_eq!(p.upvote_percent, 95);
    assert!(p.is_self);
    assert_eq!(FormattedPost::from_raw(raw_post(Some(""))).selftext, None);
    assert_eq!(FormattedPost::from_raw(raw_post(None)).selftext, None);
}

#[test]
fn defaults_are_empty() {
    let p = RawPost::default();
    assert_eq!(p.id, "");
    assert_eq!(p.score, 0);
    assert_eq!(p.selftext, None);
    assert!(!p.is_self);
    let c = RawUserComment::default();
    assert_eq!(c.body, "");
    assert_eq!(c.created_utc, 0);
}

#[test]
fn user_conversions() {
    let u = FormattedUser::from_raw(RawUser {
        name: "spez".to_string(),
        created_utc: 1_118_030_400,
        link_karma: 12345,
        comment_karma: 67890,
        is_gold: true,
        is_mod: false,
        verified: true,
    });
    assert_eq!(u.name, "spez");
    assert_eq!(u.link_karma, 12345);
    assert!(u.is_gold && !u.is_mod && u.verified);
    let c = UserComment::from_raw(RawUserComment {
        id: "c1".to_string(),
        body: "hi".to_string(),
        score: 3,
        subreddit: "rust".to_string(),
        created_utc: 5,
        link_title: "A post".to_string(),
    });
    assert_eq!(c.link_title, "A post");
    assert_eq!(c.score, 3);
}

#[test]
fn capped_tree_counts_replies() {
    let one = vec![t1(raw("x", Some("amy"), "top", 1, vec![t1(raw("x1", Some("ben"), "reply", 1, vec![]))]))];
    assert_eq!(shape(&build_capped_comment_tree(&one, 5, 1)), vec![("x".to_string(), 0, 0)]);
    assert_eq!(shape(&build_capped_comment_tree(&one, 5, 2)), vec![("x".to_string(), 0, 1), ("x1".to_string(), 1, 0)]);
}

#[test]
fn capped_tree_is_depth_first_and_skips_authorless() {
    let tree = build_capped_comment_tree(&sample(), 5, 4);
    assert_eq!(
        shape(&tree),
        vec![("a".to_string(), 0, 1), ("a1".to_string(), 1, 1), ("a11".to_string(), 2, 0), ("c".to_string(), 0, 0)]
    );
    let all = build_capped_comment_tree(&sample(), 5, 200);
    assert_eq!(shape(&all), shape(&build_comment_tree(&sample(), 5, 200)));
    let shallow = build_capped_comment_tree(&sample(), 0, 3);
    assert_eq!(shape(&shallow), vec![("a".to_string(), 0, 0), ("c".to_string(), 0, 0), ("d".to_string(), 0, 0)]);
    assert!(build_capped_comment_tree(&sample(), 5, 0).is_empty());
    assert!(build_capped_comment_tree(&[], 5, 10).is_empty());
}
