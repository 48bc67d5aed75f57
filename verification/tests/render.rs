use reddit_cli::models::{FormattedComment, FormattedPost, FormattedUser, UserComment};
use reddit_cli::render::{render_comments, render_post_detail, render_posts_list, render_user, Piece, Segment, Style};

fn plain(doc: &[Vec<Segment>]) -> Vec<String> {
    doc.iter()
        .map(|line| {
            line.iter()
                .map(|s| match &s.piece {
                    Piece::Text(t) => t.clone(),
                    Piece::TimeAgo(t) => format!("<{}>", t),
                    Piece::Age(t) => format!("[age {}]", t),
                })
                .collect::<String>()
        })
        .collect()
}

fn styles(line: &[Segment]) -> Vec<Style> {
    line.iter().map(|s| s.style).collect()
}

fn post(title: &str, selftext: Option<&str>) -> FormattedPost {
    FormattedPost {
        id: "abc123".to_string(),
        title: title.to_string(),
        author: "author".to_string(),
        subreddit: "subreddit".to_string(),
        score: 1234,
        upvote_percent: 95,
        num_comments: 56,
        created_utc: 1_700_000_000,
        url: String::new(),
        selftext: selftext.map(|s| s.to_string()),
        is_self: selftext.is_some(),
        permalink: "https://reddit.com/r/subreddit/comments/abc123".to_string(),
    }
}

#[test]
fn posts_list_layout() {
    let doc = render_posts_list(&[post("Title of the post", None), post("Second \x1b[31mred\x1b[0m", None)]);
    assert_eq!(
        plain(&doc),
        vec![
            "[1] Title of the post",
            "    r/subreddit | u/author | 1,234 pts (95%) | 56 comments | <1700000000>",
            "    https://reddit.com/r/subreddit/comments/abc123",
            "",
            "[2] Second red",
            "    r/subreddit | u/author | 1,234 pts (95%) | 56 comments | <1700000000>",
            "    https://reddit.com/r/subreddit/comments/abc123",
        ]
    );
    assert!(matches!(styles(&doc[0])[..], [Style::Dimmed, Style::Plain, Style::Bold]));
    assert!(matches!(
        styles(&doc[1])[..],
        [Style::Plain, Style::Cyan, Style::Plain, Style::Yellow, Style::Plain, Style::Green, Style::Plain, Style::Dimmed]
    ));
    assert!(matches!(styles(&doc[2])[..], [Style::Plain, Style::Blue]));
}

#[test]
fn empty_posts_list() {
    let doc = render_posts_list(&[]);
    assert_eq!(plain(&doc), vec!["No posts found."]);
    assert!(matches!(styles(&doc[0])[..], [Style::Dimmed]));
}

fn comment(id: &str, depth: u32, body: &str, replies: Option<Vec<FormattedComment>>) -> FormattedComment {
    FormattedComment {
        id: id.to_string(),
        author: format!("user_{}", id),
        body: body.to_string(),
        score: 42,
        created_utc: 100,
        depth,
        replies,
    }
}

#[test]
fn comment_tree_layout() {
    let tree = vec![comment("a", 0, "Comment body text...\nsecond line\r\n", Some(vec![comment("b", 1, "Reply body text...", None)]))];
    let doc = render_comments(&tree);
    assert_eq!(
        plain(&doc),
        vec![
            "u/user_a | 42 pts | <100>",
            "Comment body text...",
            "second line",
            "",
            "  u/user_b | 42 pts | <100>",
            "  Reply body text...",
            "",
        ]
    );
    assert!(matches!(
        styles(&doc[0])[..],
        [Style::Plain, Style::Yellow, Style::Plain, Style::Green, Style::Plain, Style::Dimmed]
    ));
    assert_eq!(plain(&render_comments(&[])), vec!["No comments found."]);
}

#[test]
fn post_detail_layout() {
    let doc = render_post_detail(&post("T", Some("Self \x07text")), &[comment("a", 0, "hi", None)]);
    assert_eq!(
        plain(&doc),
        vec![
            "T",
            "r/subreddit | u/author | 1,234 pts (95%) | 56 comments | <1700000000>",
            "https://reddit.com/r/subreddit/comments/abc123",
            "",
            "Self text",
            "",
            "--- Comments ---",
            "",
            "u/user_a | 42 pts | <100>",
            "hi",
            "",
        ]
    );
    let bare = render_post_detail(&post("T", None), &[]);
    assert_eq!(bare.len(), 3);
}

#[test]
fn user_layout() {
    let user = FormattedUser {
        name: "username".to_string(),
        created_utc: 5,
        link_karma: 12345,
        comment_karma: 67890,
        is_gold: false,
        is_mod: false,
        verified: true,
    };
    let only = render_user(&user, None, None);
    assert_eq!(plain(&only), vec!["u/username", "Account age: [age 5] | Link karma: 12,345 | Comment karma: 67,890"]);
    assert!(matches!(
        styles(&only[1])[..],
        [Style::Plain, Style::Plain, Style::Plain, Style::Green, Style::Plain, Style::Green]
    ));
    let c = UserComment {
        id: "c".to_string(),
        body: "line1\nline2".to_string(),
        score: -2,
        subreddit: "rust".to_string(),
        created_utc: 9,
        link_title: "A title".to_string(),
    };
    let posts: Vec<FormattedPost> = Vec::new();
    let full = render_user(&user, Some(&posts), Some(&[c]));
    assert_eq!(
        plain(&full),
        vec![
            "u/username",
            "Account age: [age 5] | Link karma: 12,345 | Comment karma: 67,890",
            "",
            "--- Recent Posts ---",
            "",
            "No posts found.",
            "",
            "--- Recent Comments ---",
            "",
            "in r/rust | -2 pts | <9>",
            "  Re: A title",
            "  line1",
            "  line2",
            "",
        ]
    );
}

#[test]
fn permalink_escapes_are_removed() {
    let escaped = "https://reddit.com/r/x/\x1b[31mred\u{9b}2J";
    let mut p = post("T", None);
    p.permalink = escaped.to_string();
    let mut q = post("T", None);
    q.permalink = escaped.to_string();
    let list = plain(&render_posts_list(&[q]));
    assert_eq!(list[2], "    https://reddit.com/r/x/red");
    let detail = plain(&render_post_detail(&p, &[]));
    assert_eq!(detail[2], "https://reddit.com/r/x/red");
    for line in list.iter().chain(detail.iter()) {
        assert!(!line.contains('\x1b') && !line.contains('\u{9b}'));
    }
}

#[test]
fn account_age_is_drawn_without_ago() {
    let user = FormattedUser {
        name: "u".to_string(),
        created_utc: 77,
        link_karma: 0,
        comment_karma: 0,
        is_gold: false,
        is_mod: false,
        verified: false,
    };
    let doc = render_user(&user, None, None);
    assert!(matches!(doc[1][1].piece, Piece::Age(77)));
}

fn hostile(tag: &str) -> String {
    format!("{}\x1b[2J\x1b]0;title\x07\u{9b}31m\x00\x7f\x1bPdcs\x1b\\end", tag)
}

fn assert_clean(lines: &[String]) {
    for line in lines {
        assert!(line.chars().all(|c| c == '\n' || c == '\t' || !c.is_control()), "{:?}", line);
    }
}

#[test]
fn rendered_output_is_clean_whatever_the_fields_hold() {
    let dirty_post = FormattedPost {
        id: hostile("id"),
        title: hostile("title"),
        author: hostile("author"),
        subreddit: hostile("sub"),
        score: -5,
        upvote_percent: 100,
        num_comments: 1_000_000,
        created_utc: 1,
        url: hostile("url"),
        selftext: Some(hostile("self")),
        is_self: true,
        permalink: hostile("link"),
    };
    let mut reply = comment("r", 1, &hostile("reply"), None);
    reply.author = hostile("ra");
    let mut top = comment("t", 0, &hostile("body"), Some(vec![reply]));
    top.author = hostile("ta");
    let list = plain(&render_posts_list(&[dirty_post]));
    assert_clean(&list);
    assert_eq!(list[0], "[1] titleend");
    let dirty_again = FormattedPost {
        id: String::new(),
        title: hostile("t"),
        author: hostile("a"),
        subreddit: hostile("s"),
        score: 0,
        upvote_percent: 0,
        num_comments: 0,
        created_utc: 0,
        url: String::new(),
        selftext: Some(hostile("x")),
        is_self: true,
        permalink: hostile("p"),
    };
    assert_clean(&plain(&render_post_detail(&dirty_again, &[top])));
    let user = FormattedUser {
        name: hostile("name"),
        created_utc: 0,
        link_karma: 1,
        comment_karma: 2,
        is_gold: false,
        is_mod: false,
        verified: false,
    };
    let c = UserComment {
        id: hostile("c"),
        body: hostile("b"),
        score: 3,
        subreddit: hostile("s"),
        created_utc: 0,
        link_title: hostile("l"),
    };
    assert_clean(&plain(&render_user(&user, None, Some(&[c]))));
}
