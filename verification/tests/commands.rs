use reddit_cli::commands::{
    browse_request, comments_request, first_post, first_two, info_request, post_request, posts_from_listing,
    search_request, second_item, submit_outcome, submit_request, user_comments_from_listing, user_request,
    subreddit_lookup, user_sections, ApiRequest, CommandError, SubredditLookup, UserSection,
};
use reddit_cli::validation::ExtractedPost;
use reddit_cli::models::{Listing, ListingData, RawPost, RawUserComment, Thing};

fn pairs(req: &ApiRequest) -> Vec<(&str, &str)> {
    req.params.iter().map(|(k, v)| (k.as_str(), v.as_str())).collect()
}

fn message<T>(r: Result<T, CommandError>) -> String {
    match r {
        Ok(_) => panic!("expected an error"),
        Err(e) => e.message(),
    }
}

#[test]
fn browse_requests() {
    let req = browse_request("r/rust", "hot", 25, "day").ok().unwrap();
    assert_eq!(req.endpoint, "/r/rust/hot");
    assert_eq!(pairs(&req), vec![("limit", "25")]);
    let req = browse_request("programming", "top", 10, "week").ok().unwrap();
    assert_eq!(req.endpoint, "/r/programming/top");
    assert_eq!(pairs(&req), vec![("limit", "10"), ("t", "week")]);
    let req = browse_request("linux", "controversial", 5, "all").ok().unwrap();
    assert_eq!(pairs(&req), vec![("limit", "5"), ("t", "all")]);
    assert_eq!(message(browse_request("no way", "hot", 5, "day")), "Invalid subreddit name: no way");
}

#[test]
fn search_requests() {
    let req = search_request("async runtime", None, "relevance", 25, "all").ok().unwrap();
    assert_eq!(req.endpoint, "/search");
    assert_eq!(
        pairs(&req),
        vec![("q", "async runtime"), ("sort", "relevance"), ("limit", "25"), ("t", "all"), ("restrict_sr", "false")]
    );
    let req = search_request("error handling", Some("rust"), "top", 10, "week").ok().unwrap();
    assert_eq!(req.endpoint, "/r/rust/search");
    assert_eq!(pairs(&req)[4], ("restrict_sr", "true"));
    assert_eq!(message(search_request("", None, "new", 1, "all")), "Search query must be between 1 and 512 characters");
    assert_eq!(
        message(search_request(&"q".repeat(513), None, "new", 1, "all")),
        "Search query must be between 1 and 512 characters"
    );
    assert!(search_request(&"q".repeat(512), None, "new", 1, "all").is_ok());
    // 171 three-byte characters are 513 bytes.
    assert!(search_request(&"€".repeat(171), None, "new", 1, "all").is_err());
    assert_eq!(
        message(search_request("ok", Some("bad sub"), "new", 1, "all")),
        "Invalid subreddit name: bad sub"
    );
    assert_eq!(message(search_request("", Some("bad sub"), "new", 1, "all")), "Search query must be between 1 and 512 characters");
}

#[test]
fn thread_requests() {
    let req = post_request("rust", "abc123", 3, 50);
    assert_eq!(req.endpoint, "/r/rust/comments/abc123");
    assert_eq!(pairs(&req), vec![("limit", "50"), ("depth", "3")]);
    let req = comments_request("rust", "abc123", "best", 50);
    assert_eq!(req.endpoint, "/r/rust/comments/abc123");
    assert_eq!(pairs(&req), vec![("sort", "best"), ("limit", "50")]);
    let req = info_request("abc123");
    assert_eq!(req.endpoint, "/api/info");
    assert_eq!(pairs(&req), vec![("id", "t3_abc123")]);
}

#[test]
fn user_requests() {
    let req = user_request("spez", UserSection::About);
    assert_eq!(req.endpoint, "/user/spez/about");
    assert!(req.params.is_empty());
    let req = user_request("spez", UserSection::Submitted);
    assert_eq!(req.endpoint, "/user/spez/submitted");
    assert_eq!(pairs(&req), vec![("limit", "25")]);
    let req = user_request("spez", UserSection::Comments);
    assert_eq!(req.endpoint, "/user/spez/comments");
}

#[test]
fn submit_requests() {
    let req = submit_request("r/test", "Hello", "Body").ok().unwrap();
    assert_eq!(req.endpoint, "/api/submit");
    assert_eq!(
        pairs(&req),
        vec![("sr", "test"), ("kind", "self"), ("title", "Hello"), ("text", "Body"), ("api_type", "json")]
    );
    assert_eq!(message(submit_request("test", "", "")), "Title must be between 1 and 300 characters");
    assert_eq!(message(submit_request("test", &"t".repeat(301), "")), "Title must be between 1 and 300 characters");
    assert!(submit_request("test", &"t".repeat(300), "").is_ok());
    assert_eq!(message(submit_request("bad sub", "", "")), "Invalid subreddit name: bad sub");
}

#[test]
fn submit_outcomes() {
    assert_eq!(
        submit_outcome(&vec![], Some("https://reddit.com/r/test/comments/x".to_string())).ok(),
        Some("Post submitted: https://reddit.com/r/test/comments/x".to_string())
    );
    assert_eq!(submit_outcome(&vec![], None).ok(), Some("Post submitted successfully.".to_string()));
    let errors = vec![
        vec!["SUBREDDIT_NOEXIST".to_string(), "that subreddit doesn't exist".to_string(), "sr".to_string()],
        vec!["RATELIMIT".to_string()],
    ];
    assert_eq!(
        message(submit_outcome(&errors, None)),
        "Reddit rejected the post: SUBREDDIT_NOEXIST: that subreddit doesn't exist: sr; RATELIMIT"
    );
}

fn post_listing(n: usize) -> Listing<RawPost> {
    let children = (0..n)
        .map(|i| {
            let mut p = RawPost::default();
            p.id = format!("p{}", i);
            p.permalink = format!("/r/x/comments/p{}", i);
            Thing { kind: "t3".to_string(), data: p }
        })
        .collect();
    Listing { data: ListingData { children } }
}

#[test]
fn listing_conversions() {
    let posts = posts_from_listing(post_listing(3));
    assert_eq!(posts.len(), 3);
    assert_eq!(posts[2].id, "p2");
    assert_eq!(posts[2].permalink, "https://reddit.com/r/x/comments/p2");
    let first = first_post(post_listing(2)).ok().unwrap();
    assert_eq!(first.id, "p0");
    assert_eq!(message(first_post(post_listing(0))), "Post not found");
    let comments = user_comments_from_listing(Listing {
        data: ListingData {
            children: vec![Thing { kind: "t1".to_string(), data: RawUserComment::default() }],
        },
    });
    assert_eq!(comments.len(), 1);
}

#[test]
fn response_parts() {
    assert_eq!(first_two(vec![1, 2, 3]).ok(), Some((1, 2)));
    assert_eq!(message(first_two(vec![1])), "Invalid response from Reddit");
    assert_eq!(second_item(vec!["a", "b"]).ok(), Some("b"));
    assert_eq!(message(second_item(vec!["a"])), "Invalid response from Reddit");
}

#[test]
fn subreddit_lookups() {
    let named = ExtractedPost { post_id: "abc123".to_string(), subreddit: Some("rust".to_string()) };
    assert!(matches!(subreddit_lookup(&named), SubredditLookup::Known(s) if s == "rust"));
    let bare = ExtractedPost { post_id: "abc123".to_string(), subreddit: None };
    match subreddit_lookup(&bare) {
        SubredditLookup::LookUp(req) => {
            assert_eq!(req.endpoint, "/api/info");
            assert_eq!(pairs(&req), vec![("id", "t3_abc123")]);
        },
        SubredditLookup::Known(_) => panic!(),
    }
}

#[test]
fn user_section_plans() {
    let kinds = |v: Vec<UserSection>| -> Vec<&'static str> {
        v.iter()
            .map(|s| match s {
                UserSection::About => "about",
                UserSection::Submitted => "submitted",
                UserSection::Comments => "comments",
            })
            .collect()
    };
    assert_eq!(kinds(user_sections(false, false)), vec!["about"]);
    assert_eq!(kinds(user_sections(true, false)), vec!["about", "submitted"]);
    assert_eq!(kinds(user_sections(false, true)), vec!["about", "comments"]);
    assert_eq!(kinds(user_sections(true, true)), vec!["about", "submitted", "comments"]);
}
