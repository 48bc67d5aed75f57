use reddit_cli::validation::{
    extract_post_id, post_from_captures, validate_post_id, validate_subreddit, validate_username,
    ValidationError,
};

fn err_message<T>(r: Result<T, ValidationError>) -> String {
    match r {
        Ok(_) => panic!("expected an error"),
        Err(e) => e.message(),
    }
}

#[test]
fn subreddit_names() {
    assert_eq!(validate_subreddit("rust").ok(), Some("rust".to_string()));
    assert_eq!(validate_subreddit("r/rust").ok(), Some("rust".to_string()));
    assert_eq!(validate_subreddit("  AskReddit\t").ok(), Some("AskReddit".to_string()));
    assert_eq!(validate_subreddit("r/ rust ").ok(), Some("rust".to_string()));
    assert_eq!(validate_subreddit("\u{3000}rust\u{a0}").ok(), Some("rust".to_string()));
    assert_eq!(validate_subreddit("a_b_1").ok(), Some("a_b_1".to_string()));
    assert_eq!(validate_subreddit(&"x".repeat(21)).ok(), Some("x".repeat(21)));
}

#[test]
fn subreddit_names_rejected() {
    assert_eq!(err_message(validate_subreddit("")), "Invalid subreddit name: ");
    assert_eq!(err_message(validate_subreddit("r/")), "Invalid subreddit name: r/");
    assert_eq!(err_message(validate_subreddit("rust-lang")), "Invalid subreddit name: rust-lang");
    assert_eq!(err_message(validate_subreddit(&"x".repeat(22))), format!("Invalid subreddit name: {}", "x".repeat(22)));
    assert_eq!(err_message(validate_subreddit(" r/rust")), "Invalid subreddit name:  r/rust");
    assert_eq!(err_message(validate_subreddit("rüst")), "Invalid subreddit name: rüst");
    assert_eq!(err_message(validate_subreddit("rust\nextra")), "Invalid subreddit name: rust\nextra");
}

#[test]
fn usernames() {
    assert_eq!(validate_username("spez").ok(), Some("spez".to_string()));
    assert_eq!(validate_username("u/spez").ok(), Some("spez".to_string()));
    assert_eq!(validate_username(" a-b_c ").ok(), Some("a-b_c".to_string()));
    assert_eq!(validate_username(&"u".repeat(20)).ok(), Some("u".repeat(20)));
    assert_eq!(err_message(validate_username("ab")), "Invalid username: ab");
    assert_eq!(err_message(validate_username(&"u".repeat(21))), format!("Invalid username: {}", "u".repeat(21)));
    assert_eq!(err_message(validate_username("r/spez")), "Invalid username: r/spez");
    assert_eq!(err_message(validate_username("sp ez")), "Invalid username: sp ez");
}

#[test]
fn post_ids() {
    assert_eq!(validate_post_id("abc123").ok(), Some("abc123".to_string()));
    assert_eq!(validate_post_id("  abc123\n").ok(), Some("abc123".to_string()));
    assert_eq!(validate_post_id("abcdefghij").ok(), Some("abcdefghij".to_string()));
    assert_eq!(err_message(validate_post_id("abcdefghijk")), "Invalid post ID: abcdefghijk");
    assert_eq!(err_message(validate_post_id("ABC")), "Invalid post ID: ABC");
    assert_eq!(err_message(validate_post_id("")), "Invalid post ID: ");
    assert_eq!(err_message(validate_post_id("t3_abc")), "Invalid post ID: t3_abc");
}

#[test]
fn extract_from_full_url() {
    let p = extract_post_id("https://www.reddit.com/r/rust/comments/abc123/some_title/").ok().unwrap();
    assert_eq!(p.post_id, "abc123");
    assert_eq!(p.subreddit, Some("rust".to_string()));
    let p = extract_post_id("reddit.com/r/programming/comments/1x2y3z").ok().unwrap();
    assert_eq!(p.post_id, "1x2y3z");
    assert_eq!(p.subreddit, Some("programming".to_string()));
}

#[test]
fn extract_is_case_insensitive_but_ids_are_lowercase() {
    let p = extract_post_id("HTTPS://WWW.REDDIT.COM/R/Rust/COMMENTS/abc123/").ok().unwrap();
    assert_eq!(p.post_id, "abc123");
    assert_eq!(p.subreddit, Some("Rust".to_string()));
    assert_eq!(
        err_message(extract_post_id("https://reddit.com/r/rust/comments/ABC123/x")),
        "Invalid post ID: ABC123"
    );
}

#[test]
fn extract_from_short_url() {
    let p = extract_post_id("https://redd.it/abc123").ok().unwrap();
    assert_eq!(p.post_id, "abc123");
    assert_eq!(p.subreddit, None);
    let p = extract_post_id("REDD.IT/zz9").ok().unwrap();
    assert_eq!(p.post_id, "zz9");
}

#[test]
fn extract_bare_id() {
    let p = extract_post_id("abc123").ok().unwrap();
    assert_eq!(p.post_id, "abc123");
    assert_eq!(p.subreddit, None);
    let p = extract_post_id(" abc123 ").ok().unwrap();
    assert_eq!(p.post_id, "abc123");
}

#[test]
fn extract_errors() {
    assert_eq!(
        err_message(extract_post_id("https://reddit.com/r/bad name/comments/abc")),
        "Invalid subreddit name: bad name"
    );
    assert_eq!(err_message(extract_post_id("not a post!")), "Invalid post ID: not a post!");
    assert_eq!(err_message(extract_post_id("https://example.com/abc")), "Invalid post ID: https://example.com/abc");
}

#[test]
fn captures_are_read_in_order() {
    let url = Some(vec![Some("reddit.com/r/rust/comments/abc".to_string()), Some("rust".to_string()), Some("abc".to_string())]);
    let p = post_from_captures("ignored", url, None).ok().unwrap();
    assert_eq!(p.post_id, "abc");
    assert_eq!(p.subreddit, Some("rust".to_string()));
    let short = Some(vec![Some("redd.it/xyz".to_string()), Some("xyz".to_string())]);
    let p = post_from_captures("ignored", None, short).ok().unwrap();
    assert_eq!(p.post_id, "xyz");
    assert_eq!(p.subreddit, None);
    let p = post_from_captures("qwe", None, None).ok().unwrap();
    assert_eq!(p.post_id, "qwe");
    let bad = Some(vec![Some("x".to_string()), Some("r/".to_string()), Some("abc".to_string())]);
    assert_eq!(err_message(post_from_captures("x", bad, None)), "Invalid subreddit name: r/");
}

#[test]
fn validation_is_idempotent() {
    for name in ["r/rust", "  AskReddit ", "a_b"] {
        let once = validate_subreddit(name).ok().unwrap();
        assert_eq!(validate_subreddit(&once).ok(), Some(once.clone()));
    }
    for name in ["u/spez", " a-b_c "] {
        let once = validate_username(name).ok().unwrap();
        assert_eq!(validate_username(&once).ok(), Some(once.clone()));
    }
    let once = validate_post_id(" abc123 ").ok().unwrap();
    assert_eq!(validate_post_id(&once).ok(), Some(once.clone()));
}

#[test]
fn url_matching_details() {
    let p = extract_post_id("see reddit.com/r/a/comments/abc and reddit.com/r/b/comments/def").ok().unwrap();
    assert_eq!((p.post_id.as_str(), p.subreddit.as_deref()), ("abc", Some("a")));
    let p = extract_post_id("https://reddit.com/r/rust/commentſ/abc1").ok().unwrap();
    assert_eq!((p.post_id.as_str(), p.subreddit.as_deref()), ("abc1", Some("rust")));
    let p = extract_post_id("redd.it/abc-def").ok().unwrap();
    assert_eq!(p.post_id, "abc");
    assert_eq!(err_message(extract_post_id("REDD.IT/abc\u{212a}x")), "Invalid post ID: abc\u{212a}x");
    assert_eq!(
        err_message(extract_post_id("reddit.com/r/x/y/comments/abc")),
        "Invalid post ID: reddit.com/r/x/y/comments/abc"
    );
    let p = extract_post_id("reddit.com/r/x/comments/abc redd.it/zzz").ok().unwrap();
    assert_eq!(p.post_id, "abc");
}
