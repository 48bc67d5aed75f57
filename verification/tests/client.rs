use reddit_cli::client::{
    api_error, api_url, basic_auth_header, check_body_size, check_token_status, check_content_length, check_status, first_post_subreddit,
    info_id, oauth_status_error, query_params, token_parse_error, transport_error, user_agent, RedditError,
    RequestError, StatusCheck, TokenCache,
};
use reddit_cli::models::{Listing, ListingData, RawPost, Thing};

#[test]
fn urls_and_params() {
    assert_eq!(api_url("/r/rust/hot"), "https://oauth.reddit.com/r/rust/hot");
    let q = query_params(vec![("limit".to_string(), "25".to_string())]);
    assert_eq!(q, vec![("limit".to_string(), "25".to_string()), ("raw_json".to_string(), "1".to_string())]);
    assert_eq!(info_id("abc123"), "t3_abc123");
}

#[test]
fn statuses() {
    assert!(matches!(check_status(200), StatusCheck::Success));
    assert!(matches!(check_status(204), StatusCheck::Success));
    assert!(matches!(check_status(299), StatusCheck::Success));
    assert!(matches!(check_status(403), StatusCheck::Failed(RedditError::Forbidden)));
    assert!(matches!(check_status(429), StatusCheck::Failed(RedditError::RateLimited)));
    match check_status(404) {
        StatusCheck::Failed(e) => assert_eq!(e.message(), "Not found: Resource not found"),
        _ => panic!(),
    }
    assert!(matches!(check_status(500), StatusCheck::ReadBody));
    assert!(matches!(check_status(301), StatusCheck::ReadBody));
    assert!(matches!(check_status(199), StatusCheck::ReadBody));
}

#[test]
fn api_error_bodies() {
    assert_eq!(api_error(500, Some(b"oops")).message(), "Reddit API error: 500 - oops");
    assert_eq!(
        api_error(502, None).message(),
        "Reddit API error: 502 - (unable to read error body)"
    );
    let long = vec![b'x'; 5000];
    match api_error(503, Some(&long)) {
        RedditError::Api { status, message } => {
            assert_eq!(status, 503);
            assert_eq!(message.len(), 1024);
        }
        _ => panic!(),
    }
    match api_error(400, Some(&[b'a', 0xff, b'b'])) {
        RedditError::Api { message, .. } => assert_eq!(message, "a\u{fffd}b"),
        _ => panic!(),
    }
    // A multi-byte character cut by the limit becomes a replacement character.
    let mut cut = vec![b'y'; 1023];
    cut.extend_from_slice("é".as_bytes());
    match api_error(400, Some(&cut)) {
        RedditError::Api { message, .. } => assert!(message.ends_with('\u{fffd}')),
        _ => panic!(),
    }
}

#[test]
fn error_messages() {
    assert_eq!(RedditError::RateLimited.message(), "Rate limited by Reddit API");
    assert_eq!(RedditError::Forbidden.message(), "Access forbidden");
    assert_eq!(RedditError::Timeout.message(), "Request timed out");
    assert_eq!(RedditError::Http("boom".to_string()).message(), "HTTP error: boom");
    assert_eq!(oauth_status_error("401 Unauthorized").message(), "Authentication failed: OAuth error: 401 Unauthorized");
    assert_eq!(token_parse_error().message(), "Authentication failed: Failed to parse token response");
    assert!(matches!(transport_error(true, "t".to_string()), RedditError::Timeout));
    assert_eq!(transport_error(false, "dns".to_string()).message(), "HTTP error: dns");
}

#[test]
fn response_size_limit() {
    assert!(check_content_length(None).is_ok());
    assert!(check_content_length(Some(10_485_760)).is_ok());
    match check_content_length(Some(10_485_761)) {
        Err(e) => assert_eq!(e.message(), "Response too large: 10485761 bytes (limit: 10485760 bytes)"),
        Ok(_) => panic!(),
    }
    assert_eq!(RequestError::Unparsable("eof".to_string()).message(), "Failed to parse response: eof");
}

#[test]
fn basic_auth_is_base64() {
    assert_eq!(basic_auth_header("id", "secret"), "Basic aWQ6c2VjcmV0");
    assert_eq!(basic_auth_header("a", ""), "Basic YTo=");
    assert_eq!(basic_auth_header("ab", ""), "Basic YWI6");
    assert_eq!(basic_auth_header("", ""), "Basic Og==");
    assert_eq!(basic_auth_header("é", "?>"), "Basic w6k6Pz4=");
}

#[test]
fn user_agent_drops_line_breaks() {
    assert_eq!(user_agent("bob"), "reddit-cli/0.1.0 (by /u/bob)");
    assert_eq!(user_agent("bob\r\nX-Evil: 1"), "reddit-cli/0.1.0 (by /u/bobX-Evil: 1)");
}

#[test]
fn token_cache_serves_until_expiry() {
    let second: u128 = 1_000_000_000;
    let mut cache: TokenCache<String> = TokenCache::new(0);
    assert!(cache.fresh_token(0).is_none());
    cache.store("tok".to_string(), 3600, 10 * second);
    assert_eq!(cache.fresh_token(10 * second).cloned(), Some("tok".to_string()));
    assert_eq!(cache.fresh_token(3549 * second).cloned(), Some("tok".to_string()));
    assert!(cache.fresh_token(3550 * second).is_none());
    cache.store("short".to_string(), 30, 0);
    assert!(cache.fresh_token(0).is_none());
}

fn listing(subs: &[&str]) -> Listing<RawPost> {
    Listing {
        data: ListingData {
            children: subs
                .iter()
                .map(|s| {
                    let mut p = RawPost::default();
                    p.subreddit = s.to_string();
                    Thing { kind: "t3".to_string(), data: p }
                })
                .collect(),
        },
    }
}

#[test]
fn subreddit_of_info_listing() {
    assert_eq!(first_post_subreddit(&listing(&["rust", "other"])).ok(), Some("rust".to_string()));
    match first_post_subreddit(&listing(&[])) {
        Err(e) => assert_eq!(e.message(), "Not found: Post not found"),
        Ok(_) => panic!(),
    }
}

#[test]
fn body_size_limit() {
    assert!(check_body_size(0).is_ok());
    assert!(check_body_size(10_485_760).is_ok());
    match check_body_size(10_485_761) {
        Err(e) => assert_eq!(e.message(), "Response too large: 10485761 bytes (limit: 10485760 bytes)"),
        Ok(_) => panic!(),
    }
    assert!(matches!(check_body_size(u64::MAX), Err(RequestError::TooLarge(u64::MAX))));
}

#[test]
fn token_statuses() {
    assert!(check_token_status(200, "200 OK").is_ok());
    assert!(check_token_status(299, "299 <unknown status code>").is_ok());
    match check_token_status(401, "401 Unauthorized") {
        Err(e) => assert_eq!(e.message(), "Authentication failed: OAuth error: 401 Unauthorized"),
        Ok(_) => panic!(),
    }
    assert!(check_token_status(302, "302 Found").is_err());
    assert!(check_token_status(199, "199").is_err());
}
