use vstd::prelude::*;
use base64::Engine;
use crate::models::{Listing, RawPost};
use crate::text::{chars_of, decimal, push_char, push_decimal, push_str};
use vstd::string::StringSliceAdditionalSpecFns;
use vstd::utf8::{decode_utf8, encode_utf8, valid_utf8};

verus! {

/// Where API requests go.
pub const API_BASE: &'static str = "https://oauth.reddit.com";

/// Where access tokens are requested.
pub const TOKEN_URL: &'static str = "https://www.reddit.com/api/v1/access_token";

/// The largest response body accepted, in bytes.
pub const MAX_RESPONSE_SIZE: u64 = 10485760u64;

/// How long a request may take, in seconds.
pub const REQUEST_TIMEOUT_SECS: u64 = 10u64;

/// How many redirects a request may follow.
pub const MAX_REDIRECTS: usize = 3usize;

/// How much of an error response body is kept, in bytes.
pub const MAX_ERROR_BODY: usize = 1024usize;

/// A failure reported by the Reddit API or on the way to it.
pub enum RedditError {
    Api { status: u16, message: String },
    Auth(String),
    NotFound(String),
    RateLimited,
    Forbidden,
    Timeout,
    Http(String),
}

impl RedditError {
    /// The text shown for the error.
    pub open spec fn message_view(&self) -> Seq<char> {
        match self {
            RedditError::Api { status, message } => "Reddit API error: "@ + decimal(*status as nat)
                + " - "@ + message@,
            RedditError::Auth(m) => "Authentication failed: "@ + m@,
            RedditError::NotFound(m) => "Not found: "@ + m@,
            RedditError::RateLimited => "Rate limited by Reddit API"@,
            RedditError::Forbidden => "Access forbidden"@,
            RedditError::Timeout => "Request timed out"@,
            RedditError::Http(m) => "HTTP error: "@ + m@,
        }
    }

    /// The text shown for the error, e.g. `Not found: Post not found`.
    pub fn message(&self) -> (r: String)
        ensures
            r@ == self.message_view(),
    {
        let mut out = String::new();
        match self {
            RedditError::Api { status, message } => {
                push_str(&mut out, "Reddit API error: ");
                push_decimal(&mut out, *status as u64);
                push_str(&mut out, " - ");
                push_str(&mut out, message.as_str());
            },
            RedditError::Auth(m) => {
                push_str(&mut out, "Authentication failed: ");
                push_str(&mut out, m.as_str());
            },
            RedditError::NotFound(m) => {
                push_str(&mut out, "Not found: ");
                push_str(&mut out, m.as_str());
            },
            RedditError::RateLimited => push_str(&mut out, "Rate limited by Reddit API"),
            RedditError::Forbidden => push_str(&mut out, "Access forbidden"),
            RedditError::Timeout => push_str(&mut out, "Request timed out"),
            RedditError::Http(m) => {
                push_str(&mut out, "HTTP error: ");
                push_str(&mut out, m.as_str());
            },
        }
        out
    }
}

/// The address of an API endpoint such as `/r/rust/hot`.
pub fn api_url(endpoint: &str) -> (r: String)
    ensures
        r@ == API_BASE@ + endpoint@,
{
    let mut out = String::from_str(API_BASE);
    push_str(&mut out, endpoint);
    out
}

/// The query of a GET request: the given parameters, then `raw_json=1` so
/// that the API does not HTML-escape text.
pub fn query_params(params: Vec<(String, String)>) -> (r: Vec<(String, String)>)
    ensures
        r@.len() == params@.len() + 1,
        r@.subrange(0, params@.len() as int) == params@,
        r@.last().0@ == "raw_json"@ && r@.last().1@ == "1"@,
{
    let mut out = params;
    out.push((String::from_str("raw_json"), String::from_str("1")));
    out
}

/// Whether an HTTP status is a success (2xx).
pub open spec fn is_success(status: u16) -> bool {
    200 <= status <= 299
}

/// What a response status means for a request.
pub enum StatusCheck {
    /// The request succeeded; the body holds the answer.
    Success,
    /// The request failed with this error.
    Failed(RedditError),
    /// The request failed; the error is built from the body (`api_error`).
    ReadBody,
}

/// Sorts a response status: success, the failures that have their own error
/// (403, 404, 429), or another failure whose body is needed.
pub fn check_status(status: u16) -> (r: StatusCheck)
    ensures
        is_success(status) <==> r is Success,
        !is_success(status) && status == 403 <==> r matches StatusCheck::Failed(RedditError::Forbidden),
        !is_success(status) && status == 404 <==> (r matches StatusCheck::Failed(RedditError::NotFound(m))
            && m@ == "Resource not found"@),
        !is_success(status) && status == 429 <==> r matches StatusCheck::Failed(RedditError::RateLimited),
        !is_success(status) && status != 403 && status != 404 && status != 429 <==> r is ReadBody,
{
    if 200 <= status && status <= 299 {
        StatusCheck::Success
    } else if status == 403 {
        StatusCheck::Failed(RedditError::Forbidden)
    } else if status == 404 {
        StatusCheck::Failed(RedditError::NotFound(String::from_str("Resource not found")))
    } else if status == 429 {
        StatusCheck::Failed(RedditError::RateLimited)
    } else {
        StatusCheck::ReadBody
    }
}

/// The text that `String::from_utf8_lossy` makes of some bytes: valid UTF-8
/// decoded, each invalid sequence replaced by U+FFFD.
pub uninterp spec fn utf8_lossy(bytes: Seq<u8>) -> Seq<char>;

/// `String::from_utf8_lossy`, made an owned string. Its result is named by
/// `utf8_lossy`; the replacement rules for invalid sequences are not
/// restated. As its documentation says, valid UTF-8 is decoded unchanged.
#[verifier::external_body]
fn utf8_lossy_string(bytes: &[u8]) -> (r: String)
    ensures
        r@ == utf8_lossy(bytes@),
        valid_utf8(bytes@) ==> r@ == decode_utf8(bytes@),
{
    String::from_utf8_lossy(bytes).into_owned()
}

/// The shown message of an error response: its first 1024 bytes decoded
/// leniently, or a note when the body could not be read.
pub open spec fn error_body_text(body: Option<Seq<u8>>) -> Seq<char> {
    match body {
        Some(b) => utf8_lossy(if b.len() <= 1024 { b } else { b.subrange(0, 1024) }),
        None => "(unable to read error body)"@,
    }
}

/// The error for a failed response whose status has no error of its own,
/// from its body (`None` when the body could not be read).
pub fn api_error(status: u16, body: Option<&[u8]>) -> (r: RedditError)
    ensures
        r matches RedditError::Api { status: s, message: m } && s == status
            && m@ == error_body_text(match body { Some(b) => Some(b@), None => None }),
{
    let message = match body {
        Some(b) => {
            let k = if b.len() <= MAX_ERROR_BODY { b.len() } else { MAX_ERROR_BODY };
            let head = &b[0..k];
            assert(b.len() <= 1024 ==> head@ =~= b@);
            utf8_lossy_string(head)
        },
        None => String::from_str("(unable to read error body)"),
    };
    RedditError::Api { status, message }
}

/// The error for a request that could not be sent or answered.
pub fn transport_error(timed_out: bool, detail: String) -> (r: RedditError)
    ensures
        timed_out ==> r is Timeout,
        !timed_out ==> r == RedditError::Http(detail),
{
    if timed_out {
        RedditError::Timeout
    } else {
        RedditError::Http(detail)
    }
}

/// A failure of a request, whatever stage it came from.
pub enum RequestError {
    Reddit(RedditError),
    TooLarge(u64),
    Unparsable(String),
}

impl RequestError {
    /// The text shown for the error.
    pub open spec fn message_view(&self) -> Seq<char> {
        match self {
            RequestError::Reddit(e) => e.message_view(),
            RequestError::TooLarge(n) => "Response too large: "@ + decimal(*n as nat) + " bytes (limit: "@
                + decimal(MAX_RESPONSE_SIZE as nat) + " bytes)"@,
            RequestError::Unparsable(d) => "Failed to parse response: "@ + d@,
        }
    }

    /// The text shown for the error.
    pub fn message(&self) -> (r: String)
        ensures
            r@ == self.message_view(),
    {
        match self {
            RequestError::Reddit(e) => e.message(),
            RequestError::TooLarge(n) => {
                let mut out = String::from_str("Response too large: ");
                push_decimal(&mut out, *n);
                push_str(&mut out, " bytes (limit: ");
                push_decimal(&mut out, MAX_RESPONSE_SIZE);
                push_str(&mut out, " bytes)");
                out
            },
            RequestError::Unparsable(d) => {
                let mut out = String::from_str("Failed to parse response: ");
                push_str(&mut out, d.as_str());
                out
            },
        }
    }
}

/// Refuses a response that announces a body larger than the limit.
pub fn check_content_length(content_length: Option<u64>) -> (r: Result<(), RequestError>)
    ensures
        r is Ok <==> (content_length matches Some(n) ==> n <= MAX_RESPONSE_SIZE),
        r matches Err(e) ==> content_length matches Some(n) && e == RequestError::TooLarge(n),
{
    match content_length {
        Some(n) => if n > MAX_RESPONSE_SIZE { Err(RequestError::TooLarge(n)) } else { Ok(()) },
        None => Ok(()),
    }
}

/// Refuses a body that was read and is larger than the limit, whether or not
/// the response announced its length.
pub fn check_body_size(len: u64) -> (r: Result<(), RequestError>)
    ensures
        r is Ok <==> len <= MAX_RESPONSE_SIZE,
        r matches Err(e) ==> e == RequestError::TooLarge(len),
{
    if len > MAX_RESPONSE_SIZE {
        Err(RequestError::TooLarge(len))
    } else {
        Ok(())
    }
}

} // verus!

verus! {

/// The character of the standard base64 alphabet for a 6-bit value.
pub open spec fn base64_digit(v: nat) -> char {
    if v < 26 {
        (65 + v) as char
    } else if v < 52 {
        (97 + v - 26) as char
    } else if v < 62 {
        (48 + v - 52) as char
    } else if v == 62 {
        '+'
    } else {
        '/'
    }
}

/// Standard base64 (RFC 4648, with `=` padding) of some bytes: every three
/// bytes become four characters; a final one or two bytes become four
/// characters ending in `==` or `=`.
pub open spec fn base64_encode(b: Seq<u8>) -> Seq<char>
    decreases b.len(),
{
    if b.len() == 0 {
        seq![]
    } else if b.len() == 1 {
        seq![base64_digit((b[0] / 4) as nat), base64_digit(((b[0] % 4) * 16) as nat), '=', '=']
    } else if b.len() == 2 {
        seq![
            base64_digit((b[0] / 4) as nat),
            base64_digit(((b[0] % 4) * 16 + b[1] / 16) as nat),
            base64_digit(((b[1] % 16) * 4) as nat),
            '=',
        ]
    } else {
        seq![
            base64_digit((b[0] / 4) as nat),
            base64_digit(((b[0] % 4) * 16 + b[1] / 16) as nat),
            base64_digit(((b[1] % 16) * 4 + b[2] / 64) as nat),
            base64_digit((b[2] % 64) as nat),
        ] + base64_encode(b.subrange(3, b.len() as int))
    }
}

/// `base64::engine::general_purpose::STANDARD.encode` on the UTF-8 bytes of
/// a string: the standard alphabet with padding, as the contract states.
#[verifier::external_body]
fn base64_standard(input: &str) -> (r: String)
    ensures
        r@ == base64_encode(input.spec_bytes()),
{
    base64::engine::general_purpose::STANDARD.encode(input)
}

/// The value of the `Authorization` header of a token request: HTTP basic
/// authentication with the app's id and secret.
pub fn basic_auth_header(client_id: &str, client_secret: &str) -> (r: String)
    ensures
        r@ == "Basic "@ + base64_encode(encode_utf8(client_id@ + ":"@ + client_secret@)),
{
    let mut credentials = String::from_str(client_id);
    push_str(&mut credentials, ":");
    push_str(&mut credentials, client_secret);
    let encoded = base64_standard(credentials.as_str());
    let mut out = String::from_str("Basic ");
    push_str(&mut out, encoded.as_str());
    out
}

/// The error for a token request that the server refused, given the shown
/// form of the status (e.g. `401 Unauthorized`).
pub fn oauth_status_error(status_text: &str) -> (r: RedditError)
    ensures
        r matches RedditError::Auth(m) && m@ == "OAuth error: "@ + status_text@,
{
    let mut m = String::from_str("OAuth error: ");
    push_str(&mut m, status_text);
    RedditError::Auth(m)
}

/// Whether a token request succeeded: a 2xx status passes, any other is
/// refused with the shown form of the status (e.g. `401 Unauthorized`).
pub fn check_token_status(status: u16, status_text: &str) -> (r: Result<(), RedditError>)
    ensures
        r is Ok <==> 200 <= status <= 299,
        r matches Err(RedditError::Auth(m)) ==> m@ == "OAuth error: "@ + status_text@,
        r matches Err(e) ==> e is Auth,
{
    if 200 <= status && status <= 299 {
        Ok(())
    } else {
        Err(oauth_status_error(status_text))
    }
}

/// The error for a token response that is not the expected JSON.
pub fn token_parse_error() -> (r: RedditError)
    ensures
        r matches RedditError::Auth(m) && m@ == "Failed to parse token response"@,
{
    RedditError::Auth(String::from_str("Failed to parse token response"))
}

/// How long a fresh token is trusted, in seconds: its lifetime less a
/// minute of margin, and never negative.
pub open spec fn token_lifetime(expires_in: u64) -> nat {
    if expires_in > 60 { (expires_in - 60) as nat } else { 0 }
}

/// The access token last obtained and when it stops being used. Times are
/// nanoseconds on a monotonic clock chosen by the caller.
pub struct TokenCache<T> {
    pub token: Option<T>,
    pub expiry: u128,
}

/// How long a fresh token is trusted, in nanoseconds.
pub fn token_lifetime_nanos(expires_in: u64) -> (r: u128)
    ensures
        r == token_lifetime(expires_in) * 1_000_000_000,
{
    let lifetime: u64 = if expires_in > 60 { expires_in - 60 } else { 0 };
    (lifetime as u128) * 1_000_000_000u128
}

/// The token a cache serves at time `now`: its token while `now` is before
/// the expiry.
pub open spec fn cached_token<T>(c: TokenCache<T>, now: u128) -> Option<T> {
    if now < c.expiry { c.token } else { None }
}

/// A cache after a token that expires in `expires_in` seconds was obtained
/// at `now`.
pub open spec fn after_store<T>(token: T, expires_in: u64, now: u128) -> TokenCache<T> {
    TokenCache { token: Some(token), expiry: (now + token_lifetime(expires_in) * 1_000_000_000) as u128 }
}

impl<T> TokenCache<T> {
    /// An empty cache.
    pub fn new(now: u128) -> (r: TokenCache<T>)
        ensures
            r.token is None && r.expiry == now,
    {
        TokenCache { token: None, expiry: now }
    }

    /// The cached token, if there is one and it has not expired at `now`.
    pub fn fresh_token(&self, now: u128) -> (r: Option<&T>)
        ensures
            match r {
                Some(t) => cached_token(*self, now) == Some(*t),
                None => cached_token(*self, now) is None,
            },
    {
        if now < self.expiry {
            match &self.token {
                Some(t) => Some(t),
                None => None,
            }
        } else {
            None
        }
    }

    /// Keeps a token obtained at `now` that the server says expires in
    /// `expires_in` seconds; it is used until a minute before that.
    pub fn store(&mut self, token: T, expires_in: u64, now: u128)
        requires
            now + token_lifetime(expires_in) * 1_000_000_000 <= u128::MAX,
        ensures
            *final(self) == after_store(token, expires_in, now),
    {
        let lifetime: u64 = if expires_in > 60 { expires_in - 60 } else { 0 };
        let expiry = now + (lifetime as u128) * 1_000_000_000u128;
        self.token = Some(token);
        self.expiry = expiry;
    }
}

/// Reading the cache after storing a token gives that token back until its
/// lifetime (less the minute of margin) has passed, and nothing after.
pub proof fn lemma_token_read_after_store<T>(token: T, expires_in: u64, now: u128, later: u128)
    requires
        now + token_lifetime(expires_in) * 1_000_000_000 <= u128::MAX,
    ensures
        cached_token(after_store(token, expires_in, now), later) == if later < now + token_lifetime(
            expires_in,
        ) * 1_000_000_000 {
            Some(token)
        } else {
            None::<T>
        },
{
}

/// A new cache serves no token, at any time.
pub proof fn lemma_new_cache_is_empty<T>(now: u128, later: u128)
    ensures
        cached_token(TokenCache::<T> { token: None, expiry: now }, later) is None,
{
}

/// `s` without newline and carriage-return characters.
pub open spec fn without_line_breaks(s: Seq<char>) -> Seq<char>
    decreases s.len(),
{
    if s.len() == 0 {
        seq![]
    } else if s.last() == '\n' || s.last() == '\r' {
        without_line_breaks(s.drop_last())
    } else {
        without_line_breaks(s.drop_last()).push(s.last())
    }
}

/// The `User-Agent` header of the client, naming the account it runs as;
/// line breaks in the name are dropped so that it cannot add headers.
pub fn user_agent(username: &str) -> (r: String)
    ensures
        r@ == "reddit-cli/0.1.0 (by /u/"@ + without_line_breaks(username@) + ")"@,
{
    let v = chars_of(username);
    let mut name = String::new();
    let mut i: usize = 0;
    while i < v.len()
        invariant
            i <= v.len(),
            name@ == without_line_breaks(v@.take(i as int)),
        decreases v.len() - i,
    {
        assert(v@.take(i + 1).drop_last() =~= v@.take(i as int));
        if v[i] != '\n' && v[i] != '\r' {
            push_char(&mut name, v[i]);
        }
        i = i + 1;
    }
    assert(v@.take(v.len() as int) =~= v@);
    let mut out = String::from_str("reddit-cli/0.1.0 (by /u/");
    push_str(&mut out, name.as_str());
    push_str(&mut out, ")");
    out
}

/// The full name of a post, as the info endpoint takes it.
pub fn info_id(post_id: &str) -> (r: String)
    ensures
        r@ == "t3_"@ + post_id@,
{
    let mut out = String::from_str("t3_");
    push_str(&mut out, post_id);
    out
}

/// The subreddit of the post that the info endpoint returned, or
/// `Not found: Post not found` when it returned none.
pub fn first_post_subreddit(listing: &Listing<RawPost>) -> (r: Result<String, RedditError>)
    ensures
        match r {
            Ok(s) => listing.data.children@.len() > 0 && s == listing.data.children@[0].data.subreddit,
            Err(e) => {
                &&& listing.data.children@.len() == 0
                &&& e matches RedditError::NotFound(m) && m@ == "Post not found"@
            },
        },
{
    if listing.data.children.len() == 0 {
        Err(RedditError::NotFound(String::from_str("Post not found")))
    } else {
        Ok(listing.data.children[0].data.subreddit.clone())
    }
}

} // verus!

verus! {

proof fn lemma_without_line_breaks_clean(s: Seq<char>)
    ensures
        forall|i: int| 0 <= i < without_line_breaks(s).len() ==> #[trigger] without_line_breaks(s)[i] != '\n'
            && without_line_breaks(s)[i] != '\r',
    decreases s.len(),
{
    if s.len() > 0 {
        lemma_without_line_breaks_clean(s.drop_last());
        let rest = without_line_breaks(s.drop_last());
        let all = without_line_breaks(s);
        assert forall|i: int| 0 <= i < all.len() implies #[trigger] all[i] != '\n' && all[i] != '\r' by {
            if i < rest.len() {
                assert(all[i] == rest[i]);
            }
        }
    }
}

/// The `User-Agent` header is a single line, whatever the username holds:
/// it has no newline or carriage return.
pub proof fn lemma_user_agent_single_line(username: Seq<char>)
    ensures
        forall|i: int| 0 <= i < ("reddit-cli/0.1.0 (by /u/"@ + without_line_breaks(username) + ")"@).len()
            ==> #[trigger] ("reddit-cli/0.1.0 (by /u/"@ + without_line_breaks(username) + ")"@)[i] != '\n'
            && ("reddit-cli/0.1.0 (by /u/"@ + without_line_breaks(username) + ")"@)[i] != '\r',
{
    reveal_strlit("reddit-cli/0.1.0 (by /u/");
    reveal_strlit(")");
    lemma_without_line_breaks_clean(username);
    let a = "reddit-cli/0.1.0 (by /u/"@;
    let b = without_line_breaks(username);
    let c = ")"@;
    let all = a + b + c;
    assert forall|i: int| 0 <= i < all.len() implies #[trigger] all[i] != '\n' && all[i] != '\r' by {
        if i < a.len() {
            assert(all[i] == a[i]);
        } else if i < a.len() + b.len() {
            assert(all[i] == b[i - a.len()]);
        } else {
            assert(all[i] == c[i - a.len() - b.len()]);
        }
    }
}

} // verus!
