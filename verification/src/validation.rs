use vstd::prelude::*;
use crate::text::{
    chars_of, is_whitespace, push_str, string_of_range, strip_prefix, trim, trim_bounds, trim_end,
    trim_start,
};

verus! {

/// Subreddit names: 1 to 21 ASCII letters, digits or underscores.
pub const SUBREDDIT_PATTERN: &'static str = "^[a-zA-Z0-9_]{1,21}$";

/// Usernames: 3 to 20 ASCII letters, digits, underscores or hyphens.
pub const USERNAME_PATTERN: &'static str = "^[a-zA-Z0-9_\\-]{3,20}$";

/// Post IDs: 1 to 10 lowercase ASCII letters or digits.
pub const POST_ID_PATTERN: &'static str = "^[a-z0-9]{1,10}$";

/// A full post URL: `reddit.com/r/<subreddit>/comments/<id>`, any case.
pub const POST_URL_PATTERN: &'static str = "(?i)reddit\\.com/r/([^/]+)/comments/([a-z0-9]+)";

/// A short post URL: `redd.it/<id>`, any case.
pub const SHORT_URL_PATTERN: &'static str = "(?i)redd\\.it/([a-z0-9]+)";

pub open spec fn is_name_char(c: char) -> bool {
    ('a' <= c && c <= 'z') || ('A' <= c && c <= 'Z') || ('0' <= c && c <= '9') || c == '_'
}

pub open spec fn is_username_char(c: char) -> bool {
    is_name_char(c) || c == '-'
}

pub open spec fn is_post_id_char(c: char) -> bool {
    ('a' <= c && c <= 'z') || ('0' <= c && c <= '9')
}

/// What `SUBREDDIT_PATTERN` matches.
pub open spec fn is_subreddit_name(s: Seq<char>) -> bool {
    &&& 1 <= s.len() <= 21
    &&& forall|i: int| 0 <= i < s.len() ==> is_name_char(#[trigger] s[i])
}

/// What `USERNAME_PATTERN` matches.
pub open spec fn is_username(s: Seq<char>) -> bool {
    &&& 3 <= s.len() <= 20
    &&& forall|i: int| 0 <= i < s.len() ==> is_username_char(#[trigger] s[i])
}

/// What `POST_ID_PATTERN` matches.
pub open spec fn is_post_id(s: Seq<char>) -> bool {
    &&& 1 <= s.len() <= 10
    &&& forall|i: int| 0 <= i < s.len() ==> is_post_id_char(#[trigger] s[i])
}

/// `regex::Regex::is_match` for one of the three anchored patterns above,
/// compiled with `regex::Regex::new`. The function takes the pattern text and
/// compiles it itself, so that its contract speaks of the pattern that was
/// compiled. Each pattern is `^`, one character
/// class, a repetition count and `$` (end of text, no multi-line mode), so a
/// match is a text of that many characters all in the class; the contract
/// states exactly that. The patterns are valid, so compiling them succeeds.
#[verifier::external_body]
fn regex_is_match(pattern: &str, haystack: &str) -> (r: bool)
    requires
        pattern@ == SUBREDDIT_PATTERN@ || pattern@ == USERNAME_PATTERN@ || pattern@ == POST_ID_PATTERN@,
    ensures
        pattern@ == SUBREDDIT_PATTERN@ ==> r == is_subreddit_name(haystack@),
        pattern@ == USERNAME_PATTERN@ ==> r == is_username(haystack@),
        pattern@ == POST_ID_PATTERN@ ==> r == is_post_id(haystack@),
{
    regex::Regex::new(pattern).unwrap().is_match(haystack)
}

/// `c` is the lowercase ASCII letter `lower` up to case, as case-insensitive
/// matching folds letters (Unicode simple case folding, which also folds
/// KELVIN SIGN to `k` and LONG S to `s`).
pub open spec fn folds_to(c: char, lower: char) -> bool {
    ||| c == lower
    ||| c as int == lower as int - 32
    ||| lower == 'k' && c == '\u{212a}'
    ||| lower == 's' && c == '\u{17f}'
}

/// The text at `i` spells `word` case-insensitively (letters of `word` are
/// lowercase ASCII; other characters must match exactly).
pub open spec fn spells_at(s: Seq<char>, i: int, word: Seq<char>) -> bool {
    &&& 0 <= i
    &&& i + word.len() <= s.len()
    &&& forall|j: int| 0 <= j < word.len() ==> if 'a' <= #[trigger] word[j] && word[j] <= 'z' {
        folds_to(s[i + j], word[j])
    } else {
        s[i + j] == word[j]
    }
}

/// A character of the class `[a-z0-9]` matched case-insensitively.
pub open spec fn is_id_char_any_case(c: char) -> bool {
    ||| 'a' <= c && c <= 'z'
    ||| 'A' <= c && c <= 'Z'
    ||| '0' <= c && c <= '9'
    ||| c == '\u{212a}'
    ||| c == '\u{17f}'
}

/// Index of the first `/` in `s` at or after `i`, or `s.len()`.
pub open spec fn next_slash(s: Seq<char>, i: int) -> int
    decreases s.len() - i,
{
    if i >= s.len() {
        s.len() as int
    } else if s[i] == '/' {
        i
    } else {
        next_slash(s, i + 1)
    }
}

/// End of the longest run of `is_id_char_any_case` characters from `i`.
pub open spec fn id_run_end(s: Seq<char>, i: int) -> int
    decreases s.len() - i,
{
    if i < 0 || i >= s.len() {
        i
    } else if is_id_char_any_case(s[i]) {
        id_run_end(s, i + 1)
    } else {
        i
    }
}

/// `POST_URL_PATTERN` matches at `i`: `reddit.com/r/` (any case), a non-empty
/// run without `/` (as long as it goes, since the next character must be the
/// `/` of `/comments/`), `/comments/` (any case), and a non-empty run of the
/// ID class.
#[verifier::opaque]
pub open spec fn post_url_match_at(s: Seq<char>, i: int) -> bool {
    let sub_start = i + 13;
    let sub_end = next_slash(s, sub_start);
    &&& spells_at(s, i, "reddit.com/r/"@)
    &&& sub_end > sub_start
    &&& spells_at(s, sub_end, "/comments/"@)
    &&& id_run_end(s, sub_end + 10) > sub_end + 10
}

/// `SHORT_URL_PATTERN` matches at `i`: `redd.it/` (any case) and a non-empty
/// run of the ID class.
#[verifier::opaque]
pub open spec fn short_url_match_at(s: Seq<char>, i: int) -> bool {
    &&& spells_at(s, i, "redd.it/"@)
    &&& id_run_end(s, i + 8) > i + 8
}

/// The groups of the leftmost match of `POST_URL_PATTERN` in `s` (the whole
/// match, the subreddit, the ID); its repetitions are greedy, so the ID run
/// is as long as it goes.
#[verifier::opaque]
pub open spec fn post_url_captures(s: Seq<char>) -> Option<Seq<Option<Seq<char>>>> {
    if exists|i: int| post_url_match_at(s, i) {
        let i = choose|i: int| post_url_match_at(s, i) && forall|j: int| 0 <= j < i ==> !post_url_match_at(s, j);
        let sub_end = next_slash(s, i + 13);
        let end = id_run_end(s, sub_end + 10);
        Some(seq![Some(s.subrange(i, end)), Some(s.subrange(i + 13, sub_end)), Some(s.subrange(sub_end + 10, end))])
    } else {
        None
    }
}

/// The groups of the leftmost match of `SHORT_URL_PATTERN` in `s` (the whole
/// match, the ID).
#[verifier::opaque]
pub open spec fn short_url_captures(s: Seq<char>) -> Option<Seq<Option<Seq<char>>>> {
    if exists|i: int| short_url_match_at(s, i) {
        let i = choose|i: int| short_url_match_at(s, i) && forall|j: int| 0 <= j < i ==> !short_url_match_at(s, j);
        let end = id_run_end(s, i + 8);
        Some(seq![Some(s.subrange(i, end)), Some(s.subrange(i + 8, end))])
    } else {
        None
    }
}

/// A match of the full-URL pattern has its three groups.
pub proof fn lemma_post_url_captures_shape(s: Seq<char>)
    ensures
        post_url_captures(s) matches Some(g) ==> g.len() == 3 && g[1] is Some && g[2] is Some,
{
    reveal(post_url_captures);
}

/// A match of the short-URL pattern has its two groups.
pub proof fn lemma_short_url_captures_shape(s: Seq<char>)
    ensures
        short_url_captures(s) matches Some(g) ==> g.len() == 2 && g[1] is Some,
{
    reveal(short_url_captures);
}

/// The groups of a capture result as plain text.
pub open spec fn captures_view(c: Option<Vec<Option<String>>>) -> Option<Seq<Option<Seq<char>>>> {
    match c {
        Some(v) => Some(v@.map_values(|g: Option<String>| match g {
            Some(s) => Some(s@),
            None => None,
        })),
        None => None,
    }
}

/// `regex::Regex::captures` for one of the two URL patterns above, compiled
/// with `regex::Regex::new` in the body (as for `regex_is_match`), each group
/// (the whole match first) turned into an owned string. The contract states
/// the leftmost-first match of each pattern: `(?i)` folds the letters of the
/// literals and of `[a-z0-9]`, `[^/]` takes any character but `/`, and the
/// repetitions are greedy. The patterns are valid, so compiling them
/// succeeds.
#[verifier::external_body]
fn regex_first_captures(pattern: &str, haystack: &str) -> (r: Option<Vec<Option<String>>>)
    requires
        pattern@ == POST_URL_PATTERN@ || pattern@ == SHORT_URL_PATTERN@,
    ensures
        pattern@ == POST_URL_PATTERN@ ==> captures_view(r) == post_url_captures(haystack@),
        pattern@ == SHORT_URL_PATTERN@ ==> captures_view(r) == short_url_captures(haystack@),
{
    regex::Regex::new(pattern).unwrap().captures(haystack).map(
        |caps| caps.iter().map(|m| m.map(|m| m.as_str().to_string())).collect(),
    )
}

/// Why an input was rejected; each variant keeps the input as given.
pub enum ValidationError {
    InvalidSubreddit(String),
    InvalidUsername(String),
    InvalidPostId(String),
}

impl ValidationError {
    /// The text shown for the error.
    pub open spec fn message_view(&self) -> Seq<char> {
        match self {
            ValidationError::InvalidSubreddit(s) => "Invalid subreddit name: "@ + s@,
            ValidationError::InvalidUsername(s) => "Invalid username: "@ + s@,
            ValidationError::InvalidPostId(s) => "Invalid post ID: "@ + s@,
        }
    }

    /// The text shown for the error, e.g. `Invalid username: a`.
    pub fn message(&self) -> (r: String)
        ensures
            r@ == self.message_view(),
    {
        let mut out = String::new();
        match self {
            ValidationError::InvalidSubreddit(s) => {
                push_str(&mut out, "Invalid subreddit name: ");
                push_str(&mut out, s.as_str());
            },
            ValidationError::InvalidUsername(s) => {
                push_str(&mut out, "Invalid username: ");
                push_str(&mut out, s.as_str());
            },
            ValidationError::InvalidPostId(s) => {
                push_str(&mut out, "Invalid post ID: ");
                push_str(&mut out, s.as_str());
            },
        }
        out
    }
}

/// The name a subreddit argument stands for: an `r/` prefix taken off, then
/// surrounding whitespace.
pub open spec fn subreddit_candidate(name: Seq<char>) -> Seq<char> {
    trim(strip_prefix(name, seq!['r', '/']))
}

/// The name a username argument stands for: a `u/` prefix taken off, then
/// surrounding whitespace.
pub open spec fn username_candidate(name: Seq<char>) -> Seq<char> {
    trim(strip_prefix(name, seq!['u', '/']))
}

/// Start of the text once `first` `/` is taken off its front, if it is there.
fn after_prefix(v: &Vec<char>, first: char) -> (r: usize)
    ensures
        r <= v.len(),
        v@.subrange(r as int, v.len() as int) == strip_prefix(v@, seq![first, '/']),
{
    if v.len() >= 2 && v[0] == first && v[1] == '/' {
        assert(v@.subrange(0, 2) =~= seq![first, '/']);
        2
    } else {
        assert(v@.subrange(0, v.len() as int) =~= v@);
        proof {
            if v.len() >= 2 && v@.subrange(0, 2) == seq![first, '/'] {
                assert(v@.subrange(0, 2)[0] == v@[0]);
                assert(v@.subrange(0, 2)[1] == v@[1]);
            }
        }
        0
    }
}

/// Checks a subreddit name given on the command line, with or without its
/// `r/` prefix, and returns the bare name.
pub fn validate_subreddit(name: &str) -> (r: Result<String, ValidationError>)
    ensures
        match r {
            Ok(clean) => clean@ == subreddit_candidate(name@) && is_subreddit_name(clean@),
            Err(e) => {
                &&& !is_subreddit_name(subreddit_candidate(name@))
                &&& e matches ValidationError::InvalidSubreddit(s) && s@ == name@
            },
        },
{
    let v = chars_of(name);
    let start = after_prefix(&v, 'r');
    let (lo, hi) = trim_bounds(&v, start);
    let cleaned = string_of_range(&v, lo, hi);
    if cleaned.as_str().is_empty() || !regex_is_match(SUBREDDIT_PATTERN, cleaned.as_str()) {
        return Err(ValidationError::InvalidSubreddit(String::from_str(name)));
    }
    Ok(cleaned)
}

/// Checks a username given on the command line, with or without its `u/`
/// prefix, and returns the bare name.
pub fn validate_username(name: &str) -> (r: Result<String, ValidationError>)
    ensures
        match r {
            Ok(clean) => clean@ == username_candidate(name@) && is_username(clean@),
            Err(e) => {
                &&& !is_username(username_candidate(name@))
                &&& e matches ValidationError::InvalidUsername(s) && s@ == name@
            },
        },
{
    let v = chars_of(name);
    let start = after_prefix(&v, 'u');
    let (lo, hi) = trim_bounds(&v, start);
    let cleaned = string_of_range(&v, lo, hi);
    if cleaned.as_str().is_empty() || !regex_is_match(USERNAME_PATTERN, cleaned.as_str()) {
        return Err(ValidationError::InvalidUsername(String::from_str(name)));
    }
    Ok(cleaned)
}

/// Checks a bare post ID and returns it without surrounding whitespace.
pub fn validate_post_id(id: &str) -> (r: Result<String, ValidationError>)
    ensures
        match r {
            Ok(clean) => clean@ == trim(id@) && is_post_id(clean@),
            Err(e) => {
                &&& !is_post_id(trim(id@))
                &&& e matches ValidationError::InvalidPostId(s) && s@ == id@
            },
        },
{
    let v = chars_of(id);
    let (lo, hi) = trim_bounds(&v, 0);
    assert(v@.subrange(0, v.len() as int) =~= v@);
    let cleaned = string_of_range(&v, lo, hi);
    if cleaned.as_str().is_empty() || !regex_is_match(POST_ID_PATTERN, cleaned.as_str()) {
        return Err(ValidationError::InvalidPostId(String::from_str(id)));
    }
    Ok(cleaned)
}

} // verus!

verus! {

/// Which kind of input was rejected.
pub enum InputKind {
    Subreddit,
    Username,
    PostId,
}

impl View for ValidationError {
    type V = (InputKind, Seq<char>);

    open spec fn view(&self) -> (InputKind, Seq<char>) {
        match self {
            ValidationError::InvalidSubreddit(s) => (InputKind::Subreddit, s@),
            ValidationError::InvalidUsername(s) => (InputKind::Username, s@),
            ValidationError::InvalidPostId(s) => (InputKind::PostId, s@),
        }
    }
}

/// The outcome of checking a subreddit argument: the bare name, or the
/// rejected input.
pub open spec fn subreddit_check(name: Seq<char>) -> Result<Seq<char>, (InputKind, Seq<char>)> {
    if is_subreddit_name(subreddit_candidate(name)) {
        Ok(subreddit_candidate(name))
    } else {
        Err((InputKind::Subreddit, name))
    }
}

/// The outcome of checking a post ID: the trimmed ID, or the rejected input.
pub open spec fn post_id_check(id: Seq<char>) -> Result<Seq<char>, (InputKind, Seq<char>)> {
    if is_post_id(trim(id)) {
        Ok(trim(id))
    } else {
        Err((InputKind::PostId, id))
    }
}

/// A post named on the command line: its ID, and its subreddit when the
/// input was a full URL that names it.
pub struct ExtractedPost {
    pub post_id: String,
    pub subreddit: Option<String>,
}

impl View for ExtractedPost {
    type V = (Seq<char>, Option<Seq<char>>);

    open spec fn view(&self) -> (Seq<char>, Option<Seq<char>>) {
        (self.post_id@, match self.subreddit {
            Some(s) => Some(s@),
            None => None,
        })
    }
}

pub open spec fn extraction_view(r: Result<ExtractedPost, ValidationError>) -> Result<
    (Seq<char>, Option<Seq<char>>),
    (InputKind, Seq<char>),
> {
    match r {
        Ok(p) => Ok(p@),
        Err(e) => Err(e@),
    }
}

/// How a post argument is read, given the capture groups of the full-URL
/// pattern and of the short-URL pattern in it: a full URL gives subreddit
/// and ID (the subreddit is checked first), else a short URL gives the ID,
/// else the whole input must be an ID.
pub open spec fn post_extraction(
    input: Seq<char>,
    url: Option<Seq<Option<Seq<char>>>>,
    short: Option<Seq<Option<Seq<char>>>>,
) -> Result<(Seq<char>, Option<Seq<char>>), (InputKind, Seq<char>)> {
    match url {
        Some(g) => match subreddit_check(g[1]->0) {
            Err(e) => Err(e),
            Ok(sub) => match post_id_check(g[2]->0) {
                Err(e) => Err(e),
                Ok(id) => Ok((id, Some(sub))),
            },
        },
        None => {
            let text = match short {
                Some(g) => g[1]->0,
                None => input,
            };
            match post_id_check(text) {
                Err(e) => Err(e),
                Ok(id) => Ok((id, None)),
            }
        },
    }
}

/// Reads a post argument from the capture groups that the full-URL and
/// short-URL patterns found in it (`None` where a pattern did not match).
pub fn post_from_captures(
    input: &str,
    url: Option<Vec<Option<String>>>,
    short: Option<Vec<Option<String>>>,
) -> (r: Result<ExtractedPost, ValidationError>)
    requires
        url matches Some(g) ==> g.len() >= 3 && g[1] is Some && g[2] is Some,
        short matches Some(g) ==> g.len() >= 2 && g[1] is Some,
    ensures
        extraction_view(r) == post_extraction(input@, captures_view(url), captures_view(short)),
{
    match url {
        Some(groups) => {
            let ghost gv = captures_view(url)->0;
            assert(gv[1]->0 == groups[1]->0@);
            assert(gv[2]->0 == groups[2]->0@);
            let subreddit = match validate_subreddit(groups[1].as_ref().unwrap().as_str()) {
                Ok(s) => s,
                Err(e) => return Err(e),
            };
            match validate_post_id(groups[2].as_ref().unwrap().as_str()) {
                Ok(post_id) => Ok(ExtractedPost { post_id, subreddit: Some(subreddit) }),
                Err(e) => Err(e),
            }
        },
        None => {
            let post_id = match short {
                Some(groups) => {
                    let ghost gv = captures_view(short)->0;
                    assert(gv[1]->0 == groups[1]->0@);
                    validate_post_id(groups[1].as_ref().unwrap().as_str())
                },
                None => validate_post_id(input),
            };
            match post_id {
                Ok(post_id) => Ok(ExtractedPost { post_id, subreddit: None }),
                Err(e) => Err(e),
            }
        },
    }
}

/// Reads a post argument that is a full Reddit URL, a short `redd.it` URL,
/// or a bare post ID.
pub fn extract_post_id(input: &str) -> (r: Result<ExtractedPost, ValidationError>)
    ensures
        extraction_view(r) == post_extraction(
            input@,
            post_url_captures(input@),
            short_url_captures(input@),
        ),
{
    let url = regex_first_captures(POST_URL_PATTERN, input);
    if url.is_some() {
        proof {
            lemma_post_url_captures_shape(input@);
            let g = url->0;
            let gv = captures_view(url)->0;
            assert(gv.len() == g@.len());
            assert(gv[1] == (match g@[1] { Some(t) => Some(t@), None => None::<Seq<char>> }));
            assert(gv[2] == (match g@[2] { Some(t) => Some(t@), None => None::<Seq<char>> }));
        }
        post_from_captures(input, url, None)
    } else {
        let short = regex_first_captures(SHORT_URL_PATTERN, input);
        proof {
            lemma_short_url_captures_shape(input@);
            if short is Some {
                let g = short->0;
                let gv = captures_view(short)->0;
                assert(gv.len() == g@.len());
                assert(gv[1] == (match g@[1] { Some(t) => Some(t@), None => None::<Seq<char>> }));
            }
        }
        post_from_captures(input, None, short)
    }
}

} // verus!

verus! {

proof fn lemma_plain_text_is_its_own_candidate(s: Seq<char>, first: char)
    requires
        forall|i: int| 0 <= i < s.len() ==> !is_whitespace(#[trigger] s[i]) && s[i] != '/',
    ensures
        trim(strip_prefix(s, seq![first, '/'])) == s,
{
    if 2 <= s.len() && s.subrange(0, 2) == seq![first, '/'] {
        assert(s.subrange(0, 2)[1] == s[1]);
    }
    assert(strip_prefix(s, seq![first, '/']) == s);
    if s.len() > 0 {
        assert(!is_whitespace(s[0]));
        assert(!is_whitespace(s.last()));
    }
    assert(trim_start(s) == s);
    assert(trim_end(s) == s);
}

/// Checking a subreddit name that was already accepted accepts it again and
/// returns it unchanged.
pub proof fn lemma_subreddit_check_idempotent(name: Seq<char>)
    ensures
        subreddit_check(name) matches Ok(clean) ==> subreddit_check(clean) == Ok::<
            Seq<char>,
            (InputKind, Seq<char>),
        >(clean),
{
    if let Ok(clean) = subreddit_check(name) {
        assert forall|i: int| 0 <= i < clean.len() implies !is_whitespace(#[trigger] clean[i]) && clean[i] != '/' by {
            assert(is_name_char(clean[i]));
        }
        lemma_plain_text_is_its_own_candidate(clean, 'r');
    }
}

/// Checking a username that was already accepted accepts it again and
/// returns it unchanged.
pub proof fn lemma_username_check_idempotent(name: Seq<char>)
    ensures
        is_username(username_candidate(name)) ==> username_candidate(username_candidate(name))
            == username_candidate(name),
{
    let clean = username_candidate(name);
    if is_username(clean) {
        assert forall|i: int| 0 <= i < clean.len() implies !is_whitespace(#[trigger] clean[i]) && clean[i] != '/' by {
            assert(is_username_char(clean[i]));
        }
        lemma_plain_text_is_its_own_candidate(clean, 'u');
    }
}

/// Checking a post ID that was already accepted accepts it again and returns
/// it unchanged.
pub proof fn lemma_post_id_check_idempotent(id: Seq<char>)
    ensures
        post_id_check(id) matches Ok(clean) ==> post_id_check(clean) == Ok::<
            Seq<char>,
            (InputKind, Seq<char>),
        >(clean),
{
    if let Ok(clean) = post_id_check(id) {
        if clean.len() > 0 {
            assert(is_post_id_char(clean[0]));
            assert(is_post_id_char(clean.last()));
        }
        assert(trim_start(clean) == clean);
        assert(trim_end(clean) == clean);
    }
}

/// Whatever the input, a post that is read from it has a valid ID, and a
/// valid subreddit when it has one.
pub proof fn lemma_extracted_post_is_valid(
    input: Seq<char>,
    url: Option<Seq<Option<Seq<char>>>>,
    short: Option<Seq<Option<Seq<char>>>>,
)
    ensures
        post_extraction(input, url, short) matches Ok((id, sub)) ==> is_post_id(id) && (sub matches Some(
            s,
        ) ==> is_subreddit_name(s)),
{
}

/// A bare post ID (in a text that neither URL pattern matches) is read as
/// that ID, trimmed, with no subreddit.
pub proof fn lemma_bare_post_id(input: Seq<char>)
    requires
        is_post_id(trim(input)),
    ensures
        post_extraction(input, None, None) == Ok::<(Seq<char>, Option<Seq<char>>), (InputKind, Seq<char>)>(
            (trim(input), None),
        ),
{
}

} // verus!
