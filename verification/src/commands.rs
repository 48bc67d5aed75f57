use vstd::prelude::*;
use crate::client::RequestError;
use crate::models::{
    formatted_from, user_comment_from, FormattedPost, Listing, RawPost, RawUserComment, UserComment,
};
use crate::text::{chars_of, decimal, push_str, u64_to_decimal};
use crate::validation::{
    is_subreddit_name, subreddit_candidate, validate_subreddit, ExtractedPost, InputKind,
    ValidationError,
};

verus! {

/// An API call to make: an endpoint (a path under the API address) and its
/// query or form parameters, in order.
pub struct ApiRequest {
    pub endpoint: String,
    pub params: Vec<(String, String)>,
}

/// The plain text of request parameters.
pub open spec fn params_view(p: Seq<(String, String)>) -> Seq<(Seq<char>, Seq<char>)> {
    p.map_values(|kv: (String, String)| (kv.0@, kv.1@))
}

/// Why a command could not be carried out.
pub enum CommandError {
    Invalid(ValidationError),
    Request(RequestError),
    QueryLength,
    TitleLength,
    Rejected(String),
    InvalidResponse,
    PostNotFound,
}

impl CommandError {
    /// The text shown for the error.
    pub open spec fn message_view(&self) -> Seq<char> {
        match self {
            CommandError::Invalid(e) => e.message_view(),
            CommandError::Request(e) => e.message_view(),
            CommandError::QueryLength => "Search query must be between 1 and 512 characters"@,
            CommandError::TitleLength => "Title must be between 1 and 300 characters"@,
            CommandError::Rejected(m) => "Reddit rejected the post: "@ + m@,
            CommandError::InvalidResponse => "Invalid response from Reddit"@,
            CommandError::PostNotFound => "Post not found"@,
        }
    }

    /// The text shown for the error.
    pub fn message(&self) -> (r: String)
        ensures
            r@ == self.message_view(),
    {
        match self {
            CommandError::Invalid(e) => e.message(),
            CommandError::Request(e) => e.message(),
            CommandError::QueryLength => String::from_str("Search query must be between 1 and 512 characters"),
            CommandError::TitleLength => String::from_str("Title must be between 1 and 300 characters"),
            CommandError::Rejected(m) => {
                let mut out = String::from_str("Reddit rejected the post: ");
                push_str(&mut out, m.as_str());
                out
            },
            CommandError::InvalidResponse => String::from_str("Invalid response from Reddit"),
            CommandError::PostNotFound => String::from_str("Post not found"),
        }
    }
}

/// Whether two strings hold the same characters.
pub fn same_text(a: &str, b: &str) -> (r: bool)
    ensures
        r == (a@ == b@),
{
    let x = chars_of(a);
    let y = chars_of(b);
    if x.len() != y.len() {
        return false;
    }
    let mut i: usize = 0;
    while i < x.len()
        invariant
            i <= x.len(),
            x.len() == y.len(),
            x@ == a@,
            y@ == b@,
            x@.subrange(0, i as int) == y@.subrange(0, i as int),
        decreases x.len() - i,
    {
        if x[i] != y[i] {
            assert(x@[i as int] != y@[i as int]);
            return false;
        }
        assert(x@.subrange(0, i + 1) =~= x@.subrange(0, i as int).push(x@[i as int]));
        assert(y@.subrange(0, i + 1) =~= y@.subrange(0, i as int).push(y@[i as int]));
        i = i + 1;
    }
    assert(x@ =~= x@.subrange(0, i as int));
    assert(y@ =~= y@.subrange(0, i as int));
    true
}

fn pair(k: &str, v: String) -> (r: (String, String))
    ensures
        r.0@ == k@ && r.1@ == v@,
{
    (String::from_str(k), v)
}

fn push_param(params: &mut Vec<(String, String)>, k: &str, v: String)
    ensures
        params_view(final(params)@) == params_view(old(params)@).push((k@, v@)),
{
    let ghost before = params@;
    params.push(pair(k, v));
    assert(params_view(params@) =~= params_view(before).push((k@, v@)));
}

/// Whether a listing sort takes a time window.
pub open spec fn sort_takes_time(sort: Seq<char>) -> bool {
    sort == "top"@ || sort == "controversial"@
}

/// The request for a subreddit's posts in the given sort order.
pub fn browse_request(subreddit: &str, sort: &str, limit: u32, time: &str) -> (r: Result<
    ApiRequest,
    CommandError,
>)
    ensures
        match r {
            Ok(req) => {
                &&& is_subreddit_name(subreddit_candidate(subreddit@))
                &&& req.endpoint@ == "/r/"@ + subreddit_candidate(subreddit@) + "/"@ + sort@
                &&& params_view(req.params@) == if sort_takes_time(sort@) {
                    seq![("limit"@, decimal(limit as nat)), ("t"@, time@)]
                } else {
                    seq![("limit"@, decimal(limit as nat))]
                }
            },
            Err(e) => {
                &&& !is_subreddit_name(subreddit_candidate(subreddit@))
                &&& e matches CommandError::Invalid(v) && v@ == (InputKind::Subreddit, subreddit@)
            },
        },
{
    let clean = match validate_subreddit(subreddit) {
        Ok(c) => c,
        Err(e) => return Err(CommandError::Invalid(e)),
    };
    let mut endpoint = String::from_str("/r/");
    push_str(&mut endpoint, clean.as_str());
    push_str(&mut endpoint, "/");
    push_str(&mut endpoint, sort);
    let mut params: Vec<(String, String)> = Vec::new();
    assert(params_view(params@) =~= Seq::<(Seq<char>, Seq<char>)>::empty());
    push_param(&mut params, "limit", u64_to_decimal(limit as u64));
    if same_text(sort, "top") || same_text(sort, "controversial") {
        push_param(&mut params, "t", String::from_str(time));
    }
    Ok(ApiRequest { endpoint, params })
}

} // verus!

verus! {

/// Whether a search query has an accepted length: 1 to 512 bytes (`str::len`).
pub open spec fn query_length_ok(query: &str) -> bool {
    1 <= query.len() <= 512
}

/// The request for a search, in all of Reddit or within one subreddit.
pub fn search_request(
    query: &str,
    subreddit: Option<&str>,
    sort: &str,
    limit: u32,
    time: &str,
) -> (r: Result<ApiRequest, CommandError>)
    ensures
        match r {
            Ok(req) => {
                &&& query_length_ok(query)
                &&& match subreddit {
                    Some(s) => is_subreddit_name(subreddit_candidate(s@)) && req.endpoint@ == "/r/"@
                        + subreddit_candidate(s@) + "/search"@,
                    None => req.endpoint@ == "/search"@,
                }
                &&& params_view(req.params@) == seq![
                    ("q"@, query@),
                    ("sort"@, sort@),
                    ("limit"@, decimal(limit as nat)),
                    ("t"@, time@),
                    ("restrict_sr"@, if subreddit is Some { "true"@ } else { "false"@ }),
                ]
            },
            Err(e) => if !query_length_ok(query) {
                e is QueryLength
            } else {
                &&& subreddit matches Some(s) && !is_subreddit_name(subreddit_candidate(s@))
                &&& e matches CommandError::Invalid(v) && v@ == (InputKind::Subreddit, subreddit->0@)
            },
        },
{
    if query.len() == 0 || query.len() > 512 {
        return Err(CommandError::QueryLength);
    }
    let endpoint = match subreddit {
        Some(sub) => {
            let clean = match validate_subreddit(sub) {
                Ok(c) => c,
                Err(e) => return Err(CommandError::Invalid(e)),
            };
            let mut endpoint = String::from_str("/r/");
            push_str(&mut endpoint, clean.as_str());
            push_str(&mut endpoint, "/search");
            endpoint
        },
        None => String::from_str("/search"),
    };
    let restrict = if subreddit.is_some() { "true" } else { "false" };
    let mut params: Vec<(String, String)> = Vec::new();
    assert(params_view(params@) =~= Seq::<(Seq<char>, Seq<char>)>::empty());
    push_param(&mut params, "q", String::from_str(query));
    push_param(&mut params, "sort", String::from_str(sort));
    push_param(&mut params, "limit", u64_to_decimal(limit as u64));
    push_param(&mut params, "t", String::from_str(time));
    push_param(&mut params, "restrict_sr", String::from_str(restrict));
    Ok(ApiRequest { endpoint, params })
}

/// The endpoint of a post's page with its comments.
pub open spec fn thread_endpoint(subreddit: Seq<char>, post_id: Seq<char>) -> Seq<char> {
    "/r/"@ + subreddit + "/comments/"@ + post_id
}

fn thread_endpoint_exec(subreddit: &str, post_id: &str) -> (r: String)
    ensures
        r@ == thread_endpoint(subreddit@, post_id@),
{
    let mut endpoint = String::from_str("/r/");
    push_str(&mut endpoint, subreddit);
    push_str(&mut endpoint, "/comments/");
    push_str(&mut endpoint, post_id);
    endpoint
}

/// The request for a post with up to `limit` top-level comments, replies
/// down to `depth`.
pub fn post_request(subreddit: &str, post_id: &str, depth: u32, limit: u32) -> (r: ApiRequest)
    ensures
        r.endpoint@ == thread_endpoint(subreddit@, post_id@),
        params_view(r.params@) == seq![("limit"@, decimal(limit as nat)), ("depth"@, decimal(depth as nat))],
{
    let mut params: Vec<(String, String)> = Vec::new();
    assert(params_view(params@) =~= Seq::<(Seq<char>, Seq<char>)>::empty());
    push_param(&mut params, "limit", u64_to_decimal(limit as u64));
    push_param(&mut params, "depth", u64_to_decimal(depth as u64));
    ApiRequest { endpoint: thread_endpoint_exec(subreddit, post_id), params }
}

/// How deep replies go in the output of the `comments` command.
pub const COMMENTS_DEPTH: u32 = 5u32;

/// The request for up to `limit` comments of a post in the given order.
pub fn comments_request(subreddit: &str, post_id: &str, sort: &str, limit: u32) -> (r: ApiRequest)
    ensures
        r.endpoint@ == thread_endpoint(subreddit@, post_id@),
        params_view(r.params@) == seq![("sort"@, sort@), ("limit"@, decimal(limit as nat))],
{
    let mut params: Vec<(String, String)> = Vec::new();
    assert(params_view(params@) =~= Seq::<(Seq<char>, Seq<char>)>::empty());
    push_param(&mut params, "sort", String::from_str(sort));
    push_param(&mut params, "limit", u64_to_decimal(limit as u64));
    ApiRequest { endpoint: thread_endpoint_exec(subreddit, post_id), params }
}

/// The request for the post whose subreddit is looked up.
pub fn info_request(post_id: &str) -> (r: ApiRequest)
    ensures
        r.endpoint@ == "/api/info"@,
        params_view(r.params@) == seq![("id"@, "t3_"@ + post_id@)],
{
    let mut params: Vec<(String, String)> = Vec::new();
    assert(params_view(params@) =~= Seq::<(Seq<char>, Seq<char>)>::empty());
    push_param(&mut params, "id", crate::client::info_id(post_id));
    ApiRequest { endpoint: String::from_str("/api/info"), params }
}

/// How the subreddit of a named post is found: it is known when the input
/// was a full URL that names it, else the post is looked up first.
pub enum SubredditLookup {
    Known(String),
    LookUp(ApiRequest),
}

/// The first step for a post named on the command line: its subreddit when
/// the input named it, else the request that looks the post up by its ID.
pub fn subreddit_lookup(post: &ExtractedPost) -> (r: SubredditLookup)
    ensures
        match post.subreddit {
            Some(s) => r matches SubredditLookup::Known(k) && k@ == s@,
            None => r matches SubredditLookup::LookUp(q) && q.endpoint@ == "/api/info"@
                && params_view(q.params@) == seq![("id"@, "t3_"@ + post.post_id@)],
        },
{
    match &post.subreddit {
        Some(s) => SubredditLookup::Known(s.clone()),
        None => SubredditLookup::LookUp(info_request(post.post_id.as_str())),
    }
}

/// The part of a user's pages that a request reads.
#[derive(Clone, Copy, Debug)]
pub enum UserSection {
    About,
    Submitted,
    Comments,
}

pub open spec fn section_name(s: UserSection) -> Seq<char> {
    match s {
        UserSection::About => "about"@,
        UserSection::Submitted => "submitted"@,
        UserSection::Comments => "comments"@,
    }
}

/// The request for a part of a validated user's pages: the profile takes
/// no parameters, the post and comment histories the 25 most recent items.
pub fn user_request(username: &str, section: UserSection) -> (r: ApiRequest)
    ensures
        r.endpoint@ == "/user/"@ + username@ + "/"@ + section_name(section),
        params_view(r.params@) == match section {
            UserSection::About => Seq::<(Seq<char>, Seq<char>)>::empty(),
            _ => seq![("limit"@, "25"@)],
        },
{
    let mut endpoint = String::from_str("/user/");
    push_str(&mut endpoint, username);
    push_str(&mut endpoint, "/");
    let mut params: Vec<(String, String)> = Vec::new();
    assert(params_view(params@) =~= Seq::<(Seq<char>, Seq<char>)>::empty());
    match section {
        UserSection::About => push_str(&mut endpoint, "about"),
        UserSection::Submitted => {
            push_str(&mut endpoint, "submitted");
            push_param(&mut params, "limit", String::from_str("25"));
        },
        UserSection::Comments => {
            push_str(&mut endpoint, "comments");
            push_param(&mut params, "limit", String::from_str("25"));
        },
    }
    ApiRequest { endpoint, params }
}

/// The parts of a user's pages that the user command reads, in order: the
/// profile, then the recent posts and the recent comments when asked for.
pub fn user_sections(include_posts: bool, include_comments: bool) -> (r: Vec<UserSection>)
    ensures
        r@ == seq![UserSection::About] + (if include_posts { seq![UserSection::Submitted] } else { seq![] })
            + (if include_comments { seq![UserSection::Comments] } else { seq![] }),
{
    let mut r: Vec<UserSection> = Vec::new();
    r.push(UserSection::About);
    if include_posts {
        r.push(UserSection::Submitted);
    }
    if include_comments {
        r.push(UserSection::Comments);
    }
    assert(r@ =~= seq![UserSection::About] + (if include_posts { seq![UserSection::Submitted] } else {
        seq![]
    }) + (if include_comments { seq![UserSection::Comments] } else { seq![] }));
    r
}

/// Whether a post title has an accepted length: 1 to 300 bytes (`str::len`).
pub open spec fn title_length_ok(title: &str) -> bool {
    1 <= title.len() <= 300
}

/// The form that submits a text post, once the subreddit and title are
/// checked (the subreddit first).
pub fn submit_request(subreddit: &str, title: &str, body: &str) -> (r: Result<ApiRequest, CommandError>)
    ensures
        match r {
            Ok(req) => {
                &&& is_subreddit_name(subreddit_candidate(subreddit@))
                &&& title_length_ok(title)
                &&& req.endpoint@ == "/api/submit"@
                &&& params_view(req.params@) == seq![
                    ("sr"@, subreddit_candidate(subreddit@)),
                    ("kind"@, "self"@),
                    ("title"@, title@),
                    ("text"@, body@),
                    ("api_type"@, "json"@),
                ]
            },
            Err(e) => if !is_subreddit_name(subreddit_candidate(subreddit@)) {
                e matches CommandError::Invalid(v) && v@ == (InputKind::Subreddit, subreddit@)
            } else {
                !title_length_ok(title) && e is TitleLength
            },
        },
{
    let clean = match validate_subreddit(subreddit) {
        Ok(c) => c,
        Err(e) => return Err(CommandError::Invalid(e)),
    };
    if title.len() == 0 || title.len() > 300 {
        return Err(CommandError::TitleLength);
    }
    let mut params: Vec<(String, String)> = Vec::new();
    assert(params_view(params@) =~= Seq::<(Seq<char>, Seq<char>)>::empty());
    push_param(&mut params, "sr", clean);
    push_param(&mut params, "kind", String::from_str("self"));
    push_param(&mut params, "title", String::from_str(title));
    push_param(&mut params, "text", String::from_str(body));
    push_param(&mut params, "api_type", String::from_str("json"));
    Ok(ApiRequest { endpoint: String::from_str("/api/submit"), params })
}

} // verus!

verus! {

/// The posts of a listing, each ready to be shown, in order.
pub fn posts_from_listing(listing: Listing<RawPost>) -> (r: Vec<FormattedPost>)
    ensures
        r@.len() == listing.data.children@.len(),
        forall|j: int| 0 <= j < r@.len() ==> formatted_from(
            #[trigger] listing.data.children@[j].data,
            r@[j],
        ),
{
    let ghost kids = listing.data.children@;
    let mut out: Vec<FormattedPost> = Vec::new();
    for t in it: listing.data.children
        invariant
            it.seq() == kids,
            out@.len() == it.index(),
            forall|j: int| 0 <= j < it.index() ==> formatted_from(#[trigger] kids[j].data, out@[j]),
    {
        out.push(FormattedPost::from_raw(t.data));
    }
    out
}

/// The comments of a user's history listing, each ready to be shown, in
/// order.
pub fn user_comments_from_listing(listing: Listing<RawUserComment>) -> (r: Vec<UserComment>)
    ensures
        r@.len() == listing.data.children@.len(),
        forall|j: int| 0 <= j < r@.len() ==> user_comment_from(
            #[trigger] listing.data.children@[j].data,
            r@[j],
        ),
{
    let ghost kids = listing.data.children@;
    let mut out: Vec<UserComment> = Vec::new();
    for t in it: listing.data.children
        invariant
            it.seq() == kids,
            out@.len() == it.index(),
            forall|j: int| 0 <= j < it.index() ==> user_comment_from(#[trigger] kids[j].data, out@[j]),
    {
        out.push(UserComment::from_raw(t.data));
    }
    out
}

/// The post of a post page's first listing, ready to be shown, or
/// `Post not found` when the listing is empty.
pub fn first_post(listing: Listing<RawPost>) -> (r: Result<FormattedPost, CommandError>)
    ensures
        match r {
            Ok(p) => listing.data.children@.len() > 0 && formatted_from(listing.data.children@[0].data, p),
            Err(e) => listing.data.children@.len() == 0 && e is PostNotFound,
        },
{
    let mut children = listing.data.children;
    if children.len() == 0 {
        return Err(CommandError::PostNotFound);
    }
    let first = children.remove(0);
    Ok(FormattedPost::from_raw(first.data))
}

/// The first two parts of a post page response (the post's listing and the
/// comments' listing), or `Invalid response from Reddit` when it has fewer.
pub fn first_two<T>(items: Vec<T>) -> (r: Result<(T, T), CommandError>)
    ensures
        match r {
            Ok((a, b)) => items@.len() >= 2 && a == items@[0] && b == items@[1],
            Err(e) => items@.len() < 2 && e is InvalidResponse,
        },
{
    let mut items = items;
    if items.len() < 2 {
        return Err(CommandError::InvalidResponse);
    }
    let a = items.remove(0);
    let b = items.remove(0);
    Ok((a, b))
}

/// The second part of a post page response (the comments' listing), or
/// `Invalid response from Reddit` when there is none.
pub fn second_item<T>(items: Vec<T>) -> (r: Result<T, CommandError>)
    ensures
        match r {
            Ok(b) => items@.len() >= 2 && b == items@[1],
            Err(e) => items@.len() < 2 && e is InvalidResponse,
        },
{
    let mut items = items;
    if items.len() < 2 {
        return Err(CommandError::InvalidResponse);
    }
    Ok(items.remove(1))
}

/// `parts` one after the other with `sep` between each two.
pub open spec fn joined(parts: Seq<Seq<char>>, sep: Seq<char>) -> Seq<char>
    decreases parts.len(),
{
    if parts.len() == 0 {
        seq![]
    } else if parts.len() == 1 {
        parts[0]
    } else {
        joined(parts.drop_last(), sep) + sep + parts.last()
    }
}

pub open spec fn strings_view(v: Seq<String>) -> Seq<Seq<char>> {
    v.map_values(|s: String| s@)
}

/// Joins strings with a separator, as `[String]::join` does.
pub fn join_strings(parts: &Vec<String>, sep: &str) -> (r: String)
    ensures
        r@ == joined(strings_view(parts@), sep@),
{
    let mut out = String::new();
    let n = parts.len();
    let mut i: usize = 0;
    while i < n
        invariant
            i <= n,
            n == parts@.len(),
            out@ == joined(strings_view(parts@.take(i as int)), sep@),
        decreases n - i,
    {
        let ghost prev = strings_view(parts@.take(i as int));
        let ghost next = strings_view(parts@.take(i + 1));
        assert(next.drop_last() =~= prev);
        assert(next.last() == parts@[i as int]@);
        if i > 0 {
            push_str(&mut out, sep);
        }
        push_str(&mut out, parts[i].as_str());
        proof {
            if i == 0 {
                assert(prev =~= Seq::<Seq<char>>::empty());
                assert(next.len() == 1);
            }
        }
        i = i + 1;
    }
    assert(parts@.take(n as int) =~= parts@);
    out
}

/// The text of the errors that Reddit gave for a refused post: each error's
/// parts joined with `: `, the errors joined with `; `.
pub open spec fn rejection_text(errors: Seq<Vec<String>>) -> Seq<char> {
    joined(errors.map_values(|e: Vec<String>| joined(strings_view(e@), ": "@)), "; "@)
}

/// What the answer to a submission means: an error when Reddit listed
/// errors, else the line that reports the post (with its address when the
/// answer gives one).
pub fn submit_outcome(errors: &Vec<Vec<String>>, url: Option<String>) -> (r: Result<String, CommandError>)
    ensures
        match r {
            Ok(line) => errors@.len() == 0 && line@ == match url {
                Some(u) => "Post submitted: "@ + u@,
                None => "Post submitted successfully."@,
            },
            Err(e) => {
                &&& errors@.len() > 0
                &&& e matches CommandError::Rejected(m) && m@ == rejection_text(errors@)
            },
        },
{
    if errors.len() > 0 {
        let mut messages: Vec<String> = Vec::new();
        let n = errors.len();
        let mut i: usize = 0;
        while i < n
            invariant
                i <= n,
                n == errors@.len(),
                strings_view(messages@) == errors@.take(i as int).map_values(
                    |e: Vec<String>| joined(strings_view(e@), ": "@),
                ),
            decreases n - i,
        {
            let ghost before = messages@;
            messages.push(join_strings(&errors[i], ": "));
            assert(strings_view(messages@) =~= strings_view(before).push(messages@.last()@));
            assert(errors@.take(i + 1).map_values(|e: Vec<String>| joined(strings_view(e@), ": "@))
                =~= errors@.take(i as int).map_values(|e: Vec<String>| joined(strings_view(e@), ": "@)).push(
                joined(strings_view(errors@[i as int]@), ": "@),
            ));
            i = i + 1;
        }
        assert(errors@.take(n as int) =~= errors@);
        return Err(CommandError::Rejected(join_strings(&messages, "; ")));
    }
    match url {
        Some(u) => {
            let mut line = String::from_str("Post submitted: ");
            push_str(&mut line, u.as_str());
            Ok(line)
        },
        None => Ok(String::from_str("Post submitted successfully.")),
    }
}

} // verus!
