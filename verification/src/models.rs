use vstd::prelude::*;
use crate::text::{chars_of, push_str};

verus! {

// The shapes of Reddit API responses, holding the values that the logic
// reads. Timestamps are whole seconds since the Unix epoch, and the upvote
// ratio is kept as the whole percentage that is shown.

/// A listing response: `{"data": {"children": [...]}}`.
pub struct Listing<T> {
    pub data: ListingData<T>,
}

/// The body of a listing.
pub struct ListingData<T> {
    pub children: Vec<Thing<T>>,
}

/// One item of a listing, with its kind tag (`t1` comment, `t3` post, ...).
pub struct Thing<T> {
    pub kind: String,
    pub data: T,
}

/// A post as the API sends it.
pub struct RawPost {
    pub id: String,
    pub title: String,
    pub author: String,
    pub subreddit: String,
    pub score: i64,
    pub upvote_percent: u32,
    pub num_comments: i64,
    pub created_utc: i64,
    pub url: String,
    pub selftext: Option<String>,
    pub is_self: bool,
    pub permalink: String,
}

/// A comment as the API sends it; its replies are a nested listing.
pub struct RawComment {
    pub id: Option<String>,
    pub author: Option<String>,
    pub body: Option<String>,
    pub score: Option<i64>,
    pub created_utc: Option<i64>,
    pub replies: Option<Listing<RawComment>>,
}

/// A user profile as the API sends it.
pub struct RawUser {
    pub name: String,
    pub created_utc: i64,
    pub link_karma: i64,
    pub comment_karma: i64,
    pub is_gold: bool,
    pub is_mod: bool,
    pub verified: bool,
}

/// A comment in a user's history as the API sends it.
pub struct RawUserComment {
    pub id: String,
    pub body: String,
    pub score: i64,
    pub subreddit: String,
    pub created_utc: i64,
    pub link_title: String,
}

/// A post ready to be shown.
pub struct FormattedPost {
    pub id: String,
    pub title: String,
    pub author: String,
    pub subreddit: String,
    pub score: i64,
    pub upvote_percent: u32,
    pub num_comments: i64,
    pub created_utc: i64,
    pub url: String,
    pub selftext: Option<String>,
    pub is_self: bool,
    pub permalink: String,
}

/// A comment ready to be shown, at its depth in the thread, with its shown
/// replies (`None` when there are none).
pub struct FormattedComment {
    pub id: String,
    pub author: String,
    pub body: String,
    pub score: i64,
    pub created_utc: i64,
    pub depth: u32,
    pub replies: Option<Vec<FormattedComment>>,
}

/// A user profile ready to be shown.
pub struct FormattedUser {
    pub name: String,
    pub created_utc: i64,
    pub link_karma: i64,
    pub comment_karma: i64,
    pub is_gold: bool,
    pub is_mod: bool,
    pub verified: bool,
}

/// A comment of a user's history ready to be shown.
pub struct UserComment {
    pub id: String,
    pub body: String,
    pub score: i64,
    pub subreddit: String,
    pub created_utc: i64,
    pub link_title: String,
}

/// The plain content of a shown comment and of its replies.
pub struct CommentView {
    pub id: Seq<char>,
    pub author: Seq<char>,
    pub body: Seq<char>,
    pub score: i64,
    pub created_utc: i64,
    pub depth: u32,
    pub replies: Option<Seq<CommentView>>,
}

/// The text of an optional string, empty when absent.
pub open spec fn text_or_empty(o: Option<String>) -> Seq<char> {
    match o {
        Some(s) => s@,
        None => seq![],
    }
}

/// The kind tag of comments.
pub open spec fn is_comment_kind(kind: Seq<char>) -> bool {
    kind == seq!['t', '1']
}

/// How a raw comment at `depth` is shown, when it has an author: its replies
/// are shown, one level deeper, only while `depth < max_depth`, and only
/// when at least one of them is shown.
pub open spec fn shown_comment(raw: RawComment, depth: u32, max_depth: u32) -> Option<CommentView>
    decreases raw,
{
    match raw.author {
        None => None,
        Some(author) => Some(CommentView {
            id: text_or_empty(raw.id),
            author: author@,
            body: text_or_empty(raw.body),
            score: match raw.score { Some(s) => s, None => 0 },
            created_utc: match raw.created_utc { Some(t) => t, None => 0 },
            depth: depth,
            replies: if depth < max_depth {
                match raw.replies {
                    Some(listing) => {
                        let shown = shown_replies(listing.data.children@, (depth + 1) as u32, max_depth);
                        if shown.len() > 0 { Some(shown) } else { None }
                    },
                    None => None,
                }
            } else {
                None
            },
        }),
    }
}

/// The shown comments among `kids`, in order: items of kind `t1` that
/// have an author.
pub open spec fn shown_replies(kids: Seq<Thing<RawComment>>, depth: u32, max_depth: u32) -> Seq<CommentView>
    decreases kids,
{
    if kids.len() == 0 {
        seq![]
    } else {
        let head = if is_comment_kind(kids[0].kind@) {
            match shown_comment(kids[0].data, depth, max_depth) {
                Some(c) => seq![c],
                None => seq![],
            }
        } else {
            seq![]
        };
        head + shown_replies(kids.subrange(1, kids.len() as int), depth, max_depth)
    }
}

/// The top-level comments shown for a thread: the first `limit` items of
/// kind `t1` are taken, and those with an author are shown at depth 0.
pub open spec fn shown_thread(kids: Seq<Thing<RawComment>>, max_depth: u32, limit: nat) -> Seq<CommentView>
    decreases kids.len(),
{
    if kids.len() == 0 || limit == 0 {
        seq![]
    } else if is_comment_kind(kids[0].kind@) {
        let head = match shown_comment(kids[0].data, 0, max_depth) {
            Some(c) => seq![c],
            None => seq![],
        };
        head + shown_thread(kids.subrange(1, kids.len() as int), max_depth, (limit - 1) as nat)
    } else {
        shown_thread(kids.subrange(1, kids.len() as int), max_depth, limit)
    }
}

/// The plain content of a shown comment.
pub open spec fn comment_view(c: FormattedComment) -> CommentView
    decreases c,
{
    CommentView {
        id: c.id@,
        author: c.author@,
        body: c.body@,
        score: c.score,
        created_utc: c.created_utc,
        depth: c.depth,
        replies: match c.replies {
            Some(v) => Some(comments_view(v@)),
            None => None,
        },
    }
}

/// The plain content of a sequence of shown comments.
pub open spec fn comments_view(s: Seq<FormattedComment>) -> Seq<CommentView>
    decreases s,
{
    if s.len() == 0 {
        seq![]
    } else {
        comments_view(s.drop_last()).push(comment_view(s.last()))
    }
}

proof fn lemma_comments_view_push(s: Seq<FormattedComment>, c: FormattedComment)
    ensures
        comments_view(s.push(c)) == comments_view(s).push(comment_view(c)),
{
    assert(s.push(c).drop_last() =~= s);
}

fn is_comment_kind_exec(kind: &String) -> (r: bool)
    ensures
        r == is_comment_kind(kind@),
{
    let v = chars_of(kind.as_str());
    let r = v.len() == 2 && v[0] == 't' && v[1] == '1';
    proof {
        if v.len() == 2 {
            if v[0] == 't' && v[1] == '1' {
                assert(v@ =~= seq!['t', '1']);
            } else {
                if v@ == seq!['t', '1'] {
                    assert(v@[0] == 't' && v@[1] == '1');
                }
            }
        }
    }
    r
}

fn text_or_empty_exec(o: &Option<String>) -> (r: String)
    ensures
        r@ == text_or_empty(*o),
{
    match o {
        Some(s) => s.clone(),
        None => String::new(),
    }
}

fn format_comment(raw: &RawComment, depth: u32, max_depth: u32) -> (r: Option<FormattedComment>)
    ensures
        match r {
            Some(c) => shown_comment(*raw, depth, max_depth) == Some(comment_view(c)),
            None => shown_comment(*raw, depth, max_depth) is None,
        },
    decreases *raw,
{
    match &raw.author {
        None => None,
        Some(author) => {
            let mut replies: Option<Vec<FormattedComment>> = None;
            if depth < max_depth {
                match &raw.replies {
                    Some(listing) => {
                        let shown = format_replies(listing.data.children.as_slice(), depth + 1, max_depth);
                        if shown.len() > 0 {
                            replies = Some(shown);
                        }
                    },
                    None => {},
                }
            }
            let c = FormattedComment {
                id: text_or_empty_exec(&raw.id),
                author: author.clone(),
                body: text_or_empty_exec(&raw.body),
                score: match raw.score {
                    Some(s) => s,
                    None => 0,
                },
                created_utc: match raw.created_utc {
                    Some(t) => t,
                    None => 0,
                },
                depth: depth,
                replies: replies,
            };
            assert(shown_comment(*raw, depth, max_depth) == Some(comment_view(c)));
            Some(c)
        },
    }
}

fn format_replies(kids: &[Thing<RawComment>], depth: u32, max_depth: u32) -> (r: Vec<FormattedComment>)
    ensures
        comments_view(r@) == shown_replies(kids@, depth, max_depth),
    decreases kids@,
{
    let mut out: Vec<FormattedComment> = Vec::new();
    let mut i: usize = 0;
    let n = kids.len();
    assert(kids@.subrange(0, n as int) =~= kids@);
    while i < n
        invariant
            i <= n,
            n == kids@.len(),
            comments_view(out@) + shown_replies(kids@.subrange(i as int, n as int), depth, max_depth)
                == shown_replies(kids@, depth, max_depth),
        decreases n - i,
    {
        let ghost rest = kids@.subrange(i as int, n as int);
        assert(rest.subrange(1, rest.len() as int) =~= kids@.subrange(i + 1, n as int));
        assert(rest[0] == kids@[i as int]);
        let ghost before = out@;
        if is_comment_kind_exec(&kids[i].kind) {
            match format_comment(&kids[i].data, depth, max_depth) {
                Some(c) => {
                    out.push(c);
                    proof { lemma_comments_view_push(before, c); }
                },
                None => {},
            }
        }
        i = i + 1;
    }
    assert(kids@.subrange(n as int, n as int) =~= Seq::<Thing<RawComment>>::empty());
    assert(comments_view(out@) + Seq::<CommentView>::empty() =~= comments_view(out@));
    out
}

} // verus!

verus! {

/// Builds the comment tree shown for a thread: at most `limit` top-level
/// comments, replies nested down to depth `max_depth`.
pub fn build_comment_tree(children: &[Thing<RawComment>], max_depth: u32, limit: u32) -> (r: Vec<
    FormattedComment,
>)
    ensures
        comments_view(r@) == shown_thread(children@, max_depth, limit as nat),
{
    let mut out: Vec<FormattedComment> = Vec::new();
    let mut i: usize = 0;
    let n = children.len();
    let mut left: u32 = limit;
    assert(children@.subrange(0, n as int) =~= children@);
    while i < n && left > 0
        invariant
            i <= n,
            n == children@.len(),
            left <= limit,
            comments_view(out@) + shown_thread(children@.subrange(i as int, n as int), max_depth, left as nat)
                == shown_thread(children@, max_depth, limit as nat),
        decreases n - i,
    {
        let ghost rest = children@.subrange(i as int, n as int);
        assert(rest.subrange(1, rest.len() as int) =~= children@.subrange(i + 1, n as int));
        assert(rest[0] == children@[i as int]);
        let ghost before = out@;
        if is_comment_kind_exec(&children[i].kind) {
            match format_comment(&children[i].data, 0, max_depth) {
                Some(c) => {
                    out.push(c);
                    proof { lemma_comments_view_push(before, c); }
                },
                None => {},
            }
            left = left - 1;
        }
        i = i + 1;
    }
    assert(shown_thread(children@.subrange(i as int, n as int), max_depth, left as nat) =~= Seq::<CommentView>::empty());
    assert(comments_view(out@) + Seq::<CommentView>::empty() =~= comments_view(out@));
    out
}

/// A shown comment sits at `depth` (no deeper than `max_depth`), and its
/// replies, when present, are non-empty, one level deeper, and only below
/// `max_depth`.
pub open spec fn well_shaped(c: CommentView, depth: u32, max_depth: u32) -> bool
    decreases c,
{
    &&& c.depth == depth
    &&& depth <= max_depth
    &&& match c.replies {
        None => true,
        Some(rs) => {
            &&& rs.len() > 0
            &&& depth < max_depth
            &&& forall|i: int| 0 <= i < rs.len() ==> well_shaped(#[trigger] rs[i], (depth + 1) as u32, max_depth)
        },
    }
}

proof fn lemma_shown_comment_shape(raw: RawComment, depth: u32, max_depth: u32)
    requires
        depth <= max_depth,
    ensures
        shown_comment(raw, depth, max_depth) matches Some(c) ==> well_shaped(c, depth, max_depth),
    decreases raw,
{
    if raw.author is Some && depth < max_depth && raw.replies is Some {
        let kids = raw.replies->0.data.children@;
        lemma_shown_replies_shape(kids, (depth + 1) as u32, max_depth);
        let shown = shown_replies(kids, (depth + 1) as u32, max_depth);
        let c = shown_comment(raw, depth, max_depth)->0;
        if shown.len() > 0 {
            assert(c.replies == Some(shown));
            assert forall|i: int| 0 <= i < shown.len() implies well_shaped(
                #[trigger] shown[i],
                (depth + 1) as u32,
                max_depth,
            ) by {}
        }
        assert(well_shaped(c, depth, max_depth));
    }
}

proof fn lemma_shown_replies_shape(kids: Seq<Thing<RawComment>>, depth: u32, max_depth: u32)
    requires
        depth <= max_depth,
    ensures
        forall|i: int| 0 <= i < shown_replies(kids, depth, max_depth).len()
            ==> well_shaped(#[trigger] shown_replies(kids, depth, max_depth)[i], depth, max_depth),
    decreases kids,
{
    if kids.len() > 0 {
        let tail = kids.subrange(1, kids.len() as int);
        lemma_shown_comment_shape(kids[0].data, depth, max_depth);
        lemma_shown_replies_shape(tail, depth, max_depth);
        let head = if is_comment_kind(kids[0].kind@) {
            match shown_comment(kids[0].data, depth, max_depth) {
                Some(c) => seq![c],
                None => seq![],
            }
        } else {
            seq![]
        };
        let all = shown_replies(kids, depth, max_depth);
        assert(all == head + shown_replies(tail, depth, max_depth));
        assert forall|i: int| 0 <= i < all.len() implies well_shaped(#[trigger] all[i], depth, max_depth) by {
            if i < head.len() {
                assert(all[i] == head[i]);
            } else {
                assert(all[i] == shown_replies(tail, depth, max_depth)[i - head.len()]);
            }
        }
    }
}

/// The thread shown for a post has at most `limit` top-level comments; each
/// sits at depth 0 and every reply one level below its parent, never deeper
/// than `max_depth`, and a reply list is never shown empty.
pub proof fn lemma_thread_shape(kids: Seq<Thing<RawComment>>, max_depth: u32, limit: nat)
    ensures
        shown_thread(kids, max_depth, limit).len() <= limit,
        forall|i: int| 0 <= i < shown_thread(kids, max_depth, limit).len()
            ==> well_shaped(#[trigger] shown_thread(kids, max_depth, limit)[i], 0, max_depth),
    decreases kids.len(),
{
    if kids.len() > 0 && limit > 0 {
        let tail = kids.subrange(1, kids.len() as int);
        let all = shown_thread(kids, max_depth, limit);
        if is_comment_kind(kids[0].kind@) {
            lemma_shown_comment_shape(kids[0].data, 0, max_depth);
            lemma_thread_shape(tail, max_depth, (limit - 1) as nat);
            let head = match shown_comment(kids[0].data, 0, max_depth) {
                Some(c) => seq![c],
                None => seq![],
            };
            let rest = shown_thread(tail, max_depth, (limit - 1) as nat);
            assert(all == head + rest);
            assert forall|i: int| 0 <= i < all.len() implies well_shaped(#[trigger] all[i], 0, max_depth) by {
                if i < head.len() {
                    assert(all[i] == head[i]);
                } else {
                    assert(all[i] == rest[i - head.len()]);
                }
            }
        } else {
            lemma_thread_shape(tail, max_depth, limit);
        }
    }
}

} // verus!

verus! {

/// How a raw comment at `depth` is shown when at most `budget` more comments
/// may be shown in all, with the budget left afterwards. A comment with an
/// author takes one from the budget; its replies are shown, one level deeper,
/// only while `depth < max_depth`, from what is left of the budget, and only
/// when at least one of them is shown.
pub open spec fn capped_comment(raw: RawComment, depth: u32, max_depth: u32, budget: nat) -> (
    Option<CommentView>,
    nat,
)
    decreases raw,
{
    if budget == 0 {
        (None, 0)
    } else {
        match raw.author {
            None => (None, budget),
            Some(author) => {
                let after: nat = (budget - 1) as nat;
                let (replies, left) = if depth < max_depth {
                    match raw.replies {
                        Some(listing) => {
                            let (shown, left) = capped_replies(
                                listing.data.children@,
                                (depth + 1) as u32,
                                max_depth,
                                after,
                            );
                            (if shown.len() > 0 { Some(shown) } else { None }, left)
                        },
                        None => (None, after),
                    }
                } else {
                    (None, after)
                };
                (
                    Some(
                        CommentView {
                            id: text_or_empty(raw.id),
                            author: author@,
                            body: text_or_empty(raw.body),
                            score: match raw.score {
                                Some(s) => s,
                                None => 0,
                            },
                            created_utc: match raw.created_utc {
                                Some(t) => t,
                                None => 0,
                            },
                            depth: depth,
                            replies: replies,
                        },
                    ),
                    left,
                )
            },
        }
    }
}

/// The comments shown among `kids`, in order and depth first, when at most
/// `budget` more may be shown in all, with the budget left afterwards: items
/// of kind `t1` that have an author, until the budget is spent.
pub open spec fn capped_replies(kids: Seq<Thing<RawComment>>, depth: u32, max_depth: u32, budget: nat) -> (
    Seq<CommentView>,
    nat,
)
    decreases kids,
{
    if kids.len() == 0 || budget == 0 {
        (seq![], budget)
    } else {
        let (head, after) = if is_comment_kind(kids[0].kind@) {
            match capped_comment(kids[0].data, depth, max_depth, budget) {
                (Some(c), left) => (seq![c], left),
                (None, left) => (seq![], left),
            }
        } else {
            (seq![], budget)
        };
        let (rest, left) = capped_replies(kids.subrange(1, kids.len() as int), depth, max_depth, after);
        (head + rest, left)
    }
}

/// The number of comments in a shown comment and all its replies.
pub open spec fn comment_count(c: CommentView) -> nat
    decreases c,
{
    1 + match c.replies {
        Some(rs) => comments_count(rs),
        None => 0,
    }
}

/// The number of comments in shown comments and all their replies.
pub open spec fn comments_count(cs: Seq<CommentView>) -> nat
    decreases cs,
{
    if cs.len() == 0 {
        0
    } else {
        comment_count(cs[0]) + comments_count(cs.subrange(1, cs.len() as int))
    }
}

/// The optional plain content of a shown comment.
pub open spec fn opt_comment_view(o: Option<FormattedComment>) -> Option<CommentView> {
    match o {
        Some(c) => Some(comment_view(c)),
        None => None,
    }
}

proof fn lemma_count_prepend(c: CommentView, rest: Seq<CommentView>)
    ensures
        comments_count(seq![c] + rest) == comment_count(c) + comments_count(rest),
{
    let all = seq![c] + rest;
    assert(all[0] == c);
    assert(all.subrange(1, all.len() as int) =~= rest);
}

/// What a capped comment shows is what it takes from the budget.
proof fn lemma_capped_comment_count(raw: RawComment, depth: u32, max_depth: u32, budget: nat)
    ensures
        capped_comment(raw, depth, max_depth, budget).1 <= budget,
        match capped_comment(raw, depth, max_depth, budget).0 {
            Some(c) => comment_count(c) + capped_comment(raw, depth, max_depth, budget).1 == budget,
            None => capped_comment(raw, depth, max_depth, budget).1 == budget,
        },
    decreases raw,
{
    if budget > 0 && raw.author is Some && depth < max_depth && raw.replies is Some {
        let kids = raw.replies->0.data.children@;
        lemma_capped_replies_count(kids, (depth + 1) as u32, max_depth, (budget - 1) as nat);
        let (shown, left) = capped_replies(kids, (depth + 1) as u32, max_depth, (budget - 1) as nat);
        if shown.len() == 0 {
            assert(comments_count(shown) == 0);
        }
    }
}

/// What capped replies show is what they take from the budget.
proof fn lemma_capped_replies_count(kids: Seq<Thing<RawComment>>, depth: u32, max_depth: u32, budget: nat)
    ensures
        capped_replies(kids, depth, max_depth, budget).1 <= budget,
        comments_count(capped_replies(kids, depth, max_depth, budget).0)
            + capped_replies(kids, depth, max_depth, budget).1 == budget,
    decreases kids,
{
    if kids.len() > 0 && budget > 0 {
        let tail = kids.subrange(1, kids.len() as int);
        lemma_capped_comment_count(kids[0].data, depth, max_depth, budget);
        let after: nat = if is_comment_kind(kids[0].kind@) {
            capped_comment(kids[0].data, depth, max_depth, budget).1
        } else {
            budget
        };
        lemma_capped_replies_count(tail, depth, max_depth, after);
        let (rest, left) = capped_replies(tail, depth, max_depth, after);
        if is_comment_kind(kids[0].kind@) {
            match capped_comment(kids[0].data, depth, max_depth, budget).0 {
                Some(c) => {
                    lemma_count_prepend(c, rest);
                },
                None => {
                    assert(seq![] + rest =~= rest);
                },
            }
        } else {
            assert(seq![] + rest =~= rest);
        }
    } else {
        assert(comments_count(Seq::<CommentView>::empty()) == 0);
    }
}

/// However the thread is nested, a thread shown under a limit holds at most
/// `limit` comments in all, counting replies at every depth.
pub proof fn lemma_capped_thread_within_limit(kids: Seq<Thing<RawComment>>, max_depth: u32, limit: nat)
    ensures
        comments_count(capped_replies(kids, 0, max_depth, limit).0) <= limit,
{
    lemma_capped_replies_count(kids, 0, max_depth, limit);
}

proof fn lemma_capped_comment_shape(raw: RawComment, depth: u32, max_depth: u32, budget: nat)
    requires
        depth <= max_depth,
    ensures
        capped_comment(raw, depth, max_depth, budget).0 matches Some(c) ==> well_shaped(c, depth, max_depth),
    decreases raw,
{
    if budget > 0 && raw.author is Some && depth < max_depth && raw.replies is Some {
        let kids = raw.replies->0.data.children@;
        lemma_capped_replies_shape(kids, (depth + 1) as u32, max_depth, (budget - 1) as nat);
        let shown = capped_replies(kids, (depth + 1) as u32, max_depth, (budget - 1) as nat).0;
        let c = capped_comment(raw, depth, max_depth, budget).0->0;
        if shown.len() > 0 {
            assert(c.replies == Some(shown));
            assert forall|i: int| 0 <= i < shown.len() implies well_shaped(
                #[trigger] shown[i],
                (depth + 1) as u32,
                max_depth,
            ) by {}
        }
        assert(well_shaped(c, depth, max_depth));
    }
}

proof fn lemma_capped_replies_shape(kids: Seq<Thing<RawComment>>, depth: u32, max_depth: u32, budget: nat)
    requires
        depth <= max_depth,
    ensures
        forall|i: int| 0 <= i < capped_replies(kids, depth, max_depth, budget).0.len()
            ==> well_shaped(#[trigger] capped_replies(kids, depth, max_depth, budget).0[i], depth, max_depth),
    decreases kids,
{
    if kids.len() > 0 && budget > 0 {
        let tail = kids.subrange(1, kids.len() as int);
        lemma_capped_comment_shape(kids[0].data, depth, max_depth, budget);
        let (head, after) = if is_comment_kind(kids[0].kind@) {
            match capped_comment(kids[0].data, depth, max_depth, budget) {
                (Some(c), left) => (seq![c], left),
                (None, left) => (Seq::<CommentView>::empty(), left),
            }
        } else {
            (Seq::<CommentView>::empty(), budget)
        };
        lemma_capped_replies_shape(tail, depth, max_depth, after);
        let rest = capped_replies(tail, depth, max_depth, after).0;
        let all = capped_replies(kids, depth, max_depth, budget).0;
        assert(all == head + rest);
        assert forall|i: int| 0 <= i < all.len() implies well_shaped(#[trigger] all[i], depth, max_depth) by {
            if i < head.len() {
                assert(all[i] == head[i]);
            } else {
                assert(all[i] == rest[i - head.len()]);
            }
        }
    }
}

/// The thread shown by the comments command is shaped like any shown
/// thread: each top-level comment sits at depth 0 and every reply one level
/// below its parent, never deeper than `max_depth`, and a reply list is never
/// shown empty.
pub proof fn lemma_capped_thread_shape(kids: Seq<Thing<RawComment>>, max_depth: u32, limit: nat)
    ensures
        forall|i: int| 0 <= i < capped_replies(kids, 0, max_depth, limit).0.len()
            ==> well_shaped(#[trigger] capped_replies(kids, 0, max_depth, limit).0[i], 0, max_depth),
{
    lemma_capped_replies_shape(kids, 0, max_depth, limit);
}

fn cap_comment(raw: &RawComment, depth: u32, max_depth: u32, budget: &mut u32) -> (r: Option<
    FormattedComment,
>)
    ensures
        (opt_comment_view(r), *final(budget) as nat) == capped_comment(
            *raw,
            depth,
            max_depth,
            *old(budget) as nat,
        ),
    decreases *raw,
{
    if *budget == 0 {
        return None;
    }
    match &raw.author {
        None => None,
        Some(author) => {
            *budget = *budget - 1;
            let mut replies: Option<Vec<FormattedComment>> = None;
            if depth < max_depth {
                match &raw.replies {
                    Some(listing) => {
                        let shown = cap_replies(listing.data.children.as_slice(), depth + 1, max_depth, budget);
                        if shown.len() > 0 {
                            replies = Some(shown);
                        }
                    },
                    None => {},
                }
            }
            let c = FormattedComment {
                id: text_or_empty_exec(&raw.id),
                author: author.clone(),
                body: text_or_empty_exec(&raw.body),
                score: match raw.score {
                    Some(s) => s,
                    None => 0,
                },
                created_utc: match raw.created_utc {
                    Some(t) => t,
                    None => 0,
                },
                depth: depth,
                replies: replies,
            };
            Some(c)
        },
    }
}

fn cap_replies(kids: &[Thing<RawComment>], depth: u32, max_depth: u32, budget: &mut u32) -> (r: Vec<
    FormattedComment,
>)
    ensures
        (comments_view(r@), *final(budget) as nat) == capped_replies(
            kids@,
            depth,
            max_depth,
            *old(budget) as nat,
        ),
    decreases kids@,
{
    let ghost start = *budget;
    let mut out: Vec<FormattedComment> = Vec::new();
    let mut i: usize = 0;
    let n = kids.len();
    assert(kids@.subrange(0, n as int) =~= kids@);
    assert(comments_view(out@) + capped_replies(kids@, depth, max_depth, start as nat).0
        =~= capped_replies(kids@, depth, max_depth, start as nat).0);
    while i < n && *budget > 0
        invariant
            i <= n,
            n == kids@.len(),
            (comments_view(out@) + capped_replies(
                kids@.subrange(i as int, n as int),
                depth,
                max_depth,
                *budget as nat,
            ).0, capped_replies(kids@.subrange(i as int, n as int), depth, max_depth, *budget as nat).1)
                == capped_replies(kids@, depth, max_depth, start as nat),
        decreases n - i,
    {
        let ghost rest = kids@.subrange(i as int, n as int);
        let ghost b = *budget as nat;
        assert(rest.subrange(1, rest.len() as int) =~= kids@.subrange(i + 1, n as int));
        assert(rest[0] == kids@[i as int]);
        let ghost before = out@;
        if is_comment_kind_exec(&kids[i].kind) {
            match cap_comment(&kids[i].data, depth, max_depth, budget) {
                Some(c) => {
                    out.push(c);
                    proof { lemma_comments_view_push(before, c); }
                },
                None => {},
            }
        }
        let ghost tail = capped_replies(kids@.subrange(i + 1, n as int), depth, max_depth, *budget as nat);
        let ghost head: Seq<CommentView> = if is_comment_kind(rest[0].kind@) {
            match capped_comment(rest[0].data, depth, max_depth, b).0 {
                Some(c) => seq![c],
                None => seq![],
            }
        } else {
            seq![]
        };
        assert(comments_view(out@) =~= comments_view(before) + head);
        assert(capped_replies(rest, depth, max_depth, b).0 == head + tail.0);
        assert(comments_view(before) + (head + tail.0) =~= comments_view(out@) + tail.0);
        i = i + 1;
    }
    assert(capped_replies(kids@.subrange(i as int, n as int), depth, max_depth, *budget as nat).0
        =~= Seq::<CommentView>::empty());
    assert(comments_view(out@) + Seq::<CommentView>::empty() =~= comments_view(out@));
    out
}

/// Builds the comment tree shown by the comments command: at most `limit`
/// comments in all, counting replies at every depth, taken depth first, with
/// replies nested down to depth `max_depth`.
pub fn build_capped_comment_tree(children: &[Thing<RawComment>], max_depth: u32, limit: u32) -> (r: Vec<
    FormattedComment,
>)
    ensures
        comments_view(r@) == capped_replies(children@, 0, max_depth, limit as nat).0,
        comments_count(comments_view(r@)) <= limit,
{
    let mut budget: u32 = limit;
    let r = cap_replies(children, 0, max_depth, &mut budget);
    proof { lemma_capped_thread_within_limit(children@, max_depth, limit as nat); }
    r
}

} // verus!

verus! {

/// The self-text shown for a post: none when absent or empty.
pub open spec fn shown_selftext(s: Option<String>) -> Option<String> {
    match s {
        Some(t) => if t@.len() > 0 { Some(t) } else { None },
        None => None,
    }
}

/// The address of a post's page, from the site-relative permalink.
pub open spec fn permalink_url(permalink: Seq<char>) -> Seq<char> {
    "https://reddit.com"@ + permalink
}

impl Default for RawPost {
    fn default() -> (r: Self)
        ensures
            r.id@.len() == 0 && r.title@.len() == 0 && r.author@.len() == 0,
            r.subreddit@.len() == 0 && r.url@.len() == 0 && r.permalink@.len() == 0,
            r.score == 0 && r.upvote_percent == 0 && r.num_comments == 0 && r.created_utc == 0,
            r.selftext is None && !r.is_self,
    {
        RawPost {
            id: String::new(),
            title: String::new(),
            author: String::new(),
            subreddit: String::new(),
            score: 0,
            upvote_percent: 0,
            num_comments: 0,
            created_utc: 0,
            url: String::new(),
            selftext: None,
            is_self: false,
            permalink: String::new(),
        }
    }
}

impl Default for RawUserComment {
    fn default() -> (r: Self)
        ensures
            r.id@.len() == 0 && r.body@.len() == 0 && r.subreddit@.len() == 0,
            r.link_title@.len() == 0 && r.score == 0 && r.created_utc == 0,
    {
        RawUserComment {
            id: String::new(),
            body: String::new(),
            score: 0,
            subreddit: String::new(),
            created_utc: 0,
            link_title: String::new(),
        }
    }
}

/// `f` is how the raw post `raw` is shown: every field carried over, except
/// that an empty self-text counts as none and the permalink becomes a full
/// address.
pub open spec fn formatted_from(raw: RawPost, f: FormattedPost) -> bool {
    &&& f.id == raw.id && f.title == raw.title && f.author == raw.author
    &&& f.subreddit == raw.subreddit && f.url == raw.url
    &&& f.score == raw.score && f.upvote_percent == raw.upvote_percent
    &&& f.num_comments == raw.num_comments && f.created_utc == raw.created_utc
    &&& f.is_self == raw.is_self
    &&& f.selftext == shown_selftext(raw.selftext)
    &&& f.permalink@ == permalink_url(raw.permalink@)
}

/// `c` is how the raw history comment `raw` is shown: field for field.
pub open spec fn user_comment_from(raw: RawUserComment, c: UserComment) -> bool {
    &&& c.id == raw.id && c.body == raw.body && c.score == raw.score
    &&& c.subreddit == raw.subreddit && c.created_utc == raw.created_utc
    &&& c.link_title == raw.link_title
}

impl FormattedPost {
    /// A post ready to be shown: an empty self-text counts as none, and the
    /// permalink becomes a full address.
    pub fn from_raw(raw: RawPost) -> (r: FormattedPost)
        ensures
            formatted_from(raw, r),
    {
        let selftext = match raw.selftext {
            Some(t) => if t.as_str().is_empty() { None } else { Some(t) },
            None => None,
        };
        let mut permalink = String::from_str("https://reddit.com");
        push_str(&mut permalink, raw.permalink.as_str());
        FormattedPost {
            id: raw.id,
            title: raw.title,
            author: raw.author,
            subreddit: raw.subreddit,
            score: raw.score,
            upvote_percent: raw.upvote_percent,
            num_comments: raw.num_comments,
            created_utc: raw.created_utc,
            url: raw.url,
            selftext,
            is_self: raw.is_self,
            permalink,
        }
    }
}

impl FormattedUser {
    /// A profile ready to be shown, field for field.
    pub fn from_raw(raw: RawUser) -> (r: FormattedUser)
        ensures
            r.name == raw.name && r.created_utc == raw.created_utc,
            r.link_karma == raw.link_karma && r.comment_karma == raw.comment_karma,
            r.is_gold == raw.is_gold && r.is_mod == raw.is_mod && r.verified == raw.verified,
    {
        FormattedUser {
            name: raw.name,
            created_utc: raw.created_utc,
            link_karma: raw.link_karma,
            comment_karma: raw.comment_karma,
            is_gold: raw.is_gold,
            is_mod: raw.is_mod,
            verified: raw.verified,
        }
    }
}

impl UserComment {
    /// A history comment ready to be shown, field for field.
    pub fn from_raw(raw: RawUserComment) -> (r: UserComment)
        ensures
            user_comment_from(raw, r),
    {
        UserComment {
            id: raw.id,
            body: raw.body,
            score: raw.score,
            subreddit: raw.subreddit,
            created_utc: raw.created_utc,
            link_title: raw.link_title,
        }
    }
}

} // verus!

verus! {

/// An item of a listing that is shown as a comment: of kind `t1`, with an
/// author.
pub open spec fn is_shown_item(t: Thing<RawComment>) -> bool {
    is_comment_kind(t.kind@) && t.data.author is Some
}

/// The test for items shown as comments, as a predicate.
pub open spec fn shown_item_pred() -> spec_fn(Thing<RawComment>) -> bool {
    |t: Thing<RawComment>| is_shown_item(t)
}

/// The items of a listing that are shown as comments, in order.
pub open spec fn reply_items(kids: Seq<Thing<RawComment>>) -> Seq<Thing<RawComment>> {
    kids.filter(shown_item_pred())
}

proof fn lemma_filter_first<A>(s: Seq<A>, p: spec_fn(A) -> bool)
    requires
        s.len() > 0,
    ensures
        s.filter(p) == (if p(s[0]) { seq![s[0]] } else { Seq::<A>::empty() }) + s.subrange(1, s.len() as int).filter(p),
{
    let tail = s.subrange(1, s.len() as int);
    assert(s =~= seq![s[0]] + tail);
    Seq::filter_distributes_over_add(seq![s[0]], tail, p);
    reveal_with_fuel(Seq::filter, 2);
    assert(seq![s[0]].drop_last() =~= Seq::<A>::empty());
    assert(Seq::<A>::empty().filter(p) =~= Seq::<A>::empty());
    assert(seq![s[0]].filter(p) =~= (if p(s[0]) { seq![s[0]] } else { Seq::<A>::empty() }));
}

/// The replies shown at a level are exactly the items of kind `t1` that have
/// an author, in their order, each shown as a comment at that level: one
/// shown reply per such item, none dropped and none added.
pub proof fn lemma_shown_replies_are_reply_items(kids: Seq<Thing<RawComment>>, depth: u32, max_depth: u32)
    ensures
        shown_replies(kids, depth, max_depth).len() == reply_items(kids).len(),
        forall|i: int| 0 <= i < shown_replies(kids, depth, max_depth).len()
            ==> shown_comment(reply_items(kids)[i].data, depth, max_depth)
                == Some(#[trigger] shown_replies(kids, depth, max_depth)[i]),
    decreases kids.len(),
{
    if kids.len() > 0 {
        let tail = kids.subrange(1, kids.len() as int);
        lemma_filter_first(kids, shown_item_pred());
        lemma_shown_replies_are_reply_items(tail, depth, max_depth);
        let all = shown_replies(kids, depth, max_depth);
        let rest = shown_replies(tail, depth, max_depth);
        let items = reply_items(kids);
        let rest_items = reply_items(tail);
        if is_shown_item(kids[0]) {
            let c = shown_comment(kids[0].data, depth, max_depth)->0;
            assert(all == seq![c] + rest);
            assert(items == seq![kids[0]] + rest_items);
            assert forall|i: int| 0 <= i < all.len() implies shown_comment(items[i].data, depth, max_depth)
                == Some(#[trigger] all[i]) by {
                if i > 0 {
                    assert(all[i] == rest[i - 1]);
                    assert(items[i] == rest_items[i - 1]);
                }
            }
        } else {
            assert(all =~= rest);
            assert(items =~= rest_items);
        }
    } else {
        assert(reply_items(kids) =~= Seq::<Thing<RawComment>>::empty());
    }
}

/// A comment is shown exactly when it has an author, and then with the raw
/// comment's id, author, body, score and time (empty or zero when absent),
/// at the level it is asked for; below `max_depth` its replies are shown
/// when some reply item is of kind `t1` with an author, one level deeper.
pub proof fn lemma_shown_comment_fields(raw: RawComment, depth: u32, max_depth: u32)
    ensures
        shown_comment(raw, depth, max_depth) is Some <==> raw.author is Some,
        shown_comment(raw, depth, max_depth) matches Some(c) ==> {
            &&& c.id == (match raw.id { Some(s) => s@, None => Seq::<char>::empty() })
            &&& (raw.author matches Some(a) && c.author == a@)
            &&& c.body == (match raw.body { Some(s) => s@, None => Seq::<char>::empty() })
            &&& c.score == (match raw.score { Some(s) => s, None => 0i64 })
            &&& c.created_utc == (match raw.created_utc { Some(t) => t, None => 0i64 })
            &&& c.depth == depth
            &&& c.replies == (if depth < max_depth && raw.replies is Some && reply_items(
                raw.replies->0.data.children@,
            ).len() > 0 {
                Some(shown_replies(raw.replies->0.data.children@, (depth + 1) as u32, max_depth))
            } else {
                None
            })
        },
{
    if raw.author is Some && depth < max_depth && raw.replies is Some {
        lemma_shown_replies_are_reply_items(raw.replies->0.data.children@, (depth + 1) as u32, max_depth);
    }
}

/// A comment of the capped tree is shown exactly when the budget is not
/// spent and it has an author, and then with the raw comment's id, author,
/// body, score and time (empty or zero when absent), at the level it is
/// asked for; it takes one from the budget before its replies are shown.
pub proof fn lemma_capped_comment_fields(raw: RawComment, depth: u32, max_depth: u32, budget: nat)
    ensures
        capped_comment(raw, depth, max_depth, budget).0 is Some <==> budget > 0 && raw.author is Some,
        capped_comment(raw, depth, max_depth, budget).0 is None ==> capped_comment(raw, depth, max_depth, budget).1
            == budget,
        capped_comment(raw, depth, max_depth, budget).0 matches Some(c) ==> {
            &&& c.id == (match raw.id { Some(s) => s@, None => Seq::<char>::empty() })
            &&& (raw.author matches Some(a) && c.author == a@)
            &&& c.body == (match raw.body { Some(s) => s@, None => Seq::<char>::empty() })
            &&& c.score == (match raw.score { Some(s) => s, None => 0i64 })
            &&& c.created_utc == (match raw.created_utc { Some(t) => t, None => 0i64 })
            &&& c.depth == depth
            &&& (depth >= max_depth || raw.replies is None ==> c.replies is None)
        },
{
}

proof fn lemma_count_positive(cs: Seq<CommentView>)
    ensures
        cs.len() > 0 ==> comments_count(cs) >= 1,
        cs.len() == 0 ==> comments_count(cs) == 0,
{
    if cs.len() > 0 {
        assert(comment_count(cs[0]) >= 1);
    }
}

/// With budget enough for a comment and all its shown replies, the capped
/// comment is the comment shown without a cap, and takes that many from the
/// budget.
proof fn lemma_capped_comment_unlimited(raw: RawComment, depth: u32, max_depth: u32, budget: nat)
    requires
        shown_comment(raw, depth, max_depth) matches Some(c) ==> comment_count(c) <= budget,
    ensures
        capped_comment(raw, depth, max_depth, budget) == (match shown_comment(raw, depth, max_depth) {
            Some(c) => (Some(c), (budget - comment_count(c)) as nat),
            None => (None, budget),
        }),
    decreases raw,
{
    if raw.author is Some {
        let c = shown_comment(raw, depth, max_depth)->0;
        if depth < max_depth && raw.replies is Some {
            let kids = raw.replies->0.data.children@;
            let shown = shown_replies(kids, (depth + 1) as u32, max_depth);
            lemma_count_positive(shown);
            lemma_capped_replies_unlimited(kids, (depth + 1) as u32, max_depth, (budget - 1) as nat);
        }
    }
}

/// With budget enough for every comment shown among `kids`, replies
/// included, nothing is cut: the capped comments are the comments shown
/// without a cap, and the budget left is what they did not take.
pub proof fn lemma_capped_replies_unlimited(kids: Seq<Thing<RawComment>>, depth: u32, max_depth: u32, budget: nat)
    requires
        comments_count(shown_replies(kids, depth, max_depth)) <= budget,
    ensures
        capped_replies(kids, depth, max_depth, budget) == (
            shown_replies(kids, depth, max_depth),
            (budget - comments_count(shown_replies(kids, depth, max_depth))) as nat,
        ),
    decreases kids,
{
    let all = shown_replies(kids, depth, max_depth);
    if kids.len() == 0 {
        lemma_count_positive(all);
    } else if budget == 0 {
        lemma_count_positive(all);
        assert(all =~= Seq::<CommentView>::empty());
    } else {
        let tail = kids.subrange(1, kids.len() as int);
        let rest = shown_replies(tail, depth, max_depth);
        if is_comment_kind(kids[0].kind@) {
            match shown_comment(kids[0].data, depth, max_depth) {
                Some(c) => {
                    lemma_count_prepend(c, rest);
                    assert(all == seq![c] + rest);
                    lemma_capped_comment_unlimited(kids[0].data, depth, max_depth, budget);
                    lemma_capped_replies_unlimited(tail, depth, max_depth, (budget - comment_count(c)) as nat);
                },
                None => {
                    assert(all =~= rest);
                    lemma_capped_comment_unlimited(kids[0].data, depth, max_depth, budget);
                    lemma_capped_replies_unlimited(tail, depth, max_depth, budget);
                },
            }
        } else {
            assert(all =~= rest);
            lemma_capped_replies_unlimited(tail, depth, max_depth, budget);
        }
    }
}

/// When the limit is at least the number of comments the thread shows in
/// all, the comments command shows the whole thread: the capped tree is the
/// uncapped one.
pub proof fn lemma_capped_thread_complete(kids: Seq<Thing<RawComment>>, max_depth: u32, limit: nat)
    requires
        comments_count(shown_replies(kids, 0, max_depth)) <= limit,
    ensures
        capped_replies(kids, 0, max_depth, limit).0 == shown_replies(kids, 0, max_depth),
{
    lemma_capped_replies_unlimited(kids, 0, max_depth, limit);
}

/// The test for items of kind `t1`, as a predicate.
pub open spec fn comment_kind_pred() -> spec_fn(Thing<RawComment>) -> bool {
    |t: Thing<RawComment>| is_comment_kind(t.kind@)
}

proof fn lemma_shown_replies_prepend(x: Thing<RawComment>, rest: Seq<Thing<RawComment>>, depth: u32, max_depth: u32)
    ensures
        shown_replies(seq![x] + rest, depth, max_depth) == (if is_comment_kind(x.kind@) {
            match shown_comment(x.data, depth, max_depth) {
                Some(c) => seq![c],
                None => Seq::<CommentView>::empty(),
            }
        } else {
            Seq::<CommentView>::empty()
        }) + shown_replies(rest, depth, max_depth),
{
    let all = seq![x] + rest;
    assert(all[0] == x);
    assert(all.subrange(1, all.len() as int) =~= rest);
}

/// The top-level comments shown for a post are those among the first
/// `limit` items of kind `t1` (fewer when there are fewer) that have an
/// author, in order, each shown at depth 0.
pub proof fn lemma_thread_is_first_comments(kids: Seq<Thing<RawComment>>, max_depth: u32, limit: nat)
    ensures
        shown_thread(kids, max_depth, limit) == shown_replies(
            kids.filter(comment_kind_pred()).take(
                if limit < kids.filter(comment_kind_pred()).len() { limit as int } else {
                    kids.filter(comment_kind_pred()).len() as int
                },
            ),
            0,
            max_depth,
        ),
    decreases kids.len(),
{
    let f = kids.filter(comment_kind_pred());
    let n: int = if limit < f.len() { limit as int } else { f.len() as int };
    if kids.len() == 0 {
        reveal_with_fuel(Seq::filter, 1);
        assert(f.take(n) =~= Seq::<Thing<RawComment>>::empty());
    } else {
        let tail = kids.subrange(1, kids.len() as int);
        lemma_filter_first(kids, comment_kind_pred());
        let ft = tail.filter(comment_kind_pred());
        if limit == 0 {
            assert(f.take(n) =~= Seq::<Thing<RawComment>>::empty());
        } else if is_comment_kind(kids[0].kind@) {
            lemma_thread_is_first_comments(tail, max_depth, (limit - 1) as nat);
            let nt: int = if (limit - 1) < ft.len() { (limit - 1) as int } else { ft.len() as int };
            assert(f == seq![kids[0]] + ft);
            assert(f.take(n) =~= seq![kids[0]] + ft.take(nt));
            lemma_shown_replies_prepend(kids[0], ft.take(nt), 0, max_depth);
        } else {
            lemma_thread_is_first_comments(tail, max_depth, limit);
            assert(f =~= ft);
        }
    }
}

proof fn lemma_capped_comment_left(raw: RawComment, depth: u32, max_depth: u32, budget: nat)
    ensures
        capped_comment(raw, depth, max_depth, budget).1 > 0 ==> capped_comment(raw, depth, max_depth, budget).0
            == shown_comment(raw, depth, max_depth),
    decreases raw,
{
    lemma_capped_comment_count(raw, depth, max_depth, budget);
    if budget > 0 && raw.author is Some && depth < max_depth && raw.replies is Some {
        let kids = raw.replies->0.data.children@;
        lemma_capped_replies_left(kids, (depth + 1) as u32, max_depth, (budget - 1) as nat);
    }
}

proof fn lemma_capped_replies_left(kids: Seq<Thing<RawComment>>, depth: u32, max_depth: u32, budget: nat)
    ensures
        capped_replies(kids, depth, max_depth, budget).1 > 0 ==> capped_replies(kids, depth, max_depth, budget).0
            == shown_replies(kids, depth, max_depth),
    decreases kids,
{
    if kids.len() > 0 && budget > 0 {
        let tail = kids.subrange(1, kids.len() as int);
        lemma_capped_comment_left(kids[0].data, depth, max_depth, budget);
        let after: nat = if is_comment_kind(kids[0].kind@) {
            capped_comment(kids[0].data, depth, max_depth, budget).1
        } else {
            budget
        };
        lemma_capped_replies_left(tail, depth, max_depth, after);
        lemma_capped_replies_count(tail, depth, max_depth, after);
    }
}

/// The comments command shows as many comments as the limit allows: the
/// number shown in all is the smaller of the limit and the number the
/// thread shows without a cap. When comments are left out, the limit is
/// used up; when the limit is not used up, the whole thread is shown.
pub proof fn lemma_capped_thread_count(kids: Seq<Thing<RawComment>>, max_depth: u32, limit: nat)
    ensures
        comments_count(capped_replies(kids, 0, max_depth, limit).0) == (if limit < comments_count(
            shown_replies(kids, 0, max_depth),
        ) {
            limit
        } else {
            comments_count(shown_replies(kids, 0, max_depth))
        }),
        capped_replies(kids, 0, max_depth, limit).1 > 0 ==> capped_replies(kids, 0, max_depth, limit).0
            == shown_replies(kids, 0, max_depth),
{
    lemma_capped_replies_count(kids, 0, max_depth, limit);
    lemma_capped_replies_left(kids, 0, max_depth, limit);
    if comments_count(shown_replies(kids, 0, max_depth)) <= limit {
        lemma_capped_replies_unlimited(kids, 0, max_depth, limit);
    }
}

} // verus!
