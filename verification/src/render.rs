use vstd::prelude::*;
use crate::format::{format_number, number_text, three_digits, with_commas};
use crate::models::{
    comment_view, comments_view, CommentView, FormattedComment, FormattedPost, FormattedUser,
    UserComment,
};
use crate::sanitize::{is_kept, lemma_sanitized_is_clean, sanitize, sanitized};
use crate::text::{decimal, digit_char, lines_of, push_decimal, push_str, split_lines};

verus! {

/// How a piece of output is drawn on the terminal.
#[derive(Clone, Copy, Debug)]
pub enum Style {
    Plain,
    Bold,
    Dimmed,
    Cyan,
    Yellow,
    Green,
    Blue,
}

/// A piece of output: fixed text; how long ago a Unix time was, with the
/// word "ago" (worked out by `format_time_ago` when the output is drawn); or
/// the age of an account created at a Unix time, without it (worked out by
/// `format_account_age`).
pub enum Piece {
    Text(String),
    TimeAgo(i64),
    Age(i64),
}

/// A styled piece of a line of output.
pub struct Segment {
    pub piece: Piece,
    pub style: Style,
}

/// The plain content of a piece.
pub enum PieceView {
    Text(Seq<char>),
    TimeAgo(i64),
    Age(i64),
}

/// The plain content of a styled piece.
pub struct SegmentView {
    pub piece: PieceView,
    pub style: Style,
}

impl View for Segment {
    type V = SegmentView;

    open spec fn view(&self) -> SegmentView {
        SegmentView {
            piece: match self.piece {
                Piece::Text(s) => PieceView::Text(s@),
                Piece::TimeAgo(t) => PieceView::TimeAgo(t),
                Piece::Age(t) => PieceView::Age(t),
            },
            style: self.style,
        }
    }
}

/// The plain content of a line.
pub open spec fn line_view(l: Vec<Segment>) -> Seq<SegmentView> {
    l@.map_values(|s: Segment| s@)
}

/// The plain content of lines of output.
pub open spec fn doc_view(d: Seq<Vec<Segment>>) -> Seq<Seq<SegmentView>> {
    d.map_values(|l: Vec<Segment>| line_view(l))
}

pub open spec fn text(t: Seq<char>, style: Style) -> SegmentView {
    SegmentView { piece: PieceView::Text(t), style: style }
}

pub open spec fn time(t: i64, style: Style) -> SegmentView {
    SegmentView { piece: PieceView::TimeAgo(t), style: style }
}

pub open spec fn age(t: i64, style: Style) -> SegmentView {
    SegmentView { piece: PieceView::Age(t), style: style }
}

/// The indentation of a comment at `depth`: two spaces per level.
pub open spec fn indent(depth: nat) -> Seq<char> {
    Seq::new(2 * depth, |i: int| ' ')
}

/// The details line of a post: subreddit, author, score, upvote percentage,
/// comment count and age.
pub open spec fn post_meta(p: FormattedPost) -> Seq<SegmentView> {
    seq![
        text("r/"@ + sanitized(p.subreddit@), Style::Cyan),
        text(" | "@, Style::Plain),
        text("u/"@ + sanitized(p.author@), Style::Yellow),
        text(" | "@, Style::Plain),
        text(number_text(p.score as int), Style::Green),
        text(" pts ("@ + decimal(p.upvote_percent as nat) + "%) | "@ + number_text(p.num_comments as int)
            + " comments | "@, Style::Plain),
        time(p.created_utc, Style::Dimmed),
    ]
}

/// The lines of the post at index `i` in a list of `count` posts: numbered
/// title, indented details, indented link, and a blank line between posts.
pub open spec fn post_entry(p: FormattedPost, i: int, count: int) -> Seq<Seq<SegmentView>> {
    let lines = seq![
        seq![
            text("["@ + decimal((i + 1) as nat) + "]"@, Style::Dimmed),
            text(" "@, Style::Plain),
            text(sanitized(p.title@), Style::Bold),
        ],
        seq![text("    "@, Style::Plain)] + post_meta(p),
        seq![text("    "@, Style::Plain), text(sanitized(p.permalink@), Style::Blue)],
    ];
    if i < count - 1 {
        lines.push(seq![])
    } else {
        lines
    }
}

/// The lines of the posts from index `i` on.
pub open spec fn post_entries(posts: Seq<FormattedPost>, i: int) -> Seq<Seq<SegmentView>>
    decreases posts.len() - i,
{
    if i < 0 || i >= posts.len() {
        seq![]
    } else {
        post_entry(posts[i], i, posts.len() as int) + post_entries(posts, i + 1)
    }
}

/// A list of posts, or a note that there are none.
pub open spec fn posts_list_doc(posts: Seq<FormattedPost>) -> Seq<Seq<SegmentView>> {
    if posts.len() == 0 {
        seq![seq![text("No posts found."@, Style::Dimmed)]]
    } else {
        post_entries(posts, 0)
    }
}

/// The first line of a comment: indentation, author, score and age.
pub open spec fn comment_header(c: CommentView) -> Seq<SegmentView> {
    seq![
        text(indent(c.depth as nat), Style::Plain),
        text("u/"@ + sanitized(c.author), Style::Yellow),
        text(" | "@, Style::Plain),
        text(number_text(c.score as int) + " pts"@, Style::Green),
        text(" | "@, Style::Plain),
        time(c.created_utc, Style::Dimmed),
    ]
}

/// The lines of a body of text, each sanitized and put after `prefix`.
pub open spec fn body_doc(prefix: Seq<char>, body: Seq<char>) -> Seq<Seq<SegmentView>> {
    lines_of(body).map_values(|l: Seq<char>| seq![text(prefix + sanitized(l), Style::Plain)])
}

/// A comment: its header, its indented body, a blank line, then its replies.
pub open spec fn comment_doc(c: CommentView) -> Seq<Seq<SegmentView>>
    decreases c,
{
    seq![comment_header(c)] + body_doc(indent(c.depth as nat), c.body) + seq![seq![]] + match c.replies {
        Some(rs) => thread_doc(rs),
        None => seq![],
    }
}

/// Comments one after the other, each with its replies.
pub open spec fn thread_doc(cs: Seq<CommentView>) -> Seq<Seq<SegmentView>>
    decreases cs,
{
    if cs.len() == 0 {
        seq![]
    } else {
        thread_doc(cs.drop_last()) + comment_doc(cs.last())
    }
}

/// The comments of a thread, or a note that there are none.
pub open spec fn comments_doc(cs: Seq<CommentView>) -> Seq<Seq<SegmentView>> {
    if cs.len() == 0 {
        seq![seq![text("No comments found."@, Style::Dimmed)]]
    } else {
        thread_doc(cs)
    }
}

/// A post in full: title, details, link, its self-text when it has one, and
/// its comments under a heading when there are any.
pub open spec fn post_detail_doc(p: FormattedPost, comments: Seq<CommentView>) -> Seq<Seq<SegmentView>> {
    seq![
        seq![text(sanitized(p.title@), Style::Bold)],
        post_meta(p),
        seq![text(sanitized(p.permalink@), Style::Blue)],
    ] + match p.selftext {
        Some(t) => seq![seq![], seq![text(sanitized(t@), Style::Plain)]],
        None => seq![],
    } + if comments.len() > 0 {
        seq![seq![], seq![text("--- Comments ---"@, Style::Bold)], seq![]] + thread_doc(comments)
    } else {
        seq![]
    }
}

/// A comment from a user's history: where and when, the title of the post it
/// answers, its indented body, and a blank line.
pub open spec fn user_comment_entry(c: UserComment) -> Seq<Seq<SegmentView>> {
    seq![
        seq![
            text("in "@, Style::Plain),
            text("r/"@ + sanitized(c.subreddit@), Style::Cyan),
            text(" | "@, Style::Plain),
            text(number_text(c.score as int) + " pts"@, Style::Green),
            text(" | "@, Style::Plain),
            time(c.created_utc, Style::Dimmed),
        ],
        seq![text("  Re: "@, Style::Plain), text(sanitized(c.link_title@), Style::Dimmed)],
    ] + body_doc("  "@, c.body@) + seq![seq![]]
}

/// Comments from a user's history, from index `i` on.
pub open spec fn user_comment_entries(cs: Seq<UserComment>, i: int) -> Seq<Seq<SegmentView>>
    decreases cs.len() - i,
{
    if i < 0 || i >= cs.len() {
        seq![]
    } else {
        user_comment_entry(cs[i]) + user_comment_entries(cs, i + 1)
    }
}

/// A user profile: name, account age and karma, then the recent posts and
/// the recent comments when they were asked for, each under a heading.
pub open spec fn user_doc(
    u: FormattedUser,
    posts: Option<Seq<FormattedPost>>,
    comments: Option<Seq<UserComment>>,
) -> Seq<Seq<SegmentView>> {
    seq![
        seq![text("u/"@ + sanitized(u.name@), Style::Bold)],
        seq![
            text("Account age: "@, Style::Plain),
            age(u.created_utc, Style::Plain),
            text(" | Link karma: "@, Style::Plain),
            text(number_text(u.link_karma as int), Style::Green),
            text(" | Comment karma: "@, Style::Plain),
            text(number_text(u.comment_karma as int), Style::Green),
        ],
    ] + match posts {
        Some(ps) => seq![seq![], seq![text("--- Recent Posts ---"@, Style::Bold)], seq![]]
            + posts_list_doc(ps),
        None => seq![],
    } + match comments {
        Some(cs) => seq![seq![], seq![text("--- Recent Comments ---"@, Style::Bold)], seq![]]
            + user_comment_entries(cs, 0),
        None => seq![],
    }
}

} // verus!

verus! {

fn text_seg(s: String, style: Style) -> (r: Segment)
    ensures
        r@ == text(s@, style),
{
    Segment { piece: Piece::Text(s), style: style }
}

fn lit_seg(s: &str, style: Style) -> (r: Segment)
    ensures
        r@ == text(s@, style),
{
    text_seg(String::from_str(s), style)
}

fn time_seg(t: i64, style: Style) -> (r: Segment)
    ensures
        r@ == time(t, style),
{
    Segment { piece: Piece::TimeAgo(t), style: style }
}

fn age_seg(t: i64, style: Style) -> (r: Segment)
    ensures
        r@ == age(t, style),
{
    Segment { piece: Piece::Age(t), style: style }
}

/// `prefix` followed by the sanitized form of `s`.
fn prefixed_sanitized(prefix: &str, s: &str) -> (r: String)
    ensures
        r@ == prefix@ + sanitized(s@),
{
    let mut out = String::from_str(prefix);
    let clean = sanitize(s);
    push_str(&mut out, clean.as_str());
    out
}

fn push_seg(line: &mut Vec<Segment>, s: Segment)
    ensures
        line_view(*final(line)) == line_view(*old(line)).push(s@),
{
    let ghost before = *line;
    line.push(s);
    assert(line_view(*line) =~= line_view(before).push(s@));
}

fn push_line(doc: &mut Vec<Vec<Segment>>, line: Vec<Segment>)
    ensures
        doc_view(final(doc)@) == doc_view(old(doc)@).push(line_view(line)),
{
    let ghost before = doc@;
    doc.push(line);
    assert(doc_view(doc@) =~= doc_view(before).push(line_view(line)));
}

fn push_blank(doc: &mut Vec<Vec<Segment>>)
    ensures
        doc_view(final(doc)@) == doc_view(old(doc)@).push(seq![]),
{
    let line: Vec<Segment> = Vec::new();
    assert(line_view(line) =~= Seq::<SegmentView>::empty());
    push_line(doc, line);
}

fn push_single(doc: &mut Vec<Vec<Segment>>, s: Segment)
    ensures
        doc_view(final(doc)@) == doc_view(old(doc)@).push(seq![s@]),
{
    let mut line: Vec<Segment> = Vec::new();
    assert(line_view(line) =~= Seq::<SegmentView>::empty());
    push_seg(&mut line, s);
    assert(line_view(line) =~= seq![s@]);
    push_line(doc, line);
}

fn push_post_meta(line: &mut Vec<Segment>, p: &FormattedPost)
    ensures
        line_view(*final(line)) == line_view(*old(line)) + post_meta(*p),
{
    let ghost start = line_view(*line);
    push_seg(line, text_seg(prefixed_sanitized("r/", p.subreddit.as_str()), Style::Cyan));
    push_seg(line, lit_seg(" | ", Style::Plain));
    push_seg(line, text_seg(prefixed_sanitized("u/", p.author.as_str()), Style::Yellow));
    push_seg(line, lit_seg(" | ", Style::Plain));
    push_seg(line, text_seg(format_number(p.score), Style::Green));
    let mut stats = String::from_str(" pts (");
    push_decimal(&mut stats, p.upvote_percent as u64);
    push_str(&mut stats, "%) | ");
    let comments = format_number(p.num_comments);
    push_str(&mut stats, comments.as_str());
    push_str(&mut stats, " comments | ");
    push_seg(line, text_seg(stats, Style::Plain));
    push_seg(line, time_seg(p.created_utc, Style::Dimmed));
    assert(line_view(*line) =~= start + post_meta(*p));
}

fn push_post_entry(doc: &mut Vec<Vec<Segment>>, p: &FormattedPost, i: usize, count: usize)
    requires
        i < count,
    ensures
        doc_view(final(doc)@) == doc_view(old(doc)@) + post_entry(*p, i as int, count as int),
{
    let ghost start = doc_view(doc@);
    let mut number = String::from_str("[");
    push_decimal(&mut number, (i as u64) + 1);
    push_str(&mut number, "]");
    let mut title: Vec<Segment> = Vec::new();
    assert(line_view(title) =~= Seq::<SegmentView>::empty());
    push_seg(&mut title, text_seg(number, Style::Dimmed));
    push_seg(&mut title, lit_seg(" ", Style::Plain));
    push_seg(&mut title, text_seg(sanitize(p.title.as_str()), Style::Bold));
    assert(line_view(title) =~= seq![
        text("["@ + decimal((i + 1) as nat) + "]"@, Style::Dimmed),
        text(" "@, Style::Plain),
        text(sanitized(p.title@), Style::Bold),
    ]);
    push_line(doc, title);
    let mut meta: Vec<Segment> = Vec::new();
    assert(line_view(meta) =~= Seq::<SegmentView>::empty());
    push_seg(&mut meta, lit_seg("    ", Style::Plain));
    push_post_meta(&mut meta, p);
    assert(line_view(meta) =~= seq![text("    "@, Style::Plain)] + post_meta(*p));
    push_line(doc, meta);
    let mut link: Vec<Segment> = Vec::new();
    assert(line_view(link) =~= Seq::<SegmentView>::empty());
    push_seg(&mut link, lit_seg("    ", Style::Plain));
    push_seg(&mut link, text_seg(sanitize(p.permalink.as_str()), Style::Blue));
    assert(line_view(link) =~= seq![
        text("    "@, Style::Plain),
        text(sanitized(p.permalink@), Style::Blue),
    ]);
    push_line(doc, link);
    if i < count - 1 {
        push_blank(doc);
    }
    assert(doc_view(doc@) =~= start + post_entry(*p, i as int, count as int));
}

fn push_posts_list(doc: &mut Vec<Vec<Segment>>, posts: &[FormattedPost])
    ensures
        doc_view(final(doc)@) == doc_view(old(doc)@) + posts_list_doc(posts@),
{
    let ghost start = doc_view(doc@);
    if posts.len() == 0 {
        push_single(doc, lit_seg("No posts found.", Style::Dimmed));
        return;
    }
    let n = posts.len();
    let mut i: usize = 0;
    while i < n
        invariant
            i <= n,
            n == posts@.len(),
            doc_view(doc@) + post_entries(posts@, i as int) == start + post_entries(posts@, 0),
        decreases n - i,
    {
        let ghost before = doc_view(doc@);
        push_post_entry(doc, &posts[i], i, n);
        assert(before + post_entries(posts@, i as int) =~= doc_view(doc@) + post_entries(posts@, i + 1));
        i = i + 1;
    }
    assert(doc_view(doc@) + post_entries(posts@, n as int) =~= doc_view(doc@));
}

/// The output for a list of posts: each numbered, with its details and link,
/// or a note that there are none.
pub fn render_posts_list(posts: &[FormattedPost]) -> (r: Vec<Vec<Segment>>)
    ensures
        doc_view(r@) == posts_list_doc(posts@),
{
    let mut doc: Vec<Vec<Segment>> = Vec::new();
    assert(doc_view(doc@) =~= Seq::<Seq<SegmentView>>::empty());
    push_posts_list(&mut doc, posts);
    assert(doc_view(doc@) =~= posts_list_doc(posts@));
    doc
}

} // verus!

verus! {

fn indent_string(depth: u32) -> (r: String)
    ensures
        r@ == indent(depth as nat),
{
    let mut out = String::new();
    let mut k: u32 = 0;
    while k < depth
        invariant
            k <= depth,
            out@ == indent(k as nat),
        decreases depth - k,
    {
        push_str(&mut out, "  ");
        proof { reveal_strlit("  "); }
        assert(out@ =~= indent((k + 1) as nat));
        k = k + 1;
    }
    out
}

fn push_body(doc: &mut Vec<Vec<Segment>>, prefix: &str, body: &str)
    ensures
        doc_view(final(doc)@) == doc_view(old(doc)@) + body_doc(prefix@, body@),
{
    let ghost start = doc_view(doc@);
    let lines = split_lines(body);
    let n = lines.len();
    let mut i: usize = 0;
    while i < n
        invariant
            i <= n,
            n == lines@.len(),
            lines@.map_values(|l: String| l@) == lines_of(body@),
            doc_view(doc@) == start + Seq::new(
                i as nat,
                |k: int| seq![text(prefix@ + sanitized(lines@[k]@), Style::Plain)],
            ),
        decreases n - i,
    {
        let ghost before = doc_view(doc@);
        push_single(doc, text_seg(prefixed_sanitized(prefix, lines[i].as_str()), Style::Plain));
        assert(doc_view(doc@) =~= start + Seq::new(
            (i + 1) as nat,
            |k: int| seq![text(prefix@ + sanitized(lines@[k]@), Style::Plain)],
        ));
        i = i + 1;
    }
    assert(lines_of(body@).len() == n);
    assert forall|k: int| 0 <= k < n implies lines_of(body@)[k] == #[trigger] lines@[k]@ by {
        assert(lines@.map_values(|l: String| l@)[k] == lines@[k]@);
    }
    assert(doc_view(doc@) =~= start + body_doc(prefix@, body@));
}

proof fn lemma_comments_view_len(s: Seq<FormattedComment>)
    ensures
        comments_view(s).len() == s.len(),
    decreases s.len(),
{
    if s.len() > 0 {
        lemma_comments_view_len(s.drop_last());
    }
}

fn push_comment(doc: &mut Vec<Vec<Segment>>, c: &FormattedComment)
    ensures
        doc_view(final(doc)@) == doc_view(old(doc)@) + comment_doc(comment_view(*c)),
    decreases *c,
{
    let ghost start = doc_view(doc@);
    let ghost cv = comment_view(*c);
    let ind = indent_string(c.depth);
    let mut header: Vec<Segment> = Vec::new();
    assert(line_view(header) =~= Seq::<SegmentView>::empty());
    push_seg(&mut header, text_seg(ind.clone(), Style::Plain));
    push_seg(&mut header, text_seg(prefixed_sanitized("u/", c.author.as_str()), Style::Yellow));
    push_seg(&mut header, lit_seg(" | ", Style::Plain));
    let mut score = format_number(c.score);
    push_str(&mut score, " pts");
    push_seg(&mut header, text_seg(score, Style::Green));
    push_seg(&mut header, lit_seg(" | ", Style::Plain));
    push_seg(&mut header, time_seg(c.created_utc, Style::Dimmed));
    assert(line_view(header) =~= comment_header(cv));
    push_line(doc, header);
    push_body(doc, ind.as_str(), c.body.as_str());
    push_blank(doc);
    let ghost mid = doc_view(doc@);
    match &c.replies {
        Some(rs) => {
            push_thread(doc, rs.as_slice());
        },
        None => {},
    }
    assert(doc_view(doc@) =~= start + comment_doc(cv));
}

fn push_thread(doc: &mut Vec<Vec<Segment>>, cs: &[FormattedComment])
    ensures
        doc_view(final(doc)@) == doc_view(old(doc)@) + thread_doc(comments_view(cs@)),
    decreases cs@,
{
    let ghost start = doc_view(doc@);
    let n = cs.len();
    let mut i: usize = 0;
    assert(comments_view(cs@.take(0)) =~= Seq::<CommentView>::empty());
    assert(start + thread_doc(Seq::<CommentView>::empty()) =~= start);
    while i < n
        invariant
            i <= n,
            n == cs@.len(),
            doc_view(doc@) == start + thread_doc(comments_view(cs@.take(i as int))),
        decreases n - i,
    {
        let ghost before = comments_view(cs@.take(i as int));
        push_comment(doc, &cs[i]);
        assert(cs@.take(i + 1).drop_last() =~= cs@.take(i as int));
        assert(comments_view(cs@.take(i + 1)) == before.push(comment_view(cs@[i as int])));
        assert(before.push(comment_view(cs@[i as int])).drop_last() =~= before);
        i = i + 1;
    }
    assert(cs@.take(n as int) =~= cs@);
}

/// The output for the comments of a post, replies indented under their
/// parents, or a note that there are none.
pub fn render_comments(comments: &[FormattedComment]) -> (r: Vec<Vec<Segment>>)
    ensures
        doc_view(r@) == comments_doc(comments_view(comments@)),
{
    let mut doc: Vec<Vec<Segment>> = Vec::new();
    assert(doc_view(doc@) =~= Seq::<Seq<SegmentView>>::empty());
    proof { lemma_comments_view_len(comments@); }
    if comments.len() == 0 {
        push_single(&mut doc, lit_seg("No comments found.", Style::Dimmed));
        assert(doc_view(doc@) =~= comments_doc(comments_view(comments@)));
        return doc;
    }
    push_thread(&mut doc, comments);
    assert(doc_view(doc@) =~= comments_doc(comments_view(comments@)));
    doc
}

/// The output for a post in full, with its comment tree.
pub fn render_post_detail(post: &FormattedPost, comments: &[FormattedComment]) -> (r: Vec<
    Vec<Segment>,
>)
    ensures
        doc_view(r@) == post_detail_doc(*post, comments_view(comments@)),
{
    let mut doc: Vec<Vec<Segment>> = Vec::new();
    assert(doc_view(doc@) =~= Seq::<Seq<SegmentView>>::empty());
    proof { lemma_comments_view_len(comments@); }
    push_single(&mut doc, text_seg(sanitize(post.title.as_str()), Style::Bold));
    let mut meta: Vec<Segment> = Vec::new();
    assert(line_view(meta) =~= Seq::<SegmentView>::empty());
    push_post_meta(&mut meta, post);
    assert(line_view(meta) =~= post_meta(*post));
    push_line(&mut doc, meta);
    push_single(&mut doc, text_seg(sanitize(post.permalink.as_str()), Style::Blue));
    let ghost top = doc_view(doc@);
    match &post.selftext {
        Some(t) => {
            push_blank(&mut doc);
            push_single(&mut doc, text_seg(sanitize(t.as_str()), Style::Plain));
        },
        None => {},
    }
    let ghost with_text = doc_view(doc@);
    if comments.len() > 0 {
        push_blank(&mut doc);
        push_single(&mut doc, lit_seg("--- Comments ---", Style::Bold));
        push_blank(&mut doc);
        push_thread(&mut doc, comments);
    }
    assert(doc_view(doc@) =~= post_detail_doc(*post, comments_view(comments@)));
    doc
}

fn push_user_comment(doc: &mut Vec<Vec<Segment>>, c: &UserComment)
    ensures
        doc_view(final(doc)@) == doc_view(old(doc)@) + user_comment_entry(*c),
{
    let ghost start = doc_view(doc@);
    let mut head: Vec<Segment> = Vec::new();
    assert(line_view(head) =~= Seq::<SegmentView>::empty());
    push_seg(&mut head, lit_seg("in ", Style::Plain));
    push_seg(&mut head, text_seg(prefixed_sanitized("r/", c.subreddit.as_str()), Style::Cyan));
    push_seg(&mut head, lit_seg(" | ", Style::Plain));
    let mut score = format_number(c.score);
    push_str(&mut score, " pts");
    push_seg(&mut head, text_seg(score, Style::Green));
    push_seg(&mut head, lit_seg(" | ", Style::Plain));
    push_seg(&mut head, time_seg(c.created_utc, Style::Dimmed));
    assert(line_view(head) =~= user_comment_entry(*c)[0]);
    push_line(doc, head);
    let mut re: Vec<Segment> = Vec::new();
    assert(line_view(re) =~= Seq::<SegmentView>::empty());
    push_seg(&mut re, lit_seg("  Re: ", Style::Plain));
    push_seg(&mut re, text_seg(sanitize(c.link_title.as_str()), Style::Dimmed));
    assert(line_view(re) =~= user_comment_entry(*c)[1]);
    push_line(doc, re);
    push_body(doc, "  ", c.body.as_str());
    push_blank(doc);
    assert(doc_view(doc@) =~= start + user_comment_entry(*c));
}

/// The option of a slice, as the plain sequence it holds.
pub open spec fn slice_option_view<T>(o: Option<&[T]>) -> Option<Seq<T>> {
    match o {
        Some(s) => Some(s@),
        None => None,
    }
}

/// The output for a user profile, with the recent posts and recent comments
/// when they are given.
pub fn render_user(
    user: &FormattedUser,
    posts: Option<&[FormattedPost]>,
    comments: Option<&[UserComment]>,
) -> (r: Vec<Vec<Segment>>)
    ensures
        doc_view(r@) == user_doc(*user, slice_option_view(posts), slice_option_view(comments)),
{
    let mut doc: Vec<Vec<Segment>> = Vec::new();
    assert(doc_view(doc@) =~= Seq::<Seq<SegmentView>>::empty());
    push_single(&mut doc, text_seg(prefixed_sanitized("u/", user.name.as_str()), Style::Bold));
    let mut stats: Vec<Segment> = Vec::new();
    assert(line_view(stats) =~= Seq::<SegmentView>::empty());
    push_seg(&mut stats, lit_seg("Account age: ", Style::Plain));
    push_seg(&mut stats, age_seg(user.created_utc, Style::Plain));
    push_seg(&mut stats, lit_seg(" | Link karma: ", Style::Plain));
    push_seg(&mut stats, text_seg(format_number(user.link_karma), Style::Green));
    push_seg(&mut stats, lit_seg(" | Comment karma: ", Style::Plain));
    push_seg(&mut stats, text_seg(format_number(user.comment_karma), Style::Green));
    assert(line_view(stats) =~= user_doc(*user, None, None)[1]);
    push_line(&mut doc, stats);
    let ghost top = doc_view(doc@);
    match posts {
        Some(ps) => {
            push_blank(&mut doc);
            push_single(&mut doc, lit_seg("--- Recent Posts ---", Style::Bold));
            push_blank(&mut doc);
            push_posts_list(&mut doc, ps);
        },
        None => {},
    }
    let ghost with_posts = doc_view(doc@);
    match comments {
        Some(cs) => {
            push_blank(&mut doc);
            push_single(&mut doc, lit_seg("--- Recent Comments ---", Style::Bold));
            push_blank(&mut doc);
            let ghost head = doc_view(doc@);
            let n = cs.len();
            let mut i: usize = 0;
            while i < n
                invariant
                    i <= n,
                    n == cs@.len(),
                    doc_view(doc@) + user_comment_entries(cs@, i as int) == head + user_comment_entries(cs@, 0),
                decreases n - i,
            {
                let ghost before = doc_view(doc@);
                push_user_comment(&mut doc, &cs[i]);
                assert(before + user_comment_entries(cs@, i as int) =~= doc_view(doc@)
                    + user_comment_entries(cs@, i + 1));
                i = i + 1;
            }
            assert(doc_view(doc@) + user_comment_entries(cs@, n as int) =~= doc_view(doc@));
        },
        None => {},
    }
    assert(doc_view(doc@) =~= user_doc(*user, slice_option_view(posts), slice_option_view(comments)));
    doc
}

} // verus!

verus! {

/// Text that the terminal shows as it is: no escape character, no 8-bit
/// CSI, and no control character but newline and tab.
pub open spec fn clean_text(t: Seq<char>) -> bool {
    forall|k: int| 0 <= k < t.len() ==> is_kept(#[trigger] t[k])
}

/// A piece of output whose text, if it is text, is clean; a time or an age
/// is drawn from digits and letters.
pub open spec fn clean_piece(s: SegmentView) -> bool {
    match s.piece {
        PieceView::Text(t) => clean_text(t),
        _ => true,
    }
}

/// Output every piece of which is clean.
pub open spec fn clean_doc(d: Seq<Seq<SegmentView>>) -> bool {
    forall|i: int, j: int| 0 <= i < d.len() && 0 <= j < d[i].len() ==> #[trigger] clean_piece(d[i][j])
}

proof fn lemma_clean_concat(a: Seq<char>, b: Seq<char>)
    requires
        clean_text(a),
        clean_text(b),
    ensures
        clean_text(a + b),
{
    assert forall|k: int| 0 <= k < (a + b).len() implies is_kept(#[trigger] (a + b)[k]) by {
        if k < a.len() {
            assert((a + b)[k] == a[k]);
        } else {
            assert((a + b)[k] == b[k - a.len()]);
        }
    }
}

proof fn lemma_doc_concat(a: Seq<Seq<SegmentView>>, b: Seq<Seq<SegmentView>>)
    requires
        clean_doc(a),
        clean_doc(b),
    ensures
        clean_doc(a + b),
{
    assert forall|i: int, j: int| 0 <= i < (a + b).len() && 0 <= j < (a + b)[i].len() implies #[trigger] clean_piece(
        (a + b)[i][j],
    ) by {
        if i < a.len() {
            assert((a + b)[i] == a[i]);
        } else {
            assert((a + b)[i] == b[i - a.len()]);
        }
    }
}

proof fn lemma_sanitized_clean(s: Seq<char>)
    ensures
        clean_text(sanitized(s)),
{
    lemma_sanitized_is_clean(s);
}

proof fn lemma_decimal_clean(n: nat)
    ensures
        clean_text(decimal(n)),
    decreases n,
{
    if n >= 10 {
        lemma_decimal_clean(n / 10);
        let d = decimal(n / 10);
        assert(decimal(n) == d.push(digit_char(n % 10)));
        assert forall|k: int| 0 <= k < decimal(n).len() implies is_kept(#[trigger] decimal(n)[k]) by {
            if k < d.len() {
                assert(decimal(n)[k] == d[k]);
            }
        }
    }
}

proof fn lemma_with_commas_clean(n: nat)
    ensures
        clean_text(with_commas(n)),
    decreases n,
{
    if n < 1000 {
        lemma_decimal_clean(n);
    } else {
        lemma_with_commas_clean(n / 1000);
        assert(clean_text(seq![',']));
        assert(clean_text(three_digits(n % 1000)));
        lemma_clean_concat(with_commas(n / 1000), seq![',']);
        lemma_clean_concat(with_commas(n / 1000) + seq![','], three_digits(n % 1000));
    }
}

proof fn lemma_number_text_clean(n: int)
    ensures
        clean_text(number_text(n)),
{
    if n < 0 {
        lemma_with_commas_clean((-n) as nat);
        assert(clean_text(seq!['-']));
        lemma_clean_concat(seq!['-'], with_commas((-n) as nat));
    } else {
        lemma_with_commas_clean(n as nat);
    }
}

proof fn lemma_post_entry_clean(p: FormattedPost, i: int, count: int)
    requires
        0 <= i < count,
    ensures
        clean_doc(post_entry(p, i, count)),
{
    reveal_strlit("r/");
    reveal_strlit("u/");
    reveal_strlit(" | ");
    reveal_strlit(" pts (");
    reveal_strlit("%) | ");
    reveal_strlit(" comments | ");
    reveal_strlit("    ");
    reveal_strlit("[");
    reveal_strlit("]");
    reveal_strlit(" ");
    lemma_sanitized_clean(p.subreddit@);
    lemma_sanitized_clean(p.author@);
    lemma_sanitized_clean(p.title@);
    lemma_sanitized_clean(p.permalink@);
    lemma_clean_concat("r/"@, sanitized(p.subreddit@));
    lemma_clean_concat("u/"@, sanitized(p.author@));
    lemma_number_text_clean(p.score as int);
    lemma_number_text_clean(p.num_comments as int);
    lemma_decimal_clean(p.upvote_percent as nat);
    lemma_decimal_clean((i + 1) as nat);
    lemma_clean_concat(" pts ("@, decimal(p.upvote_percent as nat));
    lemma_clean_concat(" pts ("@ + decimal(p.upvote_percent as nat), "%) | "@);
    lemma_clean_concat(" pts ("@ + decimal(p.upvote_percent as nat) + "%) | "@, number_text(p.num_comments as int));
    lemma_clean_concat(
        " pts ("@ + decimal(p.upvote_percent as nat) + "%) | "@ + number_text(p.num_comments as int),
        " comments | "@,
    );
    lemma_clean_concat("["@, decimal((i + 1) as nat));
    lemma_clean_concat("["@ + decimal((i + 1) as nat), "]"@);
    let d = post_entry(p, i, count);
    assert forall|a: int, b: int| 0 <= a < d.len() && 0 <= b < d[a].len() implies #[trigger] clean_piece(d[a][b]) by {
        let meta = seq![text("    "@, Style::Plain)] + post_meta(p);
        if a == 1 {
            assert(d[1] == meta);
            if b > 0 {
                assert(meta[b] == post_meta(p)[b - 1]);
            }
        }
    }
}

proof fn lemma_post_entries_clean(posts: Seq<FormattedPost>, i: int)
    ensures
        clean_doc(post_entries(posts, i)),
    decreases posts.len() - i,
{
    if 0 <= i < posts.len() {
        lemma_post_entry_clean(posts[i], i, posts.len() as int);
        lemma_post_entries_clean(posts, i + 1);
        lemma_doc_concat(post_entry(posts[i], i, posts.len() as int), post_entries(posts, i + 1));
    }
}

/// Whatever the posts hold, a rendered list of posts holds no terminal
/// escape: every piece of text in it is clean.
pub proof fn lemma_posts_list_clean(posts: Seq<FormattedPost>)
    ensures
        clean_doc(posts_list_doc(posts)),
{
    reveal_strlit("No posts found.");
    if posts.len() > 0 {
        lemma_post_entries_clean(posts, 0);
    }
}


/// The indentation of a comment at depth `d` is `2 * d` spaces: each level
/// adds two spaces to the one above it.
pub proof fn lemma_indent_spaces(depth: nat)
    ensures
        indent(depth).len() == 2 * depth,
        forall|k: int| 0 <= k < indent(depth).len() ==> #[trigger] indent(depth)[k] == ' ',
        indent(depth + 1) == indent(depth) + seq![' ', ' '],
{
    assert(indent(depth + 1) =~= indent(depth) + seq![' ', ' ']);
}

/// A comment's first line starts with its indentation, `2 * depth` spaces,
/// and each line of its body starts with the same indentation.
pub proof fn lemma_comment_indented(c: CommentView)
    ensures
        comment_doc(c)[0][0] == text(indent(c.depth as nat), Style::Plain),
        indent(c.depth as nat).len() == 2 * c.depth,
        forall|i: int| 1 <= i <= lines_of(c.body).len() ==> (#[trigger] comment_doc(c)[i])[0]
            == text(indent(c.depth as nat) + sanitized(lines_of(c.body)[i - 1]), Style::Plain),
{
    lemma_indent_spaces(c.depth as nat);
    let d = comment_doc(c);
    let b = body_doc(indent(c.depth as nat), c.body);
    let rest = match c.replies {
        Some(rs) => thread_doc(rs),
        None => Seq::<Seq<SegmentView>>::empty(),
    };
    assert(d == seq![comment_header(c)] + b + seq![Seq::<SegmentView>::empty()] + rest);
    assert forall|i: int| 1 <= i <= lines_of(c.body).len() implies (#[trigger] d[i])[0]
        == text(indent(c.depth as nat) + sanitized(lines_of(c.body)[i - 1]), Style::Plain) by {
        assert(d[i] == b[i - 1]);
    }
}

proof fn lemma_indent_clean(depth: nat)
    ensures
        clean_text(indent(depth)),
{
}

proof fn lemma_body_clean(prefix: Seq<char>, body: Seq<char>)
    requires
        clean_text(prefix),
    ensures
        clean_doc(body_doc(prefix, body)),
{
    let d = body_doc(prefix, body);
    assert forall|a: int, b: int| 0 <= a < d.len() && 0 <= b < d[a].len() implies #[trigger] clean_piece(d[a][b]) by {
        let l = lines_of(body)[a];
        assert(d[a] == seq![text(prefix + sanitized(l), Style::Plain)]);
        lemma_sanitized_clean(l);
        lemma_clean_concat(prefix, sanitized(l));
    }
}

proof fn lemma_comment_header_clean(c: CommentView)
    ensures
        forall|j: int| 0 <= j < comment_header(c).len() ==> #[trigger] clean_piece(comment_header(c)[j]),
{
    reveal_strlit("u/");
    reveal_strlit(" | ");
    reveal_strlit(" pts");
    lemma_indent_clean(c.depth as nat);
    lemma_sanitized_clean(c.author);
    lemma_clean_concat("u/"@, sanitized(c.author));
    lemma_number_text_clean(c.score as int);
    lemma_clean_concat(number_text(c.score as int), " pts"@);
}

proof fn lemma_comment_doc_clean(c: CommentView)
    ensures
        clean_doc(comment_doc(c)),
    decreases c,
{
    lemma_comment_header_clean(c);
    lemma_indent_clean(c.depth as nat);
    lemma_body_clean(indent(c.depth as nat), c.body);
    let head: Seq<Seq<SegmentView>> = seq![comment_header(c)];
    assert(clean_doc(head));
    assert(clean_doc(seq![Seq::<SegmentView>::empty()]));
    lemma_doc_concat(head, body_doc(indent(c.depth as nat), c.body));
    lemma_doc_concat(head + body_doc(indent(c.depth as nat), c.body), seq![Seq::<SegmentView>::empty()]);
    let top = head + body_doc(indent(c.depth as nat), c.body) + seq![Seq::<SegmentView>::empty()];
    match c.replies {
        Some(rs) => {
            lemma_thread_doc_clean(rs);
            lemma_doc_concat(top, thread_doc(rs));
        },
        None => {
            assert(top + Seq::<Seq<SegmentView>>::empty() =~= top);
        },
    }
}

proof fn lemma_thread_doc_clean(cs: Seq<CommentView>)
    ensures
        clean_doc(thread_doc(cs)),
    decreases cs,
{
    if cs.len() > 0 {
        lemma_thread_doc_clean(cs.drop_last());
        lemma_comment_doc_clean(cs.last());
        lemma_doc_concat(thread_doc(cs.drop_last()), comment_doc(cs.last()));
    }
}

/// Whatever the comments hold, a rendered comment tree holds no terminal
/// escape: every piece of text in it is clean.
pub proof fn lemma_comments_clean(cs: Seq<CommentView>)
    ensures
        clean_doc(comments_doc(cs)),
{
    reveal_strlit("No comments found.");
    if cs.len() > 0 {
        lemma_thread_doc_clean(cs);
    }
}

proof fn lemma_heading_clean(t: Seq<char>)
    requires
        clean_text(t),
    ensures
        clean_doc(seq![Seq::<SegmentView>::empty(), seq![text(t, Style::Bold)], Seq::<SegmentView>::empty()]),
{
    let d = seq![Seq::<SegmentView>::empty(), seq![text(t, Style::Bold)], Seq::<SegmentView>::empty()];
    assert forall|a: int, b: int| 0 <= a < d.len() && 0 <= b < d[a].len() implies #[trigger] clean_piece(d[a][b]) by {
        assert(a == 1);
    }
}

/// Whatever the post and its comments hold, a rendered post holds no
/// terminal escape: every piece of text in it is clean.
pub proof fn lemma_post_detail_clean(p: FormattedPost, comments: Seq<CommentView>)
    ensures
        clean_doc(post_detail_doc(p, comments)),
{
    lemma_post_entry_clean(p, 0, 1);
    let e = post_entry(p, 0, 1);
    lemma_sanitized_clean(p.title@);
    lemma_sanitized_clean(p.permalink@);
    let top = seq![
        seq![text(sanitized(p.title@), Style::Bold)],
        post_meta(p),
        seq![text(sanitized(p.permalink@), Style::Blue)],
    ];
    assert forall|a: int, b: int| 0 <= a < top.len() && 0 <= b < top[a].len() implies #[trigger] clean_piece(top[a][b]) by {
        if a == 1 {
            assert(e[1][b + 1] == post_meta(p)[b]);
            assert(clean_piece(e[1][b + 1]));
        }
    }
    let with_text = top + match p.selftext {
        Some(t) => seq![seq![], seq![text(sanitized(t@), Style::Plain)]],
        None => seq![],
    };
    match p.selftext {
        Some(t) => {
            lemma_sanitized_clean(t@);
            let x: Seq<Seq<SegmentView>> = seq![seq![], seq![text(sanitized(t@), Style::Plain)]];
            assert forall|a: int, b: int| 0 <= a < x.len() && 0 <= b < x[a].len() implies #[trigger] clean_piece(x[a][b]) by {
                assert(a == 1);
            }
            lemma_doc_concat(top, x);
        },
        None => {
            assert(with_text =~= top);
        },
    }
    if comments.len() > 0 {
        reveal_strlit("--- Comments ---");
        lemma_heading_clean("--- Comments ---"@);
        lemma_thread_doc_clean(comments);
        let h = seq![Seq::<SegmentView>::empty(), seq![text("--- Comments ---"@, Style::Bold)], Seq::<SegmentView>::empty()];
        lemma_doc_concat(h, thread_doc(comments));
        lemma_doc_concat(with_text, h + thread_doc(comments));
        assert(post_detail_doc(p, comments) =~= with_text + (h + thread_doc(comments)));
    } else {
        assert(post_detail_doc(p, comments) =~= with_text);
    }
}

proof fn lemma_user_comment_entry_clean(c: UserComment)
    ensures
        clean_doc(user_comment_entry(c)),
{
    reveal_strlit("in ");
    reveal_strlit("r/");
    reveal_strlit(" | ");
    reveal_strlit(" pts");
    reveal_strlit("  Re: ");
    reveal_strlit("  ");
    lemma_sanitized_clean(c.subreddit@);
    lemma_sanitized_clean(c.link_title@);
    lemma_clean_concat("r/"@, sanitized(c.subreddit@));
    lemma_number_text_clean(c.score as int);
    lemma_clean_concat(number_text(c.score as int), " pts"@);
    let head: Seq<Seq<SegmentView>> = seq![
        seq![
            text("in "@, Style::Plain),
            text("r/"@ + sanitized(c.subreddit@), Style::Cyan),
            text(" | "@, Style::Plain),
            text(number_text(c.score as int) + " pts"@, Style::Green),
            text(" | "@, Style::Plain),
            time(c.created_utc, Style::Dimmed),
        ],
        seq![text("  Re: "@, Style::Plain), text(sanitized(c.link_title@), Style::Dimmed)],
    ];
    assert(clean_doc(head));
    lemma_body_clean("  "@, c.body@);
    lemma_doc_concat(head, body_doc("  "@, c.body@));
    assert(clean_doc(seq![Seq::<SegmentView>::empty()]));
    lemma_doc_concat(head + body_doc("  "@, c.body@), seq![Seq::<SegmentView>::empty()]);
}

proof fn lemma_user_comment_entries_clean(cs: Seq<UserComment>, i: int)
    ensures
        clean_doc(user_comment_entries(cs, i)),
    decreases cs.len() - i,
{
    if 0 <= i < cs.len() {
        lemma_user_comment_entry_clean(cs[i]);
        lemma_user_comment_entries_clean(cs, i + 1);
        lemma_doc_concat(user_comment_entry(cs[i]), user_comment_entries(cs, i + 1));
    }
}

/// Whatever the profile and its history hold, a rendered profile holds no
/// terminal escape: every piece of text in it is clean.
pub proof fn lemma_user_clean(
    u: FormattedUser,
    posts: Option<Seq<FormattedPost>>,
    comments: Option<Seq<UserComment>>,
)
    ensures
        clean_doc(user_doc(u, posts, comments)),
{
    reveal_strlit("u/");
    reveal_strlit("Account age: ");
    reveal_strlit(" | Link karma: ");
    reveal_strlit(" | Comment karma: ");
    lemma_sanitized_clean(u.name@);
    lemma_clean_concat("u/"@, sanitized(u.name@));
    lemma_number_text_clean(u.link_karma as int);
    lemma_number_text_clean(u.comment_karma as int);
    let top = user_doc(u, None, None);
    assert(clean_doc(top));
    let with_posts = top + match posts {
        Some(ps) => seq![seq![], seq![text("--- Recent Posts ---"@, Style::Bold)], seq![]] + posts_list_doc(ps),
        None => seq![],
    };
    match posts {
        Some(ps) => {
            reveal_strlit("--- Recent Posts ---");
            lemma_heading_clean("--- Recent Posts ---"@);
            lemma_posts_list_clean(ps);
            let h = seq![Seq::<SegmentView>::empty(), seq![text("--- Recent Posts ---"@, Style::Bold)], Seq::<SegmentView>::empty()];
            lemma_doc_concat(h, posts_list_doc(ps));
            lemma_doc_concat(top, h + posts_list_doc(ps));
        },
        None => {
            assert(with_posts =~= top);
        },
    }
    match comments {
        Some(cs) => {
            reveal_strlit("--- Recent Comments ---");
            lemma_heading_clean("--- Recent Comments ---"@);
            lemma_user_comment_entries_clean(cs, 0);
            let h = seq![Seq::<SegmentView>::empty(), seq![text("--- Recent Comments ---"@, Style::Bold)], Seq::<SegmentView>::empty()];
            lemma_doc_concat(h, user_comment_entries(cs, 0));
            lemma_doc_concat(with_posts, h + user_comment_entries(cs, 0));
            assert(user_doc(u, posts, comments) =~= with_posts + (h + user_comment_entries(cs, 0)));
        },
        None => {
            assert(user_doc(u, posts, comments) =~= with_posts);
        },
    }
}

} // verus!
