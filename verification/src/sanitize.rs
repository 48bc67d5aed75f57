use vstd::prelude::*;
use crate::text::{chars_of, push_char};

verus! {

/// The escape character that starts a terminal control sequence.
pub open spec fn esc() -> char { '\x1b' }

/// The single-character (8-bit) Control Sequence Introducer.
pub open spec fn csi8() -> char { '\u{9b}' }

/// Unicode general category Cc: U+0000..U+001F and U+007F..U+009F.
pub open spec fn is_control(c: char) -> bool {
    ('\x00' <= c && c <= '\x1f') || ('\x7f' <= c && c <= '\u{9f}')
}

/// A character that is written to the terminal unchanged: newline, tab, or
/// any character that is not a control character.
pub open spec fn is_kept(c: char) -> bool {
    c == '\n' || c == '\t' || !is_control(c)
}

/// A character that ends a CSI sequence: an ASCII letter or `~`.
pub open spec fn is_csi_final(c: char) -> bool {
    ('A' <= c && c <= 'Z') || ('a' <= c && c <= 'z') || c == '~'
}

/// Position just after the CSI sequence whose parameters start at `i`: the
/// sequence runs up to and including its final character, or to the end of
/// the text.
pub open spec fn csi_end(s: Seq<char>, i: int) -> int
    decreases s.len() - i,
{
    if i >= s.len() {
        s.len() as int
    } else if is_csi_final(s[i]) {
        i + 1
    } else {
        csi_end(s, i + 1)
    }
}

/// Position just after an OSC string whose body starts at `i`: it ends with
/// BEL, or with ESC (together with a `\` right after it), or at the end.
pub open spec fn osc_end(s: Seq<char>, i: int) -> int
    decreases s.len() - i,
{
    if i >= s.len() {
        s.len() as int
    } else if s[i] == '\x07' {
        i + 1
    } else if s[i] == esc() {
        if i + 1 < s.len() && s[i + 1] == '\\' { i + 2 } else { i + 1 }
    } else {
        osc_end(s, i + 1)
    }
}

/// Position just after a DCS string whose body starts at `i`: it ends with
/// ESC (together with a `\` right after it), or at the end.
pub open spec fn dcs_end(s: Seq<char>, i: int) -> int
    decreases s.len() - i,
{
    if i >= s.len() {
        s.len() as int
    } else if s[i] == esc() {
        if i + 1 < s.len() && s[i + 1] == '\\' { i + 2 } else { i + 1 }
    } else {
        dcs_end(s, i + 1)
    }
}

/// Position just after the escape sequence that starts with the ESC at `i`.
pub open spec fn escape_end(s: Seq<char>, i: int) -> int {
    if i + 1 >= s.len() {
        s.len() as int
    } else if s[i + 1] == '[' {
        csi_end(s, i + 2)
    } else if s[i + 1] == ']' {
        osc_end(s, i + 2)
    } else if s[i + 1] == 'P' {
        dcs_end(s, i + 2)
    } else {
        i + 2
    }
}

/// What is left of `s[i..]` for the terminal: escape sequences (CSI, OSC,
/// DCS, two-character escapes, and 8-bit CSI) are removed whole, other
/// control characters but newline and tab are dropped, and every other
/// character is kept.
pub open spec fn sanitized_from(s: Seq<char>, i: int) -> Seq<char>
    decreases s.len() - i,
{
    if i < 0 || i >= s.len() {
        seq![]
    } else if s[i] == esc() {
        proof { lemma_escape_end_bounds(s, i); }
        sanitized_from(s, escape_end(s, i))
    } else if s[i] == csi8() {
        proof { lemma_csi_end_bounds(s, i + 1); }
        sanitized_from(s, csi_end(s, i + 1))
    } else if is_kept(s[i]) {
        seq![s[i]] + sanitized_from(s, i + 1)
    } else {
        sanitized_from(s, i + 1)
    }
}

/// The terminal-safe form of a whole text.
pub open spec fn sanitized(s: Seq<char>) -> Seq<char> {
    sanitized_from(s, 0)
}

pub proof fn lemma_csi_end_bounds(s: Seq<char>, i: int)
    requires
        0 <= i,
    ensures
        i < s.len() ==> i < csi_end(s, i) <= s.len(),
        i >= s.len() ==> csi_end(s, i) == s.len(),
    decreases s.len() - i,
{
    if i < s.len() && !is_csi_final(s[i]) {
        lemma_csi_end_bounds(s, i + 1);
    }
}

pub proof fn lemma_osc_end_bounds(s: Seq<char>, i: int)
    requires
        0 <= i,
    ensures
        i < s.len() ==> i < osc_end(s, i) <= s.len(),
        i >= s.len() ==> osc_end(s, i) == s.len(),
    decreases s.len() - i,
{
    if i < s.len() && s[i] != '\x07' && s[i] != esc() {
        lemma_osc_end_bounds(s, i + 1);
    }
}

pub proof fn lemma_dcs_end_bounds(s: Seq<char>, i: int)
    requires
        0 <= i,
    ensures
        i < s.len() ==> i < dcs_end(s, i) <= s.len(),
        i >= s.len() ==> dcs_end(s, i) == s.len(),
    decreases s.len() - i,
{
    if i < s.len() && s[i] != esc() {
        lemma_dcs_end_bounds(s, i + 1);
    }
}

pub proof fn lemma_escape_end_bounds(s: Seq<char>, i: int)
    requires
        0 <= i < s.len(),
    ensures
        i < escape_end(s, i) <= s.len(),
{
    if i + 1 < s.len() {
        lemma_csi_end_bounds(s, i + 2);
        lemma_osc_end_bounds(s, i + 2);
        lemma_dcs_end_bounds(s, i + 2);
    }
}

proof fn lemma_sanitized_from_clean(s: Seq<char>, i: int)
    requires
        0 <= i,
    ensures
        forall|k: int| 0 <= k < sanitized_from(s, i).len() ==> is_kept(#[trigger] sanitized_from(s, i)[k]),
        sanitized_from(s, i).len() <= s.len() - i || (i >= s.len() && sanitized_from(s, i).len() == 0),
    decreases s.len() - i,
{
    if i < s.len() {
        if s[i] == esc() {
            lemma_escape_end_bounds(s, i);
            lemma_sanitized_from_clean(s, escape_end(s, i));
        } else if s[i] == csi8() {
            lemma_csi_end_bounds(s, i + 1);
            lemma_sanitized_from_clean(s, csi_end(s, i + 1));
        } else {
            lemma_sanitized_from_clean(s, i + 1);
            let rest = sanitized_from(s, i + 1);
            if is_kept(s[i]) {
                assert forall|k: int| 0 <= k < sanitized_from(s, i).len() implies is_kept(
                    #[trigger] sanitized_from(s, i)[k],
                ) by {
                    if k > 0 {
                        assert(sanitized_from(s, i)[k] == rest[k - 1]);
                    }
                }
            }
        }
    }
}

proof fn lemma_sanitized_from_identity(s: Seq<char>, i: int)
    requires
        0 <= i <= s.len(),
        forall|k: int| 0 <= k < s.len() ==> is_kept(#[trigger] s[k]),
    ensures
        sanitized_from(s, i) == s.subrange(i, s.len() as int),
    decreases s.len() - i,
{
    if i < s.len() {
        assert(is_kept(s[i]));
        lemma_sanitized_from_identity(s, i + 1);
        assert(sanitized_from(s, i) =~= s.subrange(i, s.len() as int));
    } else {
        assert(s.subrange(i, s.len() as int) =~= Seq::<char>::empty());
    }
}

/// Everything that sanitizing lets through is harmless for the terminal: no
/// escape character, no 8-bit CSI, and no control character but newline and
/// tab; and the result is never longer than the input.
pub proof fn lemma_sanitized_is_clean(s: Seq<char>)
    ensures
        forall|k: int| 0 <= k < sanitized(s).len() ==> is_kept(#[trigger] sanitized(s)[k]),
        forall|k: int| 0 <= k < sanitized(s).len() ==> #[trigger] sanitized(s)[k] != esc() && sanitized(s)[k] != csi8(),
        sanitized(s).len() <= s.len(),
{
    lemma_sanitized_from_clean(s, 0);
    assert forall|k: int| 0 <= k < sanitized(s).len() implies #[trigger] sanitized(s)[k] != esc() && sanitized(s)[k] != csi8() by {
        assert(is_kept(sanitized(s)[k]));
    }
}

/// Text without control characters (newline and tab aside) passes through
/// sanitizing unchanged.
pub proof fn lemma_sanitize_keeps_clean_text(s: Seq<char>)
    requires
        forall|k: int| 0 <= k < s.len() ==> is_kept(#[trigger] s[k]),
    ensures
        sanitized(s) == s,
{
    lemma_sanitized_from_identity(s, 0);
    assert(s.subrange(0, s.len() as int) =~= s);
}

/// Sanitizing twice gives the same text as sanitizing once.
pub proof fn lemma_sanitize_idempotent(s: Seq<char>)
    ensures
        sanitized(sanitized(s)) == sanitized(s),
{
    lemma_sanitized_is_clean(s);
    lemma_sanitize_keeps_clean_text(sanitized(s));
}

proof fn lemma_csi_end_shift(a: Seq<char>, b: Seq<char>, j: int)
    requires
        0 <= j,
    ensures
        csi_end(a + b, a.len() + j) == a.len() + csi_end(b, j),
    decreases b.len() - j,
{
    if j < b.len() {
        assert((a + b)[a.len() + j] == b[j]);
        lemma_csi_end_shift(a, b, j + 1);
    }
}

proof fn lemma_osc_end_shift(a: Seq<char>, b: Seq<char>, j: int)
    requires
        0 <= j,
    ensures
        osc_end(a + b, a.len() + j) == a.len() + osc_end(b, j),
    decreases b.len() - j,
{
    if j < b.len() {
        assert((a + b)[a.len() + j] == b[j]);
        if j + 1 < b.len() {
            assert((a + b)[a.len() + j + 1] == b[j + 1]);
        }
        lemma_osc_end_shift(a, b, j + 1);
    }
}

proof fn lemma_dcs_end_shift(a: Seq<char>, b: Seq<char>, j: int)
    requires
        0 <= j,
    ensures
        dcs_end(a + b, a.len() + j) == a.len() + dcs_end(b, j),
    decreases b.len() - j,
{
    if j < b.len() {
        assert((a + b)[a.len() + j] == b[j]);
        if j + 1 < b.len() {
            assert((a + b)[a.len() + j + 1] == b[j + 1]);
        }
        lemma_dcs_end_shift(a, b, j + 1);
    }
}

proof fn lemma_sanitized_from_shift(a: Seq<char>, b: Seq<char>, j: int)
    requires
        0 <= j,
    ensures
        sanitized_from(a + b, a.len() + j) == sanitized_from(b, j),
    decreases b.len() - j,
{
    let s = a + b;
    let i = a.len() + j;
    if j < b.len() {
        assert(s[i] == b[j]);
        if b[j] == esc() {
            if j + 1 < b.len() {
                assert(s[i + 1] == b[j + 1]);
                lemma_csi_end_shift(a, b, j + 2);
                lemma_osc_end_shift(a, b, j + 2);
                lemma_dcs_end_shift(a, b, j + 2);
            }
            assert(escape_end(s, i) == a.len() + escape_end(b, j));
            lemma_escape_end_bounds(b, j);
            lemma_sanitized_from_shift(a, b, escape_end(b, j));
        } else if b[j] == csi8() {
            lemma_csi_end_shift(a, b, j + 1);
            lemma_csi_end_bounds(b, j + 1);
            lemma_sanitized_from_shift(a, b, csi_end(b, j + 1));
        } else {
            lemma_sanitized_from_shift(a, b, j + 1);
        }
    }
}

proof fn lemma_sanitized_from_concat(a: Seq<char>, b: Seq<char>, i: int)
    requires
        0 <= i <= a.len(),
        forall|k: int| 0 <= k < a.len() ==> #[trigger] a[k] != esc() && a[k] != csi8(),
    ensures
        sanitized_from(a + b, i) == sanitized_from(a, i) + sanitized(b),
    decreases a.len() - i,
{
    if i < a.len() {
        assert((a + b)[i] == a[i]);
        assert(a[i] != esc() && a[i] != csi8());
        lemma_sanitized_from_concat(a, b, i + 1);
        if is_kept(a[i]) {
            assert(sanitized_from(a + b, i) =~= sanitized_from(a, i) + sanitized(b));
        }
    } else {
        lemma_sanitized_from_shift(a, b, 0);
        assert(sanitized_from(a, i) + sanitized(b) =~= sanitized(b));
    }
}

/// Text without an escape character or an 8-bit CSI starts no sequence, so
/// sanitizing it followed by more text is sanitizing each part and joining
/// the results.
pub proof fn lemma_sanitize_concat(a: Seq<char>, b: Seq<char>)
    requires
        forall|k: int| 0 <= k < a.len() ==> #[trigger] a[k] != esc() && a[k] != csi8(),
    ensures
        sanitized(a + b) == sanitized(a) + sanitized(b),
{
    lemma_sanitized_from_concat(a, b, 0);
}

fn is_control_char(c: char) -> (r: bool)
    ensures
        r == is_control(c),
{
    ('\x00' <= c && c <= '\x1f') || ('\x7f' <= c && c <= '\u{9f}')
}

fn is_csi_final_char(c: char) -> (r: bool)
    ensures
        r == is_csi_final(c),
{
    ('A' <= c && c <= 'Z') || ('a' <= c && c <= 'z') || c == '~'
}

/// Index just after the CSI sequence whose parameters start at `i`.
fn skip_csi(v: &Vec<char>, i: usize) -> (r: usize)
    requires
        i <= v.len(),
    ensures
        r == csi_end(v@, i as int),
{
    let mut j = i;
    while j < v.len()
        invariant
            i <= j <= v.len(),
            csi_end(v@, j as int) == csi_end(v@, i as int),
        decreases v.len() - j,
    {
        if is_csi_final_char(v[j]) {
            return j + 1;
        }
        j = j + 1;
    }
    j
}

/// Index just after the OSC string whose body starts at `i`.
fn skip_osc(v: &Vec<char>, i: usize) -> (r: usize)
    requires
        i <= v.len(),
    ensures
        r == osc_end(v@, i as int),
{
    let mut j = i;
    while j < v.len()
        invariant
            i <= j <= v.len(),
            osc_end(v@, j as int) == osc_end(v@, i as int),
        decreases v.len() - j,
    {
        if v[j] == '\x07' {
            return j + 1;
        }
        if v[j] == '\x1b' {
            if j + 1 < v.len() && v[j + 1] == '\\' {
                return j + 2;
            }
            return j + 1;
        }
        j = j + 1;
    }
    j
}

/// Index just after the DCS string whose body starts at `i`.
fn skip_dcs(v: &Vec<char>, i: usize) -> (r: usize)
    requires
        i <= v.len(),
    ensures
        r == dcs_end(v@, i as int),
{
    let mut j = i;
    while j < v.len()
        invariant
            i <= j <= v.len(),
            dcs_end(v@, j as int) == dcs_end(v@, i as int),
        decreases v.len() - j,
    {
        if v[j] == '\x1b' {
            if j + 1 < v.len() && v[j + 1] == '\\' {
                return j + 2;
            }
            return j + 1;
        }
        j = j + 1;
    }
    j
}

/// Removes terminal escape sequences and control characters (other than
/// newline and tab) from text that came from the network, so that it cannot
/// drive the terminal when printed.
pub fn sanitize(input: &str) -> (r: String)
    ensures
        r@ == sanitized(input@),
{
    let v = chars_of(input);
    let ghost s = v@;
    let n = v.len();
    let mut out = String::new();
    let mut i: usize = 0;
    while i < n
        invariant
            s == v@,
            n == v.len(),
            i <= n,
            out@ + sanitized_from(s, i as int) == sanitized(s),
        decreases n - i,
    {
        let c = v[i];
        if c == '\x1b' {
            proof { lemma_escape_end_bounds(s, i as int); }
            let next: usize;
            if i + 1 >= n {
                next = n;
            } else if v[i + 1] == '[' {
                next = skip_csi(&v, i + 2);
            } else if v[i + 1] == ']' {
                next = skip_osc(&v, i + 2);
            } else if v[i + 1] == 'P' {
                next = skip_dcs(&v, i + 2);
            } else {
                next = i + 2;
            }
            assert(next as int == escape_end(s, i as int));
            i = next;
        } else if c == '\u{9b}' {
            proof { lemma_csi_end_bounds(s, i as int + 1); }
            i = skip_csi(&v, i + 1);
        } else if c == '\n' || c == '\t' || !is_control_char(c) {
            let ghost before = out@;
            push_char(&mut out, c);
            assert(out@ + sanitized_from(s, i + 1) =~= before + sanitized_from(s, i as int));
            i = i + 1;
        } else {
            i = i + 1;
        }
    }
    assert(sanitized_from(s, i as int) =~= Seq::<char>::empty());
    assert(out@ =~= sanitized(s));
    out
}

} // verus!
