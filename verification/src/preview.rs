//! Extraction of a one-line preview from a Markdown document: the title
//! declared in its front matter when there is one, the first content line
//! otherwise, truncated to a caller-given length.

use vstd::prelude::*;

use crate::text::{starts_with_spec, starts_with_str, trim_spec, trim_str};

verus! {

/// Length of the run of `c` at the front of `s`.
pub open spec fn run_prefix_len(s: Seq<char>, c: char) -> nat
    decreases s.len(),
{
    if s.len() == 0 {
        0
    } else if s[0] == c {
        1 + run_prefix_len(s.drop_first(), c)
    } else {
        0
    }
}

/// Length of the run of `c` at the back of `s`.
pub open spec fn run_suffix_len(s: Seq<char>, c: char) -> nat
    decreases s.len(),
{
    if s.len() == 0 {
        0
    } else if s.last() == c {
        1 + run_suffix_len(s.drop_last(), c)
    } else {
        0
    }
}

/// The front run of `c` is exactly the run before the first other
/// character.
proof fn lemma_run_prefix_at(s: Seq<char>, c: char, i: int)
    requires
        0 <= i <= s.len(),
        forall|k: int| 0 <= k < i ==> s[k] == c,
        i == s.len() || s[i] != c,
    ensures
        run_prefix_len(s, c) == i,
    decreases s.len(),
{
    if i == 0 {
        if s.len() != 0 {
            assert(s[0] != c);
        }
    } else {
        let t = s.drop_first();
        assert(forall|k: int| 0 <= k < i - 1 ==> t[k] == s[k + 1] && s[k + 1] == c);
        if i < s.len() {
            assert(t[i - 1] == s[i]);
        }
        lemma_run_prefix_at(t, c, i - 1);
    }
}

/// The back run of `c` is exactly the run after the last other character.
proof fn lemma_run_suffix_at(s: Seq<char>, c: char, j: int)
    requires
        0 <= j <= s.len(),
        forall|k: int| j <= k < s.len() ==> s[k] == c,
        j == 0 || s[j - 1] != c,
    ensures
        run_suffix_len(s, c) == s.len() - j,
    decreases s.len(),
{
    if j == s.len() {
        if s.len() != 0 {
            assert(s.last() != c);
        }
    } else {
        assert(s.last() == c);
        let t = s.drop_last();
        assert(forall|k: int| j <= k < t.len() ==> t[k] == s[k]);
        if j > 0 {
            assert(t[j - 1] == s[j - 1]);
        }
        lemma_run_suffix_at(t, c, j);
    }
}

/// `s` without its front and back runs of `c` (`str::trim_matches`).
pub open spec fn trim_char_spec(s: Seq<char>, c: char) -> Seq<char> {
    if run_prefix_len(s, c) == s.len() {
        Seq::empty()
    } else {
        s.subrange(run_prefix_len(s, c) as int, s.len() - run_suffix_len(s, c))
    }
}

/// `s` without its front run of `c` (`str::trim_start_matches`).
pub open spec fn skip_run_spec(s: Seq<char>, c: char) -> Seq<char> {
    s.skip(run_prefix_len(s, c) as int)
}

/// Remove the front and back runs of one character.
pub fn trim_char(s: &str, c: char) -> (r: String)
    ensures
        r@ == trim_char_spec(s@, c),
{
    let n = s.unicode_len();
    let mut i: usize = 0;
    while i < n && s.get_char(i) == c
        invariant
            i <= n,
            n == s@.len(),
            forall|k: int| 0 <= k < i ==> s@[k] == c,
        decreases n - i,
    {
        i = i + 1;
    }
    proof {
        lemma_run_prefix_at(s@, c, i as int);
    }
    if i == n {
        return String::new();
    }
    let mut j: usize = n;
    while j > i && s.get_char(j - 1) == c
        invariant
            i <= j <= n,
            n == s@.len(),
            i < n,
            s@[i as int] != c,
            forall|k: int| j <= k < n ==> s@[k] == c,
        decreases j,
    {
        j = j - 1;
    }
    proof {
        if j == i {
            assert(s@[i as int] == c);
        }
        lemma_run_suffix_at(s@, c, j as int);
    }
    s.substring_char(i, j).to_owned()
}

/// Remove the front run of one character.
pub fn skip_run(s: &str, c: char) -> (r: String)
    ensures
        r@ == skip_run_spec(s@, c),
{
    let n = s.unicode_len();
    let mut i: usize = 0;
    while i < n && s.get_char(i) == c
        invariant
            i <= n,
            n == s@.len(),
            forall|k: int| 0 <= k < i ==> s@[k] == c,
        decreases n - i,
    {
        i = i + 1;
    }
    proof {
        lemma_run_prefix_at(s@, c, i as int);
    }
    s.substring_char(i, n).to_owned()
}

/// The first index at or after `j` holding a line feed, or the end of the
/// sequence.
pub open spec fn nl_end(s: Seq<char>, j: int) -> int
    decreases s.len() - j,
    when 0 <= j
{
    if j >= s.len() {
        s.len() as int
    } else if s[j] == '\n' {
        j
    } else {
        nl_end(s, j + 1)
    }
}

/// The first line feed lies between `j` and the end.
proof fn lemma_nl_end_bounds(s: Seq<char>, j: int)
    requires
        0 <= j <= s.len(),
    ensures
        j <= nl_end(s, j) <= s.len(),
    decreases s.len() - j,
{
    if j < s.len() && s[j] != '\n' {
        lemma_nl_end_bounds(s, j + 1);
    }
}

/// The first line feed is characterized by the feed-free run before it.
proof fn lemma_nl_end_at(s: Seq<char>, j: int, e: int)
    requires
        0 <= j <= e <= s.len(),
        forall|k: int| j <= k < e ==> s[k] != '\n',
        e == s.len() || s[e] == '\n',
    ensures
        nl_end(s, j) == e,
    decreases e - j,
{
    if j < e {
        lemma_nl_end_at(s, j + 1, e);
    }
}

/// A line without its trailing carriage return, as `str::lines` yields it.
pub open spec fn strip_cr(l: Seq<char>) -> Seq<char> {
    if l.len() > 0 && l.last() == '\r' {
        l.drop_last()
    } else {
        l
    }
}

/// The lines of a document, split at line feeds with carriage returns
/// stripped; a trailing line feed does not open a final empty line.
pub open spec fn split_lines(s: Seq<char>) -> Seq<Seq<char>>
    decreases s.len(),
    via split_lines_decreases
{
    if s.len() == 0 {
        Seq::empty()
    } else {
        let e = nl_end(s, 0);
        if e == s.len() {
            seq![strip_cr(s)]
        } else {
            seq![strip_cr(s.take(e))] + split_lines(s.skip(e + 1))
        }
    }
}

#[via_fn]
proof fn split_lines_decreases(s: Seq<char>) {
    if s.len() > 0 {
        lemma_nl_end_bounds(s, 0);
    }
}

/// Split a document into its lines.
pub fn split_into_lines(s: &str) -> (r: Vec<String>)
    ensures
        r@.map_values(|l: String| l@) == split_lines(s@),
{
    let n = s.unicode_len();
    let mut r: Vec<String> = Vec::new();
    let mut start: usize = 0;
    proof {
        assert(r@.map_values(|l: String| l@) =~= Seq::<Seq<char>>::empty());
        assert(s@.skip(0) =~= s@);
    }
    while start < n
        invariant
            start <= n,
            n == s@.len(),
            split_lines(s@) == r@.map_values(|l: String| l@) + split_lines(s@.skip(start as int)),
        decreases n - start,
    {
        let ghost rem = s@.skip(start as int);
        let mut e: usize = start;
        while e < n && s.get_char(e) != '\n'
            invariant
                start <= e <= n,
                n == s@.len(),
                forall|k: int| start <= k < e ==> s@[k] != '\n',
            decreases n - e,
        {
            e = e + 1;
        }
        proof {
            assert(forall|k: int|
                0 <= k < e - start ==> rem[k] == s@[k + start] && s@[k + start] != '\n');
            if e < n {
                assert(rem[e - start] == s@[e as int]);
            }
            lemma_nl_end_at(rem, 0, e - start);
        }
        // The raw line, then without a trailing carriage return.
        let raw_end = if e > start && s.get_char(e - 1) == '\r' {
            e - 1
        } else {
            e
        };
        let line = s.substring_char(start, raw_end).to_owned();
        let ghost prev = r@.map_values(|l: String| l@);
        r.push(line);
        proof {
            if e == n {
                assert(rem =~= s@.take(n as int).skip(start as int));
                assert(line@ =~= strip_cr(rem));
                assert(split_lines(rem) == seq![strip_cr(rem)]);
            } else {
                assert(rem.take(e - start) =~= s@.subrange(start as int, e as int));
                assert(line@ =~= strip_cr(rem.take(e - start)));
                assert(split_lines(rem) == seq![strip_cr(rem.take(e - start))] + split_lines(
                    rem.skip(e - start + 1),
                ));
                assert(rem.skip(e - start + 1) =~= s@.skip(e + 1));
            }
            assert(r@.map_values(|l: String| l@) =~= prev.push(line@));
        }
        if e == n {
            proof {
                assert(split_lines(s@) =~= r@.map_values(|l: String| l@));
            }
            return r;
        }
        start = e + 1;
        proof {
            assert(split_lines(s@) == r@.map_values(|l: String| l@) + split_lines(
                s@.skip(start as int),
            ));
        }
    }
    proof {
        assert(s@.skip(n as int) =~= Seq::<char>::empty());
        assert(split_lines(s@) =~= r@.map_values(|l: String| l@));
    }
    r
}

/// A document without its byte-order mark.
pub open spec fn strip_bom(s: Seq<char>) -> Seq<char> {
    if s.len() > 0 && s[0] == '\u{FEFF}' {
        s.drop_first()
    } else {
        s
    }
}

/// The value of a front-matter title field: what follows `title:`,
/// trimmed, with surrounding double then single quotes removed.
pub open spec fn title_value(after: Seq<char>) -> Seq<char> {
    trim_char_spec(trim_char_spec(trim_spec(after), '"'), '\'')
}

/// A content line reduced to its text: leading heading, quote and list
/// markers removed, then trimmed.
pub open spec fn content_text(t: Seq<char>) -> Seq<char> {
    trim_spec(skip_run_spec(skip_run_spec(skip_run_spec(skip_run_spec(t, '#'), '>'), '-'), '*'))
}

/// How many lines of a document the preview scan looks at.
pub const PREVIEW_SCAN_LINES: usize = 30;

/// The preview scan over the lines of a document: walks at most
/// `PREVIEW_SCAN_LINES` lines tracking the front-matter state, the first
/// title field found inside the front matter, and the first non-blank
/// content line outside it; stops early once it has both.
pub open spec fn scan_lines(
    lines: Seq<Seq<char>>,
    i: int,
    in_fm: bool,
    title: Option<Seq<char>>,
    first: Seq<char>,
) -> (Option<Seq<char>>, Seq<char>)
    decreases lines.len() - i,
    when 0 <= i
{
    if i >= lines.len() || i >= PREVIEW_SCAN_LINES || (title is Some && first.len() > 0) {
        (title, first)
    } else {
        let t = trim_spec(lines[i]);
        if i == 0 && starts_with_spec(t, "---"@) {
            scan_lines(lines, i + 1, true, title, first)
        } else if in_fm && starts_with_spec(t, "---"@) {
            scan_lines(lines, i + 1, false, title, first)
        } else if in_fm && title is None {
            if starts_with_spec(t, "title:"@) && title_value(t.skip(6)).len() > 0 {
                scan_lines(lines, i + 1, true, Some(title_value(t.skip(6))), first)
            } else {
                scan_lines(lines, i + 1, true, title, first)
            }
        } else if in_fm {
            scan_lines(lines, i + 1, true, title, first)
        } else if first.len() == 0 && t.len() > 0 {
            scan_lines(lines, i + 1, false, title, content_text(t))
        } else {
            scan_lines(lines, i + 1, in_fm, title, first)
        }
    }
}

/// What `extract_preview` returns: the front-matter title when one is
/// declared, the first content line otherwise, truncated to `limit`
/// characters with an ellipsis.
pub open spec fn preview_spec(content: Seq<char>, limit: nat) -> Seq<char> {
    let r = scan_lines(split_lines(strip_bom(content)), 0, false, None, Seq::empty());
    let text = if r.0 is Some {
        r.0.unwrap()
    } else {
        r.1
    };
    if text.len() > limit {
        text.take(limit as int) + "..."@
    } else {
        text
    }
}

/// The view of an optional owned string.
pub open spec fn opt_view(o: Option<String>) -> Option<Seq<char>> {
    match o {
        Some(t) => Some(t@),
        None => None,
    }
}

/// Extract a one-line preview from a Markdown document: prefer the
/// `title:` field of its front matter, fall back to the first non-blank
/// content line stripped of its markers, and cut the result to `limit`
/// characters.
pub fn extract_preview(content: &str, limit: usize) -> (r: String)
    ensures
        r@ == preview_spec(content@, limit as nat),
{
    let n0 = content.unicode_len();
    let body: String = if n0 > 0 && content.get_char(0) == '\u{FEFF}' {
        content.substring_char(1, n0).to_owned()
    } else {
        content.to_owned()
    };
    proof {
        assert(body@ =~= strip_bom(content@));
    }
    let lines = split_into_lines(body.as_str());
    let ghost lviews = lines@.map_values(|l: String| l@);
    let cap = if lines.len() < PREVIEW_SCAN_LINES {
        lines.len()
    } else {
        PREVIEW_SCAN_LINES
    };
    let mut i: usize = 0;
    let mut in_fm = false;
    let mut title: Option<String> = None;
    let mut first = String::new();
    while i < cap && !(title.is_some() && first.as_str().unicode_len() > 0)
        invariant
            i <= cap,
            cap == if lviews.len() < PREVIEW_SCAN_LINES {
                lviews.len() as int
            } else {
                PREVIEW_SCAN_LINES as int
            },
            lviews == lines@.map_values(|l: String| l@),
            scan_lines(lviews, 0, false, None, Seq::empty()) == scan_lines(
                lviews,
                i as int,
                in_fm,
                opt_view(title),
                first@,
            ),
        decreases cap - i,
    {
        let ghost pre = (i as int, in_fm, opt_view(title), first@);
        let t = trim_str(lines[i].as_str());
        proof {
            assert(t@ == trim_spec(lviews[i as int]));
        }
        if i == 0 && starts_with_str(t.as_str(), "---") {
            in_fm = true;
        } else if in_fm && starts_with_str(t.as_str(), "---") {
            in_fm = false;
        } else if in_fm && title.is_none() {
            if starts_with_str(t.as_str(), "title:") {
                proof {
                    reveal_strlit("title:");
                }
                let tn = t.as_str().unicode_len();
                let after = t.as_str().substring_char(6, tn);
                let val = trim_char(trim_char(trim_str(after).as_str(), '"').as_str(), '\'');
                proof {
                    assert(after@ =~= t@.skip(6));
                    assert(val@ == title_value(t@.skip(6)));
                }
                if val.as_str().unicode_len() > 0 {
                    title = Some(val);
                }
            }
        } else if !in_fm && first.as_str().unicode_len() == 0 && t.as_str().unicode_len() > 0 {
            let stripped = skip_run(
                skip_run(skip_run(skip_run(t.as_str(), '#').as_str(), '>').as_str(), '-').as_str(),
                '*',
            );
            first = trim_str(stripped.as_str());
            proof {
                assert(first@ == content_text(t@));
            }
        }
        proof {
            assert(scan_lines(lviews, pre.0, pre.1, pre.2, pre.3) == scan_lines(
                lviews,
                i + 1,
                in_fm,
                opt_view(title),
                first@,
            ));
        }
        i = i + 1;
    }
    proof {
        assert(scan_lines(lviews, i as int, in_fm, opt_view(title), first@) == (
            opt_view(title),
            first@,
        ));
    }
    let text: String = match title {
        Some(t) => t,
        None => first,
    };
    let tn = text.as_str().unicode_len();
    if tn > limit {
        let mut cut = text.as_str().substring_char(0, limit).to_owned();
        cut.push_str("...");
        cut
    } else {
        text
    }
}

} // verus!
