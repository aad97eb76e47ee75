//! Turning a line of GitHub markdown into plain words: links lose their
//! targets, HTML tags and bold markers go, and heading marks are trimmed.
use vstd::prelude::*;

use crate::text::{
    chars_of, string_of,
    any_alphanumeric, has_alphanumeric, one_of, replace_all, replaced, strip_front, sub_chars,
    trim, trim_start_any, trimmed,
};

verus! {

// ---------------------------------------------------------------------------
// Bracket matching
// ---------------------------------------------------------------------------

/// Scanning `chars` from `j` with `depth` brackets open: the index of the
/// `close` that brings the depth back to zero, if there is one.
pub open spec fn match_from(chars: Seq<char>, j: int, depth: int, open: char, close: char) -> Option<
    int,
>
    decreases chars.len() - j,
{
    if j < 0 || j >= chars.len() {
        None
    } else if chars[j] == open {
        match_from(chars, j + 1, depth + 1, open, close)
    } else if chars[j] == close {
        if depth - 1 == 0 {
            Some(j)
        } else {
            match_from(chars, j + 1, depth - 1, open, close)
        }
    } else {
        match_from(chars, j + 1, depth, open, close)
    }
}

/// The index of the bracket that closes the one opened at `from`.
pub open spec fn matching_spec(chars: Seq<char>, from: int, open: char, close: char) -> Option<int> {
    match_from(chars, from, 0, open, close)
}

pub proof fn lemma_match_from_range(chars: Seq<char>, j: int, depth: int, open: char, close: char)
    ensures
        match_from(chars, j, depth, open, close) matches Some(k) ==> j <= k < chars.len()
            && chars[k] == close,
    decreases chars.len() - j,
{
    if 0 <= j < chars.len() {
        lemma_match_from_range(chars, j + 1, depth + 1, open, close);
        lemma_match_from_range(chars, j + 1, depth - 1, open, close);
        lemma_match_from_range(chars, j + 1, depth, open, close);
    }
}

/// The index of the bracket that closes the one that `chars[from]` opens.
pub fn matching(chars: &[char], from: usize, open: char, close: char) -> (r: Option<usize>)
    requires
        from < chars@.len(),
        chars@[from as int] == open,
        open != close,
    ensures
        r matches Some(k) ==> matching_spec(chars@, from as int, open, close) == Some(k as int)
            && from < k < chars@.len() && chars@[k as int] == close,
        r is None ==> matching_spec(chars@, from as int, open, close) is None,
{
    let mut depth: usize = 0;
    let mut i = from;
    while i < chars.len()
        invariant
            from <= i <= chars@.len(),
            chars@[from as int] == open,
            open != close,
            i == from ==> depth == 0,
            i > from ==> depth >= 1,
            depth <= i - from,
            matching_spec(chars@, from as int, open, close) == match_from(
                chars@,
                i as int,
                depth as int,
                open,
                close,
            ),
        decreases chars@.len() - i,
    {
        let c = chars[i];
        if c == open {
            depth = depth + 1;
        } else if c == close {
            depth = depth - 1;
            if depth == 0 {
                return Some(i);
            }
        }
        i = i + 1;
    }
    assert(match_from(chars@, i as int, depth as int, open, close) is None);
    None
}

// ---------------------------------------------------------------------------
// Links
// ---------------------------------------------------------------------------

/// Where a markdown link `[text](target)` starts at `i`: the indices of its
/// `]` and of the `)` that ends it.
pub open spec fn link_at(chars: Seq<char>, i: int) -> Option<(int, int)> {
    if 0 <= i < chars.len() && chars[i] == '[' {
        match matching_spec(chars, i, '[', ']') {
            Some(close) => if close + 1 < chars.len() && chars[close + 1] == '(' {
                match matching_spec(chars, close + 1, '(', ')') {
                    Some(end) => Some((close, end)),
                    None => None,
                }
            } else {
                None
            },
            None => None,
        }
    } else {
        None
    }
}

pub proof fn lemma_link_at(chars: Seq<char>, i: int)
    ensures
        link_at(chars, i) matches Some(p) ==> i < p.0 && p.0 + 1 < p.1 < chars.len(),
{
    if 0 <= i < chars.len() && chars[i] == '[' {
        lemma_match_from_range(chars, i, 0, '[', ']');
        if let Some(close) = matching_spec(chars, i, '[', ']') {
            if close + 1 < chars.len() && chars[close + 1] == '(' {
                lemma_match_from_range(chars, close + 1, 0, '(', ')');
                // the scan from `i` opens a bracket at `i` before it can close one
                assert(chars[i] != ']');
                assert(chars[close + 1] != ')');
            }
        }
    }
}

/// `out` without a trailing `!`, which marks an image link.
pub open spec fn drop_bang(out: Seq<char>) -> Seq<char> {
    if out.len() > 0 && out.last() == '!' {
        out.drop_last()
    } else {
        out
    }
}

/// The rest of `chars` from `i`, with every link replaced by its text, after `out`.
pub open spec fn unlink_from(chars: Seq<char>, i: int, out: Seq<char>) -> Seq<char>
    decreases chars.len() - i,
{
    if i < 0 || i >= chars.len() {
        out
    } else {
        match link_at(chars, i) {
            Some(p) => {
                proof {
                    lemma_link_at(chars, i);
                }
                unlink_from(chars, p.1 + 1, drop_bang(out) + chars.subrange(i + 1, p.0))
            },
            None => unlink_from(chars, i + 1, out.push(chars[i])),
        }
    }
}

/// `s` with every `[text](target)` replaced by `text`, an image's `!` dropped
/// with it; a bracket with no target stays as it is.
pub open spec fn unlinked(s: Seq<char>) -> Seq<char> {
    unlink_from(s, 0, seq![])
}

/// One pass of link removal (see `unlinked`).
pub fn unlink_chars(chars: &Vec<char>) -> (out: Vec<char>)
    ensures
        out@ == unlinked(chars@),
{
    let mut out: Vec<char> = Vec::new();
    let mut i: usize = 0;
    while i < chars.len()
        invariant
            i <= chars@.len(),
            unlinked(chars@) == unlink_from(chars@, i as int, out@),
        decreases chars@.len() - i,
    {
        let mut link: Option<(usize, usize)> = None;
        if chars[i] == '[' {
            if let Some(close) = matching(chars, i, '[', ']') {
                if close + 1 < chars.len() && chars[close + 1] == '(' {
                    if let Some(end) = matching(chars, close + 1, '(', ')') {
                        link = Some((close, end));
                    }
                }
            }
        }
        proof {
            lemma_link_at(chars@, i as int);
        }
        match link {
            Some((close, end)) => {
                assert(link_at(chars@, i as int) == Some((close as int, end as int)));
                let n = out.len();
                if n > 0 && out[n - 1] == '!' {
                    out.pop();
                }
                let ghost dropped = out@;
                let mut k = i + 1;
                while k < close
                    invariant
                        i + 1 <= k <= close < chars@.len(),
                        out@ == dropped + chars@.subrange(i + 1, k as int),
                    decreases close - k,
                {
                    out.push(chars[k]);
                    assert(chars@.subrange(i + 1, k + 1) =~= chars@.subrange(i + 1, k as int).push(
                        chars@[k as int],
                    ));
                    k = k + 1;
                }
                i = end + 1;
            },
            None => {
                assert(link_at(chars@, i as int) is None);
                out.push(chars[i]);
                i = i + 1;
            },
        }
    }
    out
}

/// At most `rounds` passes of `unlinked`, stopping once a pass changes nothing,
/// so that a link nested in a link's text goes too.
pub open spec fn unlink_rounds(s: Seq<char>, rounds: nat) -> Seq<char>
    decreases rounds,
{
    if rounds == 0 {
        s
    } else {
        let t = unlinked(s);
        if t == s {
            s
        } else {
            unlink_rounds(t, (rounds - 1) as nat)
        }
    }
}

// ---------------------------------------------------------------------------
// Tags and markers
// ---------------------------------------------------------------------------

/// `s` without HTML tags: what lies inside `<`..`>` goes, nested tags counted;
/// a `>` with no tag open stays.
pub open spec fn untag(s: Seq<char>, depth: nat) -> Seq<char>
    decreases s.len(),
{
    if s.len() == 0 {
        seq![]
    } else {
        let c = s[0];
        let rest = s.drop_first();
        if c == '<' {
            untag(rest, depth + 1)
        } else if c == '>' && depth > 0 {
            untag(rest, (depth - 1) as nat)
        } else if depth == 0 {
            seq![c] + untag(rest, 0)
        } else {
            untag(rest, depth)
        }
    }
}

/// The marks that lead a heading, a quote of an emoji code, a list or a table.
pub open spec fn lead_marks() -> Seq<char> {
    seq!['#', '!', ':', '*', '|', ' ']
}

/// A line without tags and bold markers, trimmed, and without the marks
/// that lead it.
pub open spec fn tidied(s: Seq<char>) -> Seq<char> {
    trimmed(strip_front(trimmed(replaced(untag(s, 0), "**"@, ""@)), one_of(lead_marks())))
}

fn strip_tags(s: &Vec<char>) -> (out: Vec<char>)
    ensures
        out@ == untag(s@, 0),
{
    let mut out: Vec<char> = Vec::new();
    let mut depth: usize = 0;
    let mut i: usize = 0;
    assert(s@.skip(0) =~= s@);
    while i < s.len()
        invariant
            i <= s@.len(),
            depth <= i,
            untag(s@, 0) == out@ + untag(s@.skip(i as int), depth as nat),
        decreases s@.len() - i,
    {
        let c = s[i];
        let ghost rest = s@.skip(i as int);
        assert(rest[0] == c);
        assert(rest.drop_first() =~= s@.skip(i + 1));
        let ghost before = out@;
        if c == '<' {
            depth = depth + 1;
        } else if c == '>' && depth > 0 {
            depth = depth - 1;
        } else if depth == 0 {
            out.push(c);
            assert(out@ + untag(s@.skip(i + 1), 0) =~= before + (seq![c] + untag(
                s@.skip(i + 1),
                0,
            )));
        }
        i = i + 1;
    }
    assert(out@ + untag(s@.skip(i as int), depth as nat) =~= out@);
    out
}

/// Drops tags and bold markers, trims, and drops leading heading marks.
pub fn tidy_chars(s: &Vec<char>) -> (out: Vec<char>)
    ensures
        out@ == tidied(s@),
{
    let a = strip_tags(s);
    proof {
        reveal_strlit("**");
    }
    let b = replace_all(&a, "**", "");
    let c = trim(&b);
    let mut marks: Vec<char> = Vec::new();
    marks.push('#');
    marks.push('!');
    marks.push(':');
    marks.push('*');
    marks.push('|');
    marks.push(' ');
    assert(marks@ =~= lead_marks());
    let d = trim_start_any(&c, &marks);
    trim(&d)
}

/// A line as plain words: links unwrapped for up to four rounds, then tidied.
pub open spec fn plain_text(line: Seq<char>) -> Seq<char> {
    tidied(unlink_rounds(line, 4))
}

/// A line as plain words (see `plain_text`).
pub fn plain_chars(line: &Vec<char>) -> (out: Vec<char>)
    ensures
        out@ == plain_text(line@),
{
    let mut cur = sub_chars(line, 0, line.len());
    assert(line@.subrange(0, line@.len() as int) =~= line@);
    let mut round: usize = 0;
    while round < 4
        invariant
            round <= 4,
            unlink_rounds(line@, 4) == unlink_rounds(cur@, (4 - round) as nat),
        decreases 4 - round,
    {
        let next = unlink_chars(&cur);
        if crate::text::chars_eq(&next, &cur) {
            assert(unlink_rounds(cur@, (4 - round) as nat) == cur@);
            return tidy_chars(&cur);
        }
        cur = next;
        round = round + 1;
    }
    tidy_chars(&cur)
}

// ---------------------------------------------------------------------------
// Lines and the gist
// ---------------------------------------------------------------------------

/// A line without the `\r` of a `\r\n` ending.
pub open spec fn drop_cr(line: Seq<char>) -> Seq<char> {
    if line.len() > 0 && line.last() == '\r' {
        line.drop_last()
    } else {
        line
    }
}

/// The lines of `s` after the partial line `cur` (`str::lines`): split at
/// `\n`, a `\r` before it dropped, and no empty line after a final `\n`.
pub open spec fn lines_after(s: Seq<char>, cur: Seq<char>) -> Seq<Seq<char>>
    decreases s.len(),
{
    if s.len() == 0 {
        if cur.len() == 0 {
            seq![]
        } else {
            seq![cur]
        }
    } else if s[0] == '\n' {
        seq![drop_cr(cur)] + lines_after(s.drop_first(), seq![])
    } else {
        lines_after(s.drop_first(), cur.push(s[0]))
    }
}

/// The lines of `s` (`str::lines`).
pub open spec fn lines_of(s: Seq<char>) -> Seq<Seq<char>> {
    lines_after(s, seq![])
}

/// The first line whose plain words hold a letter or digit, as plain words;
/// empty if none does.
pub open spec fn first_worded(lines: Seq<Seq<char>>) -> Seq<char>
    decreases lines.len(),
{
    if lines.len() == 0 {
        seq![]
    } else {
        let p = plain_text(trimmed(lines[0]));
        if has_alphanumeric(p) {
            p
        } else {
            first_worded(lines.drop_first())
        }
    }
}

/// At most the first `n` characters of `s`.
pub open spec fn at_most(s: Seq<char>, n: nat) -> Seq<char> {
    if s.len() <= n {
        s
    } else {
        s.take(n as int)
    }
}

/// The one-line summary of a message: its first line with words in it, as
/// plain words, cut to 120 characters.
pub open spec fn gist_text(body: Seq<char>) -> Seq<char> {
    at_most(first_worded(lines_of(body)), 120)
}

proof fn lemma_first_worded_cons(l: Seq<char>, rest: Seq<Seq<char>>)
    ensures
        first_worded(seq![l] + rest) == (if has_alphanumeric(plain_text(trimmed(l))) {
            plain_text(trimmed(l))
        } else {
            first_worded(rest)
        }),
{
    let all = seq![l] + rest;
    assert(all[0] == l);
    assert(all.drop_first() =~= rest);
}

fn worded(line: &Vec<char>) -> (r: Option<Vec<char>>)
    ensures
        r matches Some(p) ==> p@ == plain_text(trimmed(line@)) && has_alphanumeric(p@),
        r is None ==> !has_alphanumeric(plain_text(trimmed(line@))),
{
    let t = trim(line);
    let p = plain_chars(&t);
    if any_alphanumeric(&p) {
        Some(p)
    } else {
        None
    }
}

/// The one-line summary of a message body (see `gist_text`).
pub fn gist_of(body: &Vec<char>) -> (out: Vec<char>)
    ensures
        out@ == gist_text(body@),
{
    let mut cur: Vec<char> = Vec::new();
    let mut i: usize = 0;
    let mut found: Option<Vec<char>> = None;
    assert(body@.skip(0) =~= body@);
    while i < body.len() && found.is_none()
        invariant
            i <= body@.len(),
            found is None ==> first_worded(lines_of(body@)) == first_worded(
                lines_after(body@.skip(i as int), cur@),
            ),
            found matches Some(p) ==> p@ == first_worded(lines_of(body@)),
        decreases body@.len() - i,
    {
        let c = body[i];
        let ghost rest = body@.skip(i as int);
        assert(rest[0] == c);
        assert(rest.drop_first() =~= body@.skip(i + 1));
        if c == '\n' {
            let n = cur.len();
            let line = if n > 0 && cur[n - 1] == '\r' {
                sub_chars(&cur, 0, n - 1)
            } else {
                sub_chars(&cur, 0, n)
            };
            assert(line@ =~= drop_cr(cur@));
            proof {
                lemma_first_worded_cons(drop_cr(cur@), lines_after(body@.skip(i + 1), seq![]));
            }
            found = worded(&line);
            cur = Vec::new();
        } else {
            cur.push(c);
        }
        i = i + 1;
    }
    let best = match found {
        Some(p) => p,
        None => {
            assert(body@.skip(i as int) =~= Seq::<char>::empty());
            if cur.len() > 0 {
                proof {
                    lemma_first_worded_cons(cur@, seq![]);
                    assert(first_worded(Seq::<Seq<char>>::empty()) == Seq::<char>::empty());
                }
                match worded(&cur) {
                    Some(p) => p,
                    None => Vec::new(),
                }
            } else {
                Vec::new()
            }
        },
    };
    if best.len() <= 120 {
        best
    } else {
        sub_chars(&best, 0, 120)
    }
}

/// A message body as GitHub sends it, made tidy: `\r\n` becomes `\n`, and
/// white space at either end goes.
pub open spec fn cleaned(body: Seq<char>) -> Seq<char> {
    trimmed(replaced(body, "\r\n"@, "\n"@))
}

/// A message body made tidy (see `cleaned`).
pub fn clean_chars(body: &Vec<char>) -> (out: Vec<char>)
    ensures
        out@ == cleaned(body@),
{
    proof {
        reveal_strlit("\r\n");
    }
    let a = replace_all(body, "\r\n", "\n");
    trim(&a)
}

// ---------------------------------------------------------------------------
// On strings
// ---------------------------------------------------------------------------

/// One pass of link removal on a string (see `unlinked`).
pub fn unlink(s: &str) -> (out: String)
    ensures
        out@ == unlinked(s@),
{
    let cs = chars_of(s);
    let r = unlink_chars(&cs);
    string_of(&r)
}

/// Tags, bold markers and leading heading marks dropped (see `tidied`).
pub fn tidy(s: &str) -> (out: String)
    ensures
        out@ == tidied(s@),
{
    let cs = chars_of(s);
    let r = tidy_chars(&cs);
    string_of(&r)
}

/// A line as plain words (see `plain_text`).
pub fn plain(line: &str) -> (out: String)
    ensures
        out@ == plain_text(line@),
{
    let cs = chars_of(line);
    let r = plain_chars(&cs);
    string_of(&r)
}

/// A message body made tidy (see `cleaned`).
pub fn clean(body: &str) -> (out: String)
    ensures
        out@ == cleaned(body@),
{
    let cs = chars_of(body);
    let r = clean_chars(&cs);
    string_of(&r)
}

// ---------------------------------------------------------------------------
// The gist is one line
// ---------------------------------------------------------------------------

/// Whether `c` does not occur in `s`.
pub open spec fn lacks(s: Seq<char>, c: char) -> bool {
    forall|i: int| 0 <= i < s.len() ==> s[i] != c
}

proof fn lemma_strip_front_lacks(s: Seq<char>, p: spec_fn(char) -> bool, c: char)
    requires
        lacks(s, c),
    ensures
        lacks(strip_front(s, p), c),
    decreases s.len(),
{
    if s.len() > 0 && p(s[0]) {
        assert(forall|i: int| 0 <= i < s.drop_first().len() ==> s.drop_first()[i] == s[i + 1]);
        lemma_strip_front_lacks(s.drop_first(), p, c);
    }
}

proof fn lemma_strip_back_lacks(s: Seq<char>, p: spec_fn(char) -> bool, c: char)
    requires
        lacks(s, c),
    ensures
        lacks(crate::text::strip_back(s, p), c),
    decreases s.len(),
{
    if s.len() > 0 && p(s.last()) {
        lemma_strip_back_lacks(s.drop_last(), p, c);
    }
}

proof fn lemma_trimmed_lacks(s: Seq<char>, c: char)
    requires
        lacks(s, c),
    ensures
        lacks(trimmed(s), c),
{
    lemma_strip_front_lacks(s, crate::text::white(), c);
    lemma_strip_back_lacks(strip_front(s, crate::text::white()), crate::text::white(), c);
}

proof fn lemma_replaced_lacks(s: Seq<char>, pat: Seq<char>, rep: Seq<char>, c: char)
    requires
        lacks(s, c),
        lacks(rep, c),
    ensures
        lacks(replaced(s, pat, rep), c),
    decreases s.len(),
{
    if s.len() == 0 || pat.len() == 0 {
    } else if s.len() >= pat.len() && s.take(pat.len() as int) == pat {
        let rest = s.skip(pat.len() as int);
        assert(forall|i: int| 0 <= i < rest.len() ==> rest[i] == s[i + pat.len()]);
        lemma_replaced_lacks(rest, pat, rep, c);
        let r = replaced(rest, pat, rep);
        assert(forall|i: int| 0 <= i < (rep + r).len() ==> (rep + r)[i] == if i < rep.len() {
            rep[i]
        } else {
            r[i - rep.len()]
        });
    } else {
        let rest = s.drop_first();
        assert(forall|i: int| 0 <= i < rest.len() ==> rest[i] == s[i + 1]);
        lemma_replaced_lacks(rest, pat, rep, c);
        let r = replaced(rest, pat, rep);
        assert(forall|i: int| 0 <= i < (seq![s[0]] + r).len() ==> (seq![s[0]] + r)[i] == if i < 1 {
            s[0]
        } else {
            r[i - 1]
        });
    }
}

proof fn lemma_untag_lacks(s: Seq<char>, depth: nat, c: char)
    requires
        lacks(s, c),
    ensures
        lacks(untag(s, depth), c),
    decreases s.len(),
{
    if s.len() > 0 {
        let rest = s.drop_first();
        assert(forall|i: int| 0 <= i < rest.len() ==> rest[i] == s[i + 1]);
        let x = s[0];
        if x == '<' {
            lemma_untag_lacks(rest, depth + 1, c);
        } else if x == '>' && depth > 0 {
            lemma_untag_lacks(rest, (depth - 1) as nat, c);
        } else if depth == 0 {
            lemma_untag_lacks(rest, 0, c);
            let r = untag(rest, 0);
            assert(forall|i: int| 0 <= i < (seq![x] + r).len() ==> (seq![x] + r)[i] == if i < 1 {
                x
            } else {
                r[i - 1]
            });
        } else {
            lemma_untag_lacks(rest, depth, c);
        }
    }
}

proof fn lemma_unlink_from_lacks(chars: Seq<char>, i: int, out: Seq<char>, c: char)
    requires
        lacks(chars, c),
        lacks(out, c),
    ensures
        lacks(unlink_from(chars, i, out), c),
    decreases chars.len() - i,
{
    if 0 <= i < chars.len() {
        lemma_link_at(chars, i);
        match link_at(chars, i) {
            Some(p) => {
                let a = drop_bang(out);
                let b = chars.subrange(i + 1, p.0);
                assert(lacks(a, c));
                assert(lacks(b, c));
                assert(forall|k: int| 0 <= k < (a + b).len() ==> (a + b)[k] == if k < a.len() {
                    a[k]
                } else {
                    b[k - a.len()]
                });
                lemma_unlink_from_lacks(chars, p.1 + 1, a + b, c);
            },
            None => {
                lemma_unlink_from_lacks(chars, i + 1, out.push(chars[i]), c);
            },
        }
    }
}

proof fn lemma_unlink_rounds_lacks(s: Seq<char>, rounds: nat, c: char)
    requires
        lacks(s, c),
    ensures
        lacks(unlink_rounds(s, rounds), c),
    decreases rounds,
{
    if rounds > 0 {
        lemma_unlink_from_lacks(s, 0, seq![], c);
        let t = unlinked(s);
        if t != s {
            lemma_unlink_rounds_lacks(t, (rounds - 1) as nat, c);
        }
    }
}

proof fn lemma_plain_lacks(line: Seq<char>, c: char)
    requires
        lacks(line, c),
    ensures
        lacks(plain_text(line), c),
{
    reveal_strlit("");
    let a = unlink_rounds(line, 4);
    lemma_unlink_rounds_lacks(line, 4, c);
    lemma_untag_lacks(a, 0, c);
    lemma_replaced_lacks(untag(a, 0), "**"@, ""@, c);
    let b = replaced(untag(a, 0), "**"@, ""@);
    lemma_trimmed_lacks(b, c);
    lemma_strip_front_lacks(trimmed(b), one_of(lead_marks()), c);
    lemma_trimmed_lacks(strip_front(trimmed(b), one_of(lead_marks())), c);
}

proof fn lemma_lines_lack_breaks(s: Seq<char>, cur: Seq<char>)
    requires
        lacks(cur, '\n'),
    ensures
        forall|k: int| 0 <= k < lines_after(s, cur).len() ==> lacks(#[trigger] lines_after(s, cur)[k], '\n'),
    decreases s.len(),
{
    if s.len() == 0 {
        let all = lines_after(s, cur);
        assert forall|k: int| 0 <= k < all.len() implies lacks(#[trigger] all[k], '\n') by {
            assert(all[k] == cur);
        }
    } else if s[0] == '\n' {
        lemma_lines_lack_breaks(s.drop_first(), seq![]);
        let rest = lines_after(s.drop_first(), seq![]);
        let all = seq![drop_cr(cur)] + rest;
        assert(lines_after(s, cur) == all);
        assert(lacks(drop_cr(cur), '\n'));
        assert forall|k: int| 0 <= k < all.len() implies lacks(#[trigger] all[k], '\n') by {
            if k > 0 {
                assert(all[k] == rest[k - 1]);
            }
        }
    } else {
        assert(lacks(cur.push(s[0]), '\n'));
        lemma_lines_lack_breaks(s.drop_first(), cur.push(s[0]));
        assert(lines_after(s, cur) == lines_after(s.drop_first(), cur.push(s[0])));
    }
}

proof fn lemma_first_worded_lacks(lines: Seq<Seq<char>>)
    requires
        forall|k: int| 0 <= k < lines.len() ==> lacks(#[trigger] lines[k], '\n'),
    ensures
        lacks(first_worded(lines), '\n'),
    decreases lines.len(),
{
    if lines.len() > 0 {
        lemma_trimmed_lacks(lines[0], '\n');
        lemma_plain_lacks(trimmed(lines[0]), '\n');
        let rest = lines.drop_first();
        assert(forall|k: int| 0 <= k < rest.len() ==> rest[k] == lines[k + 1]);
        lemma_first_worded_lacks(rest);
    }
}

/// The one-line summary that stands for a bot's message holds no line
/// break and at most 120 characters, whatever the message.
pub proof fn law_gist_is_one_line(body: Seq<char>)
    ensures
        lacks(gist_text(body), '\n'),
        gist_text(body).len() <= 120,
{
    lemma_lines_lack_breaks(body, seq![]);
    lemma_first_worded_lacks(lines_of(body));
}

} // verus!
