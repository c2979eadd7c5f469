//! Tidying the text that the operating system's text recognition gives:
//! lines that are noise are dropped, runs of marks are shortened.

use vstd::prelude::*;
use vstd::utf8::encode_utf8;
use crate::extractor::{find_in_lines, line_match_views, lines, matches_in_lines};
use crate::chunker::texts_of;
use crate::lines::lines_of;
use crate::patterns::{match_views, Match, Span};
use crate::text::{
    alphanumeric, chars_of, is_alphanumeric, is_white_space, is_whitespace, joined, matches_at,
    occurs_at, string_of, trim_chars, trimmed,
};

verus! {

/// The kinds of character of which long runs are shortened.
#[derive(Debug, Clone, Copy, PartialEq, Eq, Structural)]
pub enum RunKind {
    FullStop,
    Hyphen,
    Asterisk,
    WhiteSpace,
    LineFeed,
}

/// Whether a character is of a kind.
pub open spec fn is_of_kind(c: char, kind: RunKind) -> bool {
    match kind {
        RunKind::FullStop => c == '.',
        RunKind::Hyphen => c == '-',
        RunKind::Asterisk => c == '*',
        RunKind::WhiteSpace => is_white_space(c),
        RunKind::LineFeed => c == '\n',
    }
}

/// The end of the run of characters of `kind` that starts at `from`.
pub open spec fn run_end(s: Seq<char>, kind: RunKind, from: int) -> int
    decreases s.len() - from,
{
    if 0 <= from < s.len() && is_of_kind(s[from], kind) {
        run_end(s, kind, from + 1)
    } else {
        from
    }
}

/// `s` from index `i` on, with each run of `min` or more characters of
/// `kind` replaced by `to`.
pub open spec fn runs_replaced_from(
    s: Seq<char>,
    kind: RunKind,
    min: int,
    to: Seq<char>,
    i: int,
) -> Seq<char>
    decreases s.len() - i,
{
    let end = run_end(s, kind, i);
    if i < 0 || i >= s.len() {
        Seq::empty()
    } else if i < end <= s.len() {
        (if end - i >= min {
            to
        } else {
            s.subrange(i, end)
        }) + runs_replaced_from(s, kind, min, to, end)
    } else {
        seq![s[i]] + runs_replaced_from(s, kind, min, to, i + 1)
    }
}

/// `s` with each run of `min` or more characters of `kind` replaced by
/// `to`.
pub open spec fn runs_replaced(s: Seq<char>, kind: RunKind, min: int, to: Seq<char>) -> Seq<char> {
    runs_replaced_from(s, kind, min, to, 0)
}

fn of_kind(c: char, kind: RunKind) -> (r: bool)
    ensures
        r == is_of_kind(c, kind),
{
    match kind {
        RunKind::FullStop => c == '.',
        RunKind::Hyphen => c == '-',
        RunKind::Asterisk => c == '*',
        RunKind::WhiteSpace => is_whitespace(c),
        RunKind::LineFeed => c == '\n',
    }
}

/// Replaces each run of `min` or more characters of `kind` in `s` by
/// `to`.
pub fn replace_runs(s: &Vec<char>, kind: RunKind, min: usize, to: &Vec<char>) -> (r: Vec<char>)
    ensures
        r@ == runs_replaced(s@, kind, min as int, to@),
{
    let mut r: Vec<char> = Vec::new();
    let mut i: usize = 0;
    proof {
        assert(r@ + runs_replaced_from(s@, kind, min as int, to@, 0) =~= runs_replaced(
            s@,
            kind,
            min as int,
            to@,
        ));
    }
    while i < s.len()
        invariant
            i <= s.len(),
            r@ + runs_replaced_from(s@, kind, min as int, to@, i as int) == runs_replaced(
                s@,
                kind,
                min as int,
                to@,
            ),
        decreases s.len() - i,
    {
        let ghost before = r@;
        let ghost at = i as int;
        let mut end: usize = i;
        while end < s.len() && of_kind(s[end], kind)
            invariant
                i <= end <= s.len(),
                run_end(s@, kind, i as int) == run_end(s@, kind, end as int),
            decreases s.len() - end,
        {
            end += 1;
        }
        if end > i {
            let ghost piece = if end - i >= min {
                to@
            } else {
                s@.subrange(at, end as int)
            };
            let ghost rest = runs_replaced_from(s@, kind, min as int, to@, end as int);
            if end - i >= min {
                let mut k: usize = 0;
                while k < to.len()
                    invariant
                        k <= to.len(),
                        r@ == before + to@.take(k as int),
                    decreases to.len() - k,
                {
                    r.push(to[k]);
                    proof {
                        assert(to@.take(k + 1) =~= to@.take(k as int).push(to@[k as int]));
                        assert(before + to@.take(k + 1) =~= (before + to@.take(k as int)).push(
                            to@[k as int],
                        ));
                    }
                    k += 1;
                }
                proof {
                    assert(to@.take(to@.len() as int) =~= to@);
                }
            } else {
                let mut k: usize = i;
                while k < end
                    invariant
                        i <= k <= end <= s.len(),
                        r@ == before + s@.subrange(i as int, k as int),
                    decreases end - k,
                {
                    r.push(s[k]);
                    proof {
                        assert(s@.subrange(i as int, k + 1) =~= s@.subrange(
                            i as int,
                            k as int,
                        ).push(s@[k as int]));
                        assert(before + s@.subrange(i as int, k + 1) =~= (before + s@.subrange(
                            i as int,
                            k as int,
                        )).push(s@[k as int]));
                    }
                    k += 1;
                }
            }
            proof {
                assert(r@ == before + piece);
                assert(runs_replaced_from(s@, kind, min as int, to@, at) == piece + rest);
                assert(before + (piece + rest) =~= (before + piece) + rest);
            }
            i = end;
        } else {
            r.push(s[i]);
            proof {
                let rest = runs_replaced_from(s@, kind, min as int, to@, at + 1);
                assert(runs_replaced_from(s@, kind, min as int, to@, at) == seq![s@[at]] + rest);
                assert(before + (seq![s@[at]] + rest) =~= before.push(s@[at]) + rest);
            }
            i += 1;
        }
    }
    proof {
        assert(runs_replaced_from(s@, kind, min as int, to@, i as int) =~= Seq::<char>::empty());
        assert(r@ + Seq::<char>::empty() =~= r@);
    }
    r
}

/// The words that mark filler text, in any case, with white space
/// between them.
pub open spec fn filler_pattern() -> Seq<char> {
    "(?i)lorem\\s+ipsum|dolor\\s+sit\\s+amet|consectetur\\s+adipiscing"@
}

/// Whether a line, white space around it set aside, is a page break.
pub open spec fn is_page_break(t: Seq<char>) -> bool {
    occurs_at(t, "--- Page"@, 0) && occurs_at(t, "---"@, t.len() - 3)
}

/// The number of the first `n` characters that are letters, numbers or
/// white space.
pub open spec fn plain_count(t: Seq<char>, n: int) -> int
    decreases n,
{
    if n <= 0 || n > t.len() {
        0
    } else {
        plain_count(t, n - 1) + if alphanumeric(t[n - 1]) || is_white_space(t[n - 1]) {
            1int
        } else {
            0int
        }
    }
}

/// Whether the first `n` characters are letters or numbers.
pub open spec fn all_alphanumeric(t: Seq<char>, n: int) -> bool
    decreases n,
{
    if n <= 0 || n > t.len() {
        true
    } else {
        alphanumeric(t[n - 1]) && all_alphanumeric(t, n - 1)
    }
}

/// Whether more than four tenths of a text of more than five characters
/// are neither letters, numbers nor white space.
pub open spec fn is_mostly_marks(t: Seq<char>) -> bool {
    t.len() > 5 && (t.len() - plain_count(t, t.len() as int)) * 10 > 4 * t.len()
}

/// A line with its runs of marks shortened: four or more full stops to
/// three, three or more hyphens to the three characters that a dash
/// turns into when it is read in the wrong encoding, three or more
/// asterisks to nothing, three or more white spaces to two spaces.
pub open spec fn tidied(t: Seq<char>) -> Seq<char> {
    runs_replaced(
        runs_replaced(
            runs_replaced(runs_replaced(t, RunKind::FullStop, 4, "..."@), RunKind::Hyphen, 3, "\u{e2}\u{20ac}\u{201d}"@),
            RunKind::Asterisk,
            3,
            ""@,
        ),
        RunKind::WhiteSpace,
        3,
        "  "@,
    )
}

/// What is kept of a line, given whether it holds filler text: nothing
/// of a line that is noise; an empty line for a line of white space; a
/// page break as it is; any other line tidied.
pub open spec fn cleaned_line(line: Seq<char>, has_filler: bool) -> Option<Seq<char>> {
    let t = trimmed(line);
    if t.len() == 0 {
        Some(Seq::empty())
    } else if is_page_break(t) {
        Some(t)
    } else if has_filler {
        None
    } else if is_mostly_marks(t) {
        None
    } else if encode_utf8(t).len() < 3 && !all_alphanumeric(t, t.len() as int) {
        None
    } else if trimmed(tidied(t)).len() > 0 {
        Some(tidied(t))
    } else {
        None
    }
}

/// What is kept of the first `n` lines, given for each line the matches
/// of the filler pattern in it without the white space around it.
pub open spec fn cleaned_lines(lines: Seq<Seq<char>>, matches: Seq<Seq<Seq<Option<Span>>>>, n: int) -> Seq<
    Seq<char>,
>
    decreases n,
{
    if n <= 0 || n > lines.len() || n > matches.len() {
        Seq::empty()
    } else {
        let prev = cleaned_lines(lines, matches, n - 1);
        match cleaned_line(lines[n - 1], matches[n - 1].len() > 0) {
            Some(l) => prev.push(l),
            None => prev,
        }
    }
}

/// The tidy text of recognised lines: the lines that are kept, one to
/// the line, with no more than one empty line in a row.
pub open spec fn cleaned_text(lines: Seq<Seq<char>>, matches: Seq<Seq<Seq<Option<Span>>>>) -> Seq<
    char,
> {
    let kept = cleaned_lines(lines, matches, lines.len() as int);
    runs_replaced(joined(kept, seq!['\n'], kept.len() as int), RunKind::LineFeed, 3, "\n\n"@)
}

fn count_plain(t: &Vec<char>) -> (r: usize)
    ensures
        r == plain_count(t@, t@.len() as int),
        r <= t@.len(),
{
    let mut r: usize = 0;
    let mut n: usize = 0;
    while n < t.len()
        invariant
            n <= t.len(),
            r == plain_count(t@, n as int),
            r <= n,
        decreases t.len() - n,
    {
        if is_alphanumeric(t[n]) || is_whitespace(t[n]) {
            r += 1;
        }
        n += 1;
    }
    r
}

fn only_alphanumeric(t: &Vec<char>) -> (r: bool)
    ensures
        r == all_alphanumeric(t@, t@.len() as int),
{
    let mut ok = true;
    let mut k: usize = 0;
    while k < t.len()
        invariant
            k <= t.len(),
            ok == all_alphanumeric(t@, k as int),
        decreases t.len() - k,
    {
        if !is_alphanumeric(t[k]) {
            ok = false;
        }
        k += 1;
    }
    ok
}

fn tidy(t: &Vec<char>) -> (r: Vec<char>)
    ensures
        r@ == tidied(t@),
{
    let a = replace_runs(t, RunKind::FullStop, 4, &chars_of("..."));
    let b = replace_runs(&a, RunKind::Hyphen, 3, &chars_of("\u{e2}\u{20ac}\u{201d}"));
    let c = replace_runs(&b, RunKind::Asterisk, 3, &chars_of(""));
    replace_runs(&c, RunKind::WhiteSpace, 3, &chars_of("  "))
}

fn clean_line(line: &Vec<char>, has_filler: bool) -> (r: Option<Vec<char>>)
    ensures
        match cleaned_line(line@, has_filler) {
            Some(l) => r matches Some(v) && v@ == l,
            None => r is None,
        },
{
    let t = trim_chars(line);
    if t.len() == 0 {
        return Some(t);
    }
    let head = chars_of("--- Page");
    let tail = chars_of("---");
    if head.len() <= t.len() && matches_at(&t, &head, 0) && tail.len() <= t.len() && matches_at(
        &t,
        &tail,
        t.len() - tail.len(),
    ) {
        proof {
            reveal_strlit("---");
        }
        return Some(t);
    }
    proof {
        reveal_strlit("---");
        reveal_strlit("--- Page");
    }
    if has_filler {
        return None;
    }
    let plain = count_plain(&t);
    if t.len() > 5 && (t.len() - plain) as u128 * 10 > 4 * (t.len() as u128) {
        return None;
    }
    let bytes = string_of(&t);
    if bytes.as_str().as_bytes().len() < 3 && !only_alphanumeric(&t) {
        return None;
    }
    let c = tidy(&t);
    if trim_chars(&c).len() > 0 {
        Some(c)
    } else {
        None
    }
}

/// The lines of a text, each without the white space around it.
pub open spec fn trimmed_lines(lines: Seq<Seq<char>>) -> Seq<Seq<char>> {
    lines.map_values(|l: Seq<char>| trimmed(l))
}

/// Tidies recognised lines, given for each line the matches of the
/// filler pattern in it.
pub fn clean_from_lines(lines: &Vec<String>, matches: &Vec<Vec<Match>>) -> (r: String)
    requires
        lines@.len() == matches@.len(),
    ensures
        r@ == cleaned_text(texts_of(lines@), line_match_views(matches@)),
{
    let ghost lv = texts_of(lines@);
    let ghost mv = line_match_views(matches@);
    let mut text: Vec<char> = Vec::new();
    let mut kept: Ghost<Seq<Seq<char>>> = Ghost(Seq::empty());
    let mut count: usize = 0;
    let mut n: usize = 0;
    proof {
        assert(joined(kept@, seq!['\n'], 0) =~= Seq::<char>::empty());
    }
    while n < lines.len()
        invariant
            n <= lines.len(),
            lines@.len() == matches@.len(),
            lv == texts_of(lines@),
            mv == line_match_views(matches@),
            kept@ == cleaned_lines(lv, mv, n as int),
            count == kept@.len(),
            count <= n,
            text@ == joined(kept@, seq!['\n'], kept@.len() as int),
        decreases lines.len() - n,
    {
        let line = chars_of(lines[n].as_str());
        assert(lv[n as int] == line@);
        assert(mv[n as int] == match_views(matches@[n as int]@));
        assert(mv[n as int].len() == matches@[n as int]@.len());
        match clean_line(&line, matches[n].len() > 0) {
            Some(l) => {
                let ghost before = kept@;
                if count > 0 {
                    text.push('\n');
                }
                let ghost joined_before = text@;
                let mut k: usize = 0;
                while k < l.len()
                    invariant
                        k <= l.len(),
                        text@ == joined_before + l@.take(k as int),
                    decreases l.len() - k,
                {
                    text.push(l[k]);
                    proof {
                        assert(l@.take(k + 1) =~= l@.take(k as int).push(l@[k as int]));
                        assert(joined_before + l@.take(k + 1) =~= (joined_before + l@.take(
                            k as int,
                        )).push(l@[k as int]));
                    }
                    k += 1;
                }
                proof {
                    assert(l@.take(l@.len() as int) =~= l@);
                    kept@ = before.push(l@);
                    let now = kept@;
                    assert(now.len() == before.len() + 1);
                    assert(now[now.len() - 1] == l@);
                    lemma_joined_prefix(before, now, seq!['\n'], before.len() as int);
                    if before.len() == 0 {
                        assert(joined(before, seq!['\n'], 0) =~= Seq::<char>::empty());
                        assert(text@ =~= joined(now, seq!['\n'], 1));
                    } else {
                        assert(text@ =~= joined(now, seq!['\n'], before.len() as int) + seq!['\n']
                            + l@);
                    }
                }
                count += 1;
            },
            None => {},
        }
        n += 1;
    }
    let squeezed = replace_runs(&text, RunKind::LineFeed, 3, &chars_of("\n\n"));
    string_of(&squeezed)
}

proof fn lemma_joined_prefix(a: Seq<Seq<char>>, b: Seq<Seq<char>>, sep: Seq<char>, n: int)
    requires
        0 <= n <= a.len(),
        n <= b.len(),
        forall|i: int| 0 <= i < n ==> a[i] == b[i],
    ensures
        joined(a, sep, n) == joined(b, sep, n),
    decreases n,
{
    if n > 1 {
        lemma_joined_prefix(a, b, sep, n - 1);
    }
}

/// Tidies the text that text recognition gives.
pub fn clean_ocr_text(text: &str) -> (r: String)
    ensures
        r@ == cleaned_text(
            lines_of(text@),
            matches_in_lines(filler_pattern(), trimmed_lines(lines_of(text@))),
        ),
{
    let all = lines(text);
    let mut stripped: Vec<String> = Vec::new();
    let mut i: usize = 0;
    while i < all.len()
        invariant
            i <= all.len(),
            texts_of(stripped@) == trimmed_lines(texts_of(all@)).take(i as int),
        decreases all.len() - i,
    {
        let ghost before = stripped@;
        stripped.push(crate::text::trim(all[i].as_str()));
        proof {
            let want = trimmed_lines(texts_of(all@));
            assert(texts_of(all@)[i as int] == all@[i as int]@);
            assert(texts_of(stripped@) =~= texts_of(before).push(want[i as int]));
            assert(want.take(i + 1) =~= want.take(i as int).push(want[i as int]));
        }
        i += 1;
    }
    proof {
        let want = trimmed_lines(texts_of(all@));
        assert(want.take(all@.len() as int) =~= want);
        assert(texts_of(all@).len() == all@.len());
    }
    let matches = find_in_lines(
        "(?i)lorem\\s+ipsum|dolor\\s+sit\\s+amet|consectetur\\s+adipiscing",
        &stripped,
    );
    clean_from_lines(&all, &matches)
}

} // verus!
