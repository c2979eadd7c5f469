//! Text recognition by the model: how its reply is cut into pages, and
//! how the pages of a document are put together.
//!
//! Rendering pages and asking the model are the caller's part.

use vstd::prelude::*;
use vstd::string::StringExecFns;
use vstd::utf8::encode_utf8;
use crate::chunker::texts_of;
use crate::citations::{parse_number, parsed_number};
use crate::error::RecallError;
use crate::extractor::{find_in_lines, line_match_views, lines, matches_in_lines};
use crate::lines::lines_of;
use crate::patterns::{match_views, Match, Span};
use crate::text::{decimal, push_decimal, trim, trimmed};

verus! {

/// The pattern of the marker that opens a page in the model's reply.
pub open spec fn page_marker_pattern() -> Seq<char> {
    "\\[PAGE\\s*(\\d+)\\]"@
}

/// A recognised page: its number and its text.
pub type PageText = (u32, String);

/// What a line's first match of the page marker pattern says: nothing
/// where the line has no marker, else the number of the page that the
/// marker opens, if it writes one.
pub open spec fn marker_in(bytes: Seq<u8>, matches: Seq<Seq<Option<Span>>>) -> Option<Option<u32>> {
    if matches.len() == 0 {
        None
    } else if matches[0].len() < 2 {
        Some(None)
    } else {
        match matches[0][1] {
            Some(g) => match parsed_number(bytes, g.start as int, g.end as int, u32::MAX as int) {
                Some(v) => Some(Some(v as u32)),
                None => Some(None),
            },
            None => Some(None),
        }
    }
}

/// What is known of a reply after some of its lines: the pages that are
/// closed, and the number and the text of the page that is open.
pub struct PagesState {
    pub pages: Seq<(u32, Seq<char>)>,
    pub page: Option<u32>,
    pub text: Seq<char>,
}

/// The pages once the open page is closed: it counts if it has a number
/// and its text is not empty but for white space.
pub open spec fn with_open_page(state: PagesState) -> Seq<(u32, Seq<char>)> {
    match state.page {
        Some(n) => if trimmed(state.text).len() > 0 {
            state.pages.push((n, trimmed(state.text)))
        } else {
            state.pages
        },
        None => state.pages,
    }
}

/// The state after one more line. A marker closes the open page and
/// opens the page it names. Any other line is added to the open page, if
/// there is one, with a line feed behind it.
pub open spec fn after_page_line(
    state: PagesState,
    line: Seq<char>,
    matches: Seq<Seq<Option<Span>>>,
) -> PagesState {
    match marker_in(encode_utf8(line), matches) {
        Some(page) => PagesState {
            pages: with_open_page(state),
            page: page,
            text: Seq::empty(),
        },
        None => if state.page is Some {
            PagesState { pages: state.pages, page: state.page, text: state.text + line + seq!['\n'] }
        } else {
            state
        },
    }
}

/// The state after the first `n` lines.
pub open spec fn after_page_lines(
    lines: Seq<Seq<char>>,
    matches: Seq<Seq<Seq<Option<Span>>>>,
    n: int,
) -> PagesState
    decreases n,
{
    if n <= 0 || n > lines.len() || n > matches.len() {
        PagesState { pages: Seq::empty(), page: None, text: Seq::empty() }
    } else {
        after_page_line(after_page_lines(lines, matches, n - 1), lines[n - 1], matches[n - 1])
    }
}

/// Pages as pairs of number and text.
pub open spec fn page_views(pages: Seq<PageText>) -> Seq<(u32, Seq<char>)> {
    pages.map_values(|p: PageText| (p.0, p.1@))
}

fn marker_of(line: &str, matches: &Vec<Match>) -> (r: Option<Option<u32>>)
    ensures
        r == marker_in(encode_utf8(line@), match_views(matches@)),
{
    if matches.len() == 0 {
        return None;
    }
    let m = &matches[0];
    assert(match_views(matches@)[0] == m@);
    if m.len() < 2 {
        return Some(None);
    }
    match m[1] {
        Some(g) => match parse_number(line.as_bytes(), g.start, g.end, u32::MAX as u64) {
            Some(v) => Some(Some(v as u32)),
            None => Some(None),
        },
        None => Some(None),
    }
}

fn close_page(pages: &mut Vec<PageText>, page: Option<u32>, text: &String)
    ensures
        page_views(final(pages)@) == with_open_page(
            PagesState { pages: page_views(old(pages)@), page: page, text: text@ },
        ),
{
    match page {
        Some(n) => {
            let t = trim(text.as_str());
            if !t.as_str().is_empty() {
                pages.push((n, t));
                proof {
                    assert(page_views(pages@) =~= page_views(old(pages)@).push(
                        (n, trimmed(text@)),
                    ));
                }
            }
        },
        None => {},
    }
}

/// Reads the pages of a reply off its lines, given for each line the
/// matches of the page marker pattern in it.
pub fn pages_from_lines(lines: &Vec<String>, matches: &Vec<Vec<Match>>) -> (r: Vec<PageText>)
    requires
        lines@.len() == matches@.len(),
    ensures
        page_views(r@) == with_open_page(
            after_page_lines(texts_of(lines@), line_match_views(matches@), lines@.len() as int),
        ),
{
    let ghost lv = texts_of(lines@);
    let ghost mv = line_match_views(matches@);
    let mut pages: Vec<PageText> = Vec::new();
    let mut page: Option<u32> = None;
    let mut text = String::new();
    let mut n: usize = 0;
    proof {
        assert(page_views(pages@) =~= Seq::<(u32, Seq<char>)>::empty());
    }
    while n < lines.len()
        invariant
            n <= lines.len(),
            lines@.len() == matches@.len(),
            lv == texts_of(lines@),
            mv == line_match_views(matches@),
            page_views(pages@) == after_page_lines(lv, mv, n as int).pages,
            page == after_page_lines(lv, mv, n as int).page,
            text@ == after_page_lines(lv, mv, n as int).text,
        decreases lines.len() - n,
    {
        let line = lines[n].as_str();
        assert(lv[n as int] == line@);
        assert(mv[n as int] == match_views(matches@[n as int]@));
        match marker_of(line, &matches[n]) {
            Some(next_page) => {
                close_page(&mut pages, page, &text);
                page = next_page;
                text = String::new();
            },
            None => {
                if page.is_some() {
                    text.append(line);
                    text.append("\n");
                    proof {
                        reveal_strlit("\n");
                        assert(text@ =~= after_page_lines(lv, mv, n as int).text + line@
                            + seq!['\n']);
                    }
                }
            },
        }
        n += 1;
    }
    close_page(&mut pages, page, &text);
    pages
}

/// Cuts the model's reply to a batch of pages into the pages it
/// recognised.
pub fn parse_page_markers(content: &str) -> (r: Vec<PageText>)
    ensures
        page_views(r@) == with_open_page(
            after_page_lines(
                lines_of(content@),
                matches_in_lines(page_marker_pattern(), lines_of(content@)),
                lines_of(content@).len() as int,
            ),
        ),
{
    let all = lines(content);
    let matches = find_in_lines("\\[PAGE\\s*(\\d+)\\]", &all);
    proof {
        assert(texts_of(all@).len() == all@.len());
    }
    pages_from_lines(&all, &matches)
}

/// What is kept of a page that was recognised on its own, after the
/// batch it belongs to had failed: its text, if the recognition worked
/// and the text is not empty but for white space.
pub fn keep_single_page(text: std::result::Result<String, RecallError>) -> (r: Option<String>)
    ensures
        r == match text {
            Ok(t) => if trimmed(t@).len() > 0 {
                Some(t)
            } else {
                None
            },
            Err(_) => None,
        },
{
    match text {
        Ok(t) => {
            if trim(t.as_str()).as_str().is_empty() {
                None
            } else {
                Some(t)
            }
        },
        Err(_) => None,
    }
}

/// `p` put into a list that is ordered by rising page number, behind
/// every page whose number is not greater.
pub open spec fn insert_page(sorted: Seq<(u32, Seq<char>)>, p: (u32, Seq<char>)) -> Seq<
    (u32, Seq<char>),
>
    decreases sorted.len(),
{
    if sorted.len() == 0 {
        seq![p]
    } else if sorted.last().0 <= p.0 {
        sorted.push(p)
    } else {
        insert_page(sorted.drop_last(), p).push(sorted.last())
    }
}

/// The first `n` pages ordered by rising number; pages of the same
/// number keep their order.
pub open spec fn pages_in_order(pages: Seq<(u32, Seq<char>)>, n: int) -> Seq<(u32, Seq<char>)>
    decreases n,
{
    if n <= 0 || n > pages.len() {
        Seq::empty()
    } else {
        insert_page(pages_in_order(pages, n - 1), pages[n - 1])
    }
}

/// The line that stands between two pages of a document.
pub open spec fn page_break(number: u32) -> Seq<char> {
    "\n\n--- Page "@ + decimal(number as nat) + " ---\n\n"@
}

/// The text of the first `n` pages: each page behind what came before,
/// with a page break between them unless nothing came before.
pub open spec fn pages_text(pages: Seq<(u32, Seq<char>)>, n: int) -> Seq<char>
    decreases n,
{
    if n <= 0 || n > pages.len() {
        Seq::empty()
    } else {
        let before = pages_text(pages, n - 1);
        if before.len() > 0 {
            before + page_break(pages[n - 1].0) + pages[n - 1].1
        } else {
            pages[n - 1].1
        }
    }
}

proof fn lemma_insert_page_at(sorted: Seq<(u32, Seq<char>)>, p: (u32, Seq<char>), at: int)
    requires
        0 <= at <= sorted.len(),
        forall|j: int| at <= j < sorted.len() ==> sorted[j].0 > p.0,
        at > 0 ==> sorted[at - 1].0 <= p.0,
    ensures
        insert_page(sorted, p) == sorted.insert(at, p),
    decreases sorted.len(),
{
    if sorted.len() == 0 {
        assert(seq![p] =~= sorted.insert(at, p));
    } else if at == sorted.len() {
        assert(sorted.push(p) =~= sorted.insert(at, p));
    } else {
        let front = sorted.drop_last();
        lemma_insert_page_at(front, p, at);
        assert(front.insert(at, p).push(sorted.last()) =~= sorted.insert(at, p));
    }
}

/// Puts recognised pages in the order of their numbers.
pub fn sort_pages(pages: Vec<PageText>) -> (r: Vec<PageText>)
    ensures
        page_views(r@) == pages_in_order(page_views(pages@), pages@.len() as int),
{
    let ghost views = page_views(pages@);
    let mut sorted: Vec<PageText> = Vec::new();
    let mut n: usize = 0;
    proof {
        assert(page_views(sorted@) =~= pages_in_order(views, 0));
    }
    while n < pages.len()
        invariant
            n <= pages.len(),
            views == page_views(pages@),
            page_views(sorted@) == pages_in_order(views, n as int),
        decreases pages.len() - n,
    {
        let p: PageText = (pages[n].0, pages[n].1.clone());
        let ghost before = sorted@;
        let mut at: usize = sorted.len();
        while at > 0 && sorted[at - 1].0 > p.0
            invariant
                at <= sorted.len(),
                forall|j: int| at <= j < sorted.len() ==> sorted@[j].0 > p.0,
            decreases at,
        {
            at -= 1;
        }
        proof {
            assert(views[n as int] == (p.0, p.1@));
            assert forall|j: int| at <= j < before.len() implies page_views(before)[j].0 > p.0 by {
                assert(page_views(before)[j].0 == before[j].0);
            }
            if at > 0 {
                assert(page_views(before)[at - 1].0 == before[at - 1].0);
            }
            lemma_insert_page_at(page_views(before), (p.0, p.1@), at as int);
        }
        sorted.insert(at, p);
        proof {
            assert(page_views(sorted@) =~= page_views(before).insert(at as int, (p.0, p.1@)));
        }
        n += 1;
    }
    sorted
}

/// Puts the recognised pages of a document together: in the order of
/// their numbers, with a page break before each page but the first.
pub fn combine_pages(pages: Vec<PageText>) -> (r: String)
    ensures
        ({
            let ordered = pages_in_order(page_views(pages@), pages@.len() as int);
            r@ == pages_text(ordered, ordered.len() as int)
        }),
{
    let sorted = sort_pages(pages);
    let ghost ordered = page_views(sorted@);
    let mut all = String::new();
    let mut n: usize = 0;
    while n < sorted.len()
        invariant
            n <= sorted.len(),
            ordered == page_views(sorted@),
            all@ == pages_text(ordered, n as int),
        decreases sorted.len() - n,
    {
        proof {
            assert(ordered[n as int] == (sorted@[n as int].0, sorted@[n as int].1@));
        }
        if !all.as_str().is_empty() {
            all.append("\n\n--- Page ");
            push_decimal(&mut all, sorted[n].0 as u64);
            all.append(" ---\n\n");
            all.append(sorted[n].1.as_str());
            proof {
                assert(all@ =~= pages_text(ordered, n as int) + page_break(ordered[n as int].0)
                    + ordered[n as int].1);
            }
        } else {
            all.append(sorted[n].1.as_str());
            proof {
                assert(all@ =~= ordered[n as int].1);
            }
        }
        n += 1;
    }
    proof {
        assert(ordered.len() == sorted@.len());
    }
    all
}

} // verus!
