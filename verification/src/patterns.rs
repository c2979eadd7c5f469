//! Matching of regular expressions.

use vstd::prelude::*;

verus! {

/// A stretch of a text, in byte offsets: from `start` up to, not
/// including, `end`.
#[derive(Debug, Clone, Copy, PartialEq, Eq, Structural)]
pub struct Span {
    pub start: usize,
    pub end: usize,
}

/// One match of a pattern: the stretch of each of its groups, the whole
/// match being group 0; `None` for a group that took no part.
pub type Match = Vec<Option<Span>>;

/// The matches of a pattern in a text, as sequences.
pub open spec fn match_views(matches: Seq<Match>) -> Seq<Seq<Option<Span>>> {
    matches.map_values(|m: Match| m@)
}

/// The successive matches of a regular expression in a text that do not
/// overlap, leftmost first; none for a pattern that is no regular
/// expression.
pub uninterp spec fn regex_matches(pattern: Seq<char>, text: Seq<char>) -> Seq<Seq<Option<Span>>>;

/// Finds the matches of `pattern` in `text`.
///
/// Wraps `Regex::new` and `Regex::captures_iter` of `regex`, and
/// `Match::start` and `Match::end` for each group of each match. What
/// matches is decided by the regular expression engine and is not
/// written out here: the contract only names the result. A pattern that
/// does not compile gives no match.
#[verifier::external_body]
pub(crate) fn find_matches(pattern: &str, text: &str) -> (r: Vec<Match>)
    ensures
        match_views(r@) == regex_matches(pattern@, text@),
{
    let mut out = Vec::new();
    if let Ok(re) = regex::Regex::new(pattern) {
        for caps in re.captures_iter(text) {
            let mut groups = Vec::new();
            for group in caps.iter() {
                groups.push(match group {
                    Some(m) => Some(Span { start: m.start(), end: m.end() }),
                    None => None,
                });
            }
            out.push(groups);
        }
    }
    out
}

} // verus!
