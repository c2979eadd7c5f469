//! Lines of text, and the replacement of one text by another.

use vstd::prelude::*;
use crate::text::{matches_at, occurs_at};

verus! {

/// The index of the first line feed at or after `from`, or the length of
/// `s`.
pub open spec fn line_end(s: Seq<char>, from: int) -> int
    decreases s.len() - from,
{
    if 0 <= from < s.len() && s[from] != '\n' {
        line_end(s, from + 1)
    } else {
        from
    }
}

/// The line of `s` from `from` to `end`: without the carriage return
/// before the line feed that ends it, if it is ended by the two.
pub open spec fn line_at(s: Seq<char>, from: int, end: int) -> Seq<char> {
    if from < end < s.len() && s[end - 1] == '\r' {
        s.subrange(from, end - 1)
    } else {
        s.subrange(from, end)
    }
}

/// The lines of `s` from index `from` on. A line ends with a line feed,
/// or a carriage return and a line feed, or the end of the text; what
/// ends a line is no part of it.
pub open spec fn lines_from(s: Seq<char>, from: int) -> Seq<Seq<char>>
    decreases s.len() - from,
{
    let end = line_end(s, from);
    if from < 0 || from >= s.len() || end < from || end > s.len() {
        Seq::empty()
    } else {
        seq![line_at(s, from, end)] + if end < s.len() {
            lines_from(s, end + 1)
        } else {
            Seq::empty()
        }
    }
}

/// The lines of `s`.
pub open spec fn lines_of(s: Seq<char>) -> Seq<Seq<char>> {
    lines_from(s, 0)
}

/// The views of a list of lines.
pub open spec fn line_views(lines: Seq<Vec<char>>) -> Seq<Seq<char>> {
    lines.map_values(|l: Vec<char>| l@)
}

/// Splits text into its lines.
pub fn split_lines(s: &Vec<char>) -> (r: Vec<Vec<char>>)
    ensures
        line_views(r@) == lines_of(s@),
{
    let mut r: Vec<Vec<char>> = Vec::new();
    let mut from: usize = 0;
    proof {
        assert(line_views(r@) + lines_from(s@, 0) =~= lines_from(s@, 0));
    }
    while from < s.len()
        invariant
            from <= s.len(),
            line_views(r@) + lines_from(s@, from as int) == lines_of(s@),
        decreases s.len() - from,
    {
        let ghost start = from as int;
        let ghost before = r@;
        let mut end: usize = from;
        while end < s.len() && s[end] != '\n'
            invariant
                from <= end <= s.len(),
                line_end(s@, from as int) == line_end(s@, end as int),
            decreases s.len() - end,
        {
            end += 1;
        }
        let stop = if end < s.len() && end > from && s[end - 1] == '\r' {
            end - 1
        } else {
            end
        };
        let line = crate::text::subvec(s, from, stop);
        r.push(line);
        proof {
            assert(line_views(r@) =~= line_views(before).push(line_at(s@, start, end as int)));
            assert(lines_from(s@, end + 1) =~= if end < s@.len() {
                lines_from(s@, end + 1)
            } else {
                Seq::<Seq<char>>::empty()
            });
            assert(lines_from(s@, start) == seq![line_at(s@, start, end as int)] + lines_from(
                s@,
                end + 1,
            ));
            assert(line_views(before) + (seq![line_at(s@, start, end as int)] + lines_from(
                s@,
                end + 1,
            )) =~= line_views(before).push(line_at(s@, start, end as int)) + lines_from(
                s@,
                end + 1,
            ));
        }
        if end < s.len() {
            from = end + 1;
        } else {
            from = end;
            proof {
                assert(lines_from(s@, end + 1) =~= lines_from(s@, end as int));
            }
        }
    }
    proof {
        assert(lines_from(s@, from as int) =~= Seq::<Seq<char>>::empty());
        assert(line_views(r@) + Seq::<Seq<char>>::empty() =~= line_views(r@));
    }
    r
}

/// `s` from index `i` on, with each occurrence of `from` replaced by
/// `to`: occurrences are found from left to right and do not overlap.
/// Nothing is replaced where `from` is empty.
pub open spec fn replaced_from(s: Seq<char>, from: Seq<char>, to: Seq<char>, i: int) -> Seq<char>
    decreases s.len() - i,
{
    if i < 0 || i >= s.len() {
        Seq::empty()
    } else if from.len() > 0 && occurs_at(s, from, i) {
        to + replaced_from(s, from, to, i + from.len())
    } else {
        seq![s[i]] + replaced_from(s, from, to, i + 1)
    }
}

/// `s` with each occurrence of `from` replaced by `to`.
pub open spec fn replaced(s: Seq<char>, from: Seq<char>, to: Seq<char>) -> Seq<char> {
    replaced_from(s, from, to, 0)
}

/// Replaces each occurrence of `from` in `s` by `to`.
pub fn replace_all(s: &Vec<char>, from: &Vec<char>, to: &Vec<char>) -> (r: Vec<char>)
    ensures
        r@ == replaced(s@, from@, to@),
{
    let mut r: Vec<char> = Vec::new();
    let mut i: usize = 0;
    proof {
        assert(r@ + replaced_from(s@, from@, to@, 0) =~= replaced(s@, from@, to@));
    }
    while i < s.len()
        invariant
            i <= s.len(),
            r@ + replaced_from(s@, from@, to@, i as int) == replaced(s@, from@, to@),
        decreases s.len() - i,
    {
        let ghost before = r@;
        let ghost at = i as int;
        if from.len() > 0 && from.len() <= s.len() - i && matches_at(s, from, i) {
            let mut k: usize = 0;
            while k < to.len()
                invariant
                    k <= to.len(),
                    r@ == before + to@.take(k as int),
                decreases to.len() - k,
            {
                r.push(to[k]);
                proof {
                    assert(to@.take(k + 1) =~= to@.take(k as int).push(to@[k as int]));
                    assert(before + to@.take(k + 1) =~= (before + to@.take(k as int)).push(
                        to@[k as int],
                    ));
                }
                k += 1;
            }
            proof {
                assert(to@.take(to@.len() as int) =~= to@);
                assert(before + (to@ + replaced_from(s@, from@, to@, at + from@.len())) =~= (
                before + to@) + replaced_from(s@, from@, to@, at + from@.len()));
            }
            i += from.len();
        } else {
            r.push(s[i]);
            proof {
                assert(!(from@.len() > 0 && occurs_at(s@, from@, at)));
                assert(before + (seq![s@[at]] + replaced_from(s@, from@, to@, at + 1)) =~= (
                before.push(s@[at])) + replaced_from(s@, from@, to@, at + 1));
            }
            i += 1;
        }
    }
    proof {
        assert(replaced_from(s@, from@, to@, i as int) =~= Seq::<char>::empty());
        assert(r@ + Seq::<char>::empty() =~= r@);
    }
    r
}

} // verus!
