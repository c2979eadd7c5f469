//! The texts of the notifications that the knowledge base shows.
//!
//! Showing them is the caller's part.

use vstd::prelude::*;
use vstd::string::StringExecFns;
use vstd::utf8::{decode_utf8, encode_utf8};
use crate::chunker::{floor_boundary, slice_str, Chunker};
use crate::text::{chars_of, decimal, joined, matches_at, occurs_at, push_decimal, subvec};

verus! {

/// The identifier under which the application registers with the
/// operating system for notifications.
pub const AUMID: &'static str = "com.recallos.app";

/// The prefix that some platforms put before a long path.
pub open spec fn long_path_prefix() -> Seq<char> {
    "\\\\?\\"@
}

/// A path without the long-path prefix, if it has one.
pub open spec fn without_long_path_prefix(path: Seq<char>) -> Seq<char> {
    if occurs_at(path, long_path_prefix(), 0) {
        path.subrange(long_path_prefix().len() as int, path.len() as int)
    } else {
        path
    }
}

/// The first `max_len` bytes of a text, cut back to a whole character.
pub open spec fn byte_prefix(text: Seq<char>, max_len: int) -> Seq<char> {
    let bytes = encode_utf8(text);
    decode_utf8(bytes.subrange(0, floor_boundary(bytes, max_len)))
}

/// A text shortened to fit `max_len` bytes: as it stands where it fits,
/// else cut three bytes short of `max_len`, back to a whole character,
/// with three full stops behind.
pub open spec fn truncated(text: Seq<char>, max_len: int) -> Seq<char> {
    if encode_utf8(text).len() > max_len {
        byte_prefix(
            text,
            if max_len >= 3 {
                max_len - 3
            } else {
                0
            },
        ) + "..."@
    } else {
        text
    }
}

/// The first `max_len` bytes of `text`, cut back to a whole character.
pub fn prefix_of(text: &str, max_len: usize) -> (r: &str)
    ensures
        r@ == byte_prefix(text@, max_len as int),
{
    let end = Chunker::floor_char_boundary(text, max_len);
    proof {
        vstd::utf8::encode_utf8_valid_utf8(text@);
        vstd::utf8::is_char_boundary_start_end_of_seq(encode_utf8(text@));
    }
    slice_str(text, 0, end)
}

/// The titles of the first three related documents, each shortened to
/// fit 15 bytes.
pub open spec fn short_titles(titles: Seq<String>) -> Seq<Seq<char>> {
    Seq::new(
        if titles.len() <= 3 {
            titles.len()
        } else {
            3nat
        },
        |i: int| truncated(titles[i]@, 15),
    )
}

/// Builds the texts of notifications.
#[derive(Debug, Clone)]
pub struct NotificationBuilder {
    icon_path: Option<String>,
}

impl NotificationBuilder {
    /// The path of the icon, as given.
    pub closed spec fn icon(self) -> Option<String> {
        self.icon_path
    }

    /// A builder that shows the icon at `icon_path`, if any.
    pub fn new(icon_path: Option<String>) -> (b: NotificationBuilder)
        ensures
            b.icon() == icon_path,
    {
        NotificationBuilder { icon_path }
    }

    /// Removes the long-path prefix from a path, if it has one.
    pub fn normalize_path(path: &str) -> (r: String)
        ensures
            r@ == without_long_path_prefix(path@),
    {
        let chars = chars_of(path);
        let prefix = chars_of("\\\\?\\");
        if prefix.len() <= chars.len() && matches_at(&chars, &prefix, 0) {
            let rest = subvec(&chars, prefix.len(), chars.len());
            crate::text::string_of(&rest)
        } else {
            path.to_owned()
        }
    }

    /// The path of the icon to show, without a long-path prefix.
    pub fn get_icon(&self) -> (r: Option<String>)
        ensures
            match self.icon() {
                Some(p) => r matches Some(q) && q@ == without_long_path_prefix(p@),
                None => r is None,
            },
    {
        match &self.icon_path {
            Some(p) => Some(NotificationBuilder::normalize_path(p.as_str())),
            None => None,
        }
    }

    /// Shortens a text to fit `max_len` bytes.
    pub fn truncate(text: &str, max_len: usize) -> (r: String)
        ensures
            r@ == truncated(text@, max_len as int),
    {
        if text.as_bytes().len() > max_len {
            let keep = if max_len >= 3 {
                max_len - 3
            } else {
                0
            };
            let mut r = String::new();
            r.append(prefix_of(text, keep));
            r.append("...");
            proof {
                assert(r@ =~= byte_prefix(text@, keep as int) + "..."@);
            }
            r
        } else {
            text.to_owned()
        }
    }

    /// The headline of the notification for `count` related documents.
    pub fn related_headline(count: usize) -> (r: String)
        ensures
            r@ == decimal(count as nat) + if count != 1 {
                " Matches"@
            } else {
                " Match"@
            },
    {
        let mut r = String::new();
        push_decimal(&mut r, count as u64);
        if count != 1 {
            r.append(" Matches");
        } else {
            r.append(" Match");
        }
        proof {
            assert(r@ =~= decimal(count as nat) + if count != 1 {
                " Matches"@
            } else {
                " Match"@
            });
        }
        r
    }

    /// The lines of the notification that related documents were found
    /// for a document: the document's title, cut to 35 bytes, and the
    /// titles of the first three related documents, each cut to 15 bytes,
    /// with a middle dot between them.
    pub fn related_lines(doc_title: &str, related_titles: &Vec<String>) -> (r: (String, String))
        ensures
            r.0@ == truncated(doc_title@, 35),
            r.1@ == joined(
                short_titles(related_titles@),
                " \u{b7} "@,
                short_titles(related_titles@).len() as int,
            ),
    {
        let line1 = NotificationBuilder::truncate(doc_title, 35);
        let n = if related_titles.len() <= 3 {
            related_titles.len()
        } else {
            3
        };
        let ghost shorts = short_titles(related_titles@);
        let mut line2 = String::new();
        let mut i: usize = 0;
        while i < n
            invariant
                i <= n <= related_titles.len(),
                n == shorts.len(),
                shorts == short_titles(related_titles@),
                line2@ == joined(shorts, " \u{b7} "@, i as int),
            decreases n - i,
        {
            if i > 0 {
                line2.append(" \u{b7} ");
            }
            line2.append(NotificationBuilder::truncate(related_titles[i].as_str(), 15).as_str());
            proof {
                assert(shorts[i as int] == truncated(related_titles@[i as int]@, 15));
                if i == 0 {
                    assert(joined(shorts, " \u{b7} "@, 0) =~= Seq::<char>::empty());
                    assert(line2@ =~= joined(shorts, " \u{b7} "@, 1));
                } else {
                    assert(line2@ =~= joined(shorts, " \u{b7} "@, i as int) + " \u{b7} "@
                        + shorts[i as int]);
                }
            }
            i += 1;
        }
        (line1, line2)
    }

    /// The second line of the notification that a document was indexed.
    pub fn segments_line(chunk_count: usize) -> (r: String)
        ensures
            r@ == decimal(chunk_count as nat) + " segments"@,
    {
        let mut r = String::new();
        push_decimal(&mut r, chunk_count as u64);
        r.append(" segments");
        proof {
            assert(r@ =~= decimal(chunk_count as nat) + " segments"@);
        }
        r
    }
}

} // verus!
