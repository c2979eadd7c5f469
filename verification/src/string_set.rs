//! A set of strings.

use vstd::prelude::*;
use crate::text::str_eq;

verus! {

/// The strings among the first `n` of `v`, as a set.
pub open spec fn strings_among(v: Seq<String>, n: int) -> Set<Seq<char>>
    decreases n,
{
    if n <= 0 || n > v.len() {
        Set::empty()
    } else {
        strings_among(v, n - 1).insert(v[n - 1]@)
    }
}

proof fn lemma_strings_among_prefix(v: Seq<String>, w: Seq<String>, n: int)
    requires
        0 <= n <= v.len(),
        n <= w.len(),
        forall|i: int| 0 <= i < n ==> v[i] == w[i],
    ensures
        strings_among(v, n) == strings_among(w, n),
    decreases n,
{
    if n > 0 {
        lemma_strings_among_prefix(v, w, n - 1);
    }
}

/// A set of strings.
#[derive(Debug, Clone)]
pub struct StringSet {
    items: Vec<String>,
}

impl StringSet {
    /// The strings in the set.
    pub closed spec fn view(self) -> Set<Seq<char>> {
        strings_among(self.items@, self.items@.len() as int)
    }

    /// The empty set.
    pub fn new() -> (s: StringSet)
        ensures
            s.view() == Set::<Seq<char>>::empty(),
    {
        StringSet { items: Vec::new() }
    }

    /// Whether `item` is in the set.
    pub fn contains(&self, item: &str) -> (r: bool)
        ensures
            r == self.view().contains(item@),
    {
        let mut i: usize = 0;
        while i < self.items.len()
            invariant
                i <= self.items.len(),
                !strings_among(self.items@, i as int).contains(item@),
            decreases self.items.len() - i,
        {
            if str_eq(self.items[i].as_str(), item) {
                proof {
                    lemma_contains_later(self.items@, i as int, self.items@.len() as int);
                }
                return true;
            }
            i += 1;
        }
        false
    }

    /// Puts `item` into the set.
    pub fn insert(&mut self, item: &str)
        ensures
            final(self).view() == old(self).view().insert(item@),
    {
        let ghost before = self.items@;
        self.items.push(item.to_owned());
        proof {
            lemma_strings_among_prefix(before, self.items@, before.len() as int);
        }
    }

    /// Takes `item` out of the set.
    pub fn remove(&mut self, item: &str)
        ensures
            final(self).view() == old(self).view().remove(item@),
    {
        let ghost before = self.items@;
        let mut kept: Vec<String> = Vec::new();
        let mut i: usize = 0;
        proof {
            assert(strings_among(kept@, 0) =~= strings_among(before, 0).remove(item@));
        }
        while i < self.items.len()
            invariant
                i <= self.items.len(),
                self.items@ == before,
                strings_among(kept@, kept@.len() as int) == strings_among(before, i as int).remove(
                    item@,
                ),
            decreases self.items.len() - i,
        {
            let ghost prev = kept@;
            if !str_eq(self.items[i].as_str(), item) {
                kept.push(self.items[i].clone());
                proof {
                    lemma_strings_among_prefix(prev, kept@, prev.len() as int);
                    assert(strings_among(kept@, kept@.len() as int) =~= strings_among(
                        before,
                        i + 1,
                    ).remove(item@));
                }
            } else {
                proof {
                    assert(strings_among(kept@, kept@.len() as int) =~= strings_among(
                        before,
                        i + 1,
                    ).remove(item@));
                }
            }
            i += 1;
        }
        self.items = kept;
    }

    /// Empties the set.
    pub fn clear(&mut self)
        ensures
            final(self).view() == Set::<Seq<char>>::empty(),
    {
        self.items = Vec::new();
    }
}

proof fn lemma_contains_later(v: Seq<String>, i: int, n: int)
    requires
        0 <= i < n <= v.len(),
    ensures
        strings_among(v, n).contains(v[i]@),
    decreases n,
{
    if i < n - 1 {
        lemma_contains_later(v, i, n - 1);
    }
}

} // verus!
