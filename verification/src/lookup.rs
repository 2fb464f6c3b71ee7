//! The per-run lookup from pull request number to touched lines, and the
//! impact fraction derived from it.

use vstd::prelude::*;
use crate::hunks::TouchedLineMap;

verus! {

/// Mapping from pull request number to that pull request's map of touched
/// lines. Kept as an association list with distinct numbers.
pub struct AggregateLookup {
    pub entries: Vec<(u32, TouchedLineMap)>,
}

/// The map stored for `number`, read from the back of the entry list.
pub open spec fn al_lookup(s: Seq<(u32, TouchedLineMap)>, number: u32) -> Option<TouchedLineMap>
    decreases s.len(),
{
    if s.len() == 0 {
        None
    } else if s.last().0 == number {
        Some(s.last().1)
    } else {
        al_lookup(s.drop_last(), number)
    }
}

/// How many pull requests' maps hold `path`.
pub open spec fn spec_touch_count(s: Seq<(u32, TouchedLineMap)>, path: Seq<char>) -> int
    decreases s.len(),
{
    if s.len() == 0 {
        0
    } else {
        spec_touch_count(s.drop_last(), path) + if s.last().1.spec_touched(path) {
            1int
        } else {
            0int
        }
    }
}

impl AggregateLookup {
    /// Numbers are pairwise distinct and every stored map is well formed.
    pub open spec fn wf(self) -> bool {
        &&& forall|i: int, j: int|
            0 <= i < j < self.entries@.len() ==> self.entries@[i].0 != self.entries@[j].0
        &&& forall|i: int| 0 <= i < self.entries@.len() ==> (#[trigger] self.entries@[i].1).wf()
    }

    /// The map stored for `number`, if any.
    pub open spec fn spec_map_for(self, number: u32) -> Option<TouchedLineMap> {
        al_lookup(self.entries@, number)
    }

    /// The total number of pull requests considered.
    pub open spec fn spec_total(self) -> int {
        self.entries@.len() as int
    }

    /// The impact fraction of `path`, as an exact rational
    /// `(numerator, denominator)`: `1 - touched / total`. An empty lookup has
    /// no pull requests to divide by; every file then counts as untouched and
    /// the fraction is fixed at one, the coldest value.
    pub open spec fn spec_fraction(self, path: Seq<char>) -> (int, int) {
        if self.entries@.len() == 0 {
            (1int, 1int)
        } else {
            (self.spec_total() - spec_touch_count(self.entries@, path), self.spec_total())
        }
    }

    pub fn new() -> (r: AggregateLookup)
        ensures
            r.wf(),
            r.entries@.len() == 0,
            forall|n: u32| (#[trigger] r.spec_map_for(n)) is None,
    {
        AggregateLookup { entries: Vec::new() }
    }

    /// Index of the entry for `number`, if one exists.
    fn get_index(&self, number: u32) -> (r: Option<usize>)
        ensures
            match r {
                Some(i) => i < self.entries@.len() && self.entries@[i as int].0 == number,
                None => forall|j: int|
                    0 <= j < self.entries@.len() ==> self.entries@[j].0 != number,
            },
    {
        let n = self.entries.len();
        let mut i: usize = 0;
        while i < n
            invariant
                n == self.entries@.len(),
                i <= n,
                forall|j: int| 0 <= j < i ==> self.entries@[j].0 != number,
            decreases n - i,
        {
            if self.entries[i].0 == number {
                return Some(i);
            }
            i = i + 1;
        }
        None
    }

    /// Store `map` under `number`, replacing any earlier map for the same
    /// number, as a keyed store would.
    pub fn insert(&mut self, number: u32, map: TouchedLineMap)
        requires
            old(self).wf(),
            map.wf(),
        ensures
            final(self).wf(),
            final(self).spec_map_for(number) == Some(map),
            forall|q: u32|
                q != number ==> #[trigger] final(self).spec_map_for(q) == old(self).spec_map_for(q),
            final(self).entries@.len() == old(self).entries@.len() + (
            if old(self).spec_map_for(number) is Some {
                0int
            } else {
                1int
            }),
    {
        let ghost prior = self.entries@;
        match self.get_index(number) {
            Some(i) => {
                proof {
                    lemma_al_lookup_at_index(prior, number, i as int);
                }
                let _ = self.entries.remove(i);
                self.entries.push((number, map));
                proof {
                    let ghost fore = prior.subrange(0, i as int);
                    let ghost aft = prior.subrange(i + 1, prior.len() as int);
                    assert(prior.remove(i as int) =~= fore + aft);
                    assert(self.entries@ =~= (fore + aft).push((number, map)));
                    assert forall|q: u32| q != number implies #[trigger] al_lookup(
                        self.entries@,
                        q,
                    ) == al_lookup(prior, q) by {
                        assert(self.entries@.drop_last() =~= fore + aft);
                        lemma_al_lookup_add(fore, aft, q);
                        assert(prior =~= fore.push(prior[i as int]) + aft);
                        lemma_al_lookup_add(fore.push(prior[i as int]), aft, q);
                        assert(fore.push(prior[i as int]).drop_last() =~= fore);
                    }
                }
            },
            None => {
                proof {
                    lemma_al_lookup_none_iff(prior, number);
                }
                self.entries.push((number, map));
                proof {
                    assert(self.entries@.drop_last() =~= prior);
                }
            },
        }
    }

    /// The total number of pull requests considered.
    pub fn total(&self) -> (r: usize)
        ensures
            r == self.spec_total(),
    {
        self.entries.len()
    }

    /// The map stored for `number`, if any.
    pub fn map_for<'a>(&'a self, number: u32) -> (r: Option<&'a TouchedLineMap>)
        requires
            self.wf(),
        ensures
            match r {
                Some(m) => self.spec_map_for(number) == Some(*m),
                None => self.spec_map_for(number) is None,
            },
    {
        proof {
            lemma_al_lookup_none_iff(self.entries@, number);
        }
        match self.get_index(number) {
            Some(i) => {
                proof {
                    lemma_al_lookup_at_index(self.entries@, number, i as int);
                }
                Some(&self.entries[i].1)
            },
            None => None,
        }
    }

    /// How many of the pull requests touch `path`.
    pub fn touch_count(&self, path: &String) -> (r: usize)
        requires
            self.wf(),
        ensures
            r == spec_touch_count(self.entries@, path@),
    {
        let n = self.entries.len();
        let mut c: usize = 0;
        let mut i: usize = 0;
        while i < n
            invariant
                self.wf(),
                n == self.entries@.len(),
                i <= n,
                c <= i,
                c == spec_touch_count(self.entries@.take(i as int), path@),
            decreases n - i,
        {
            proof {
                assert(self.entries@.take(i + 1).drop_last() =~= self.entries@.take(i as int));
                assert(self.entries@.take(i + 1).last() == self.entries@[i as int]);
            }
            if self.entries[i].1.contains(path) {
                c = c + 1;
            }
            i = i + 1;
        }
        proof {
            assert(self.entries@.take(n as int) =~= self.entries@);
        }
        c
    }

    /// The impact fraction of `path` as `(numerator, denominator)`:
    /// `1 - touched / total`, or exactly one for an empty lookup. The
    /// fraction always lies in `[0, 1]`: one means no pull request touches
    /// the file, zero means every one does.
    pub fn impact_fraction(&self, path: &String) -> (r: (usize, usize))
        requires
            self.wf(),
        ensures
            (r.0 as int, r.1 as int) == self.spec_fraction(path@),
            r.0 <= r.1,
            r.1 > 0,
    {
        let total = self.entries.len();
        if total == 0 {
            (1, 1)
        } else {
            let touched = self.touch_count(path);
            proof {
                lemma_touch_count_bounds(self.entries@, path@);
            }
            (total - touched, total)
        }
    }
}

/// `al_lookup` finds nothing exactly when no entry carries the number.
pub proof fn lemma_al_lookup_none_iff(s: Seq<(u32, TouchedLineMap)>, number: u32)
    ensures
        al_lookup(s, number) is None <==> forall|j: int| 0 <= j < s.len() ==> s[j].0 != number,
    decreases s.len(),
{
    if s.len() > 0 {
        lemma_al_lookup_none_iff(s.drop_last(), number);
        assert(forall|j: int| 0 <= j < s.len() - 1 ==> s.drop_last()[j] == s[j]);
        assert(s.last() == s[s.len() - 1]);
    }
}

/// With distinct numbers, `al_lookup` returns exactly the entry at the
/// matching index.
pub proof fn lemma_al_lookup_at_index(s: Seq<(u32, TouchedLineMap)>, number: u32, i: int)
    requires
        forall|a: int, b: int| 0 <= a < b < s.len() ==> s[a].0 != s[b].0,
        0 <= i < s.len(),
        s[i].0 == number,
    ensures
        al_lookup(s, number) == Some(s[i].1),
    decreases s.len(),
{
    if i == s.len() - 1 {
        assert(s.last() == s[i]);
    } else {
        assert(s.last() == s[s.len() - 1]);
        assert(forall|j: int| 0 <= j < s.len() - 1 ==> s.drop_last()[j] == s[j]);
        lemma_al_lookup_at_index(s.drop_last(), number, i);
    }
}

/// Looking a number up in a concatenation reads the right part first.
pub proof fn lemma_al_lookup_add(
    a: Seq<(u32, TouchedLineMap)>,
    b: Seq<(u32, TouchedLineMap)>,
    number: u32,
)
    ensures
        al_lookup(a + b, number) == if al_lookup(b, number) is Some {
            al_lookup(b, number)
        } else {
            al_lookup(a, number)
        },
    decreases b.len(),
{
    if b.len() == 0 {
        assert(a + b =~= a);
    } else {
        assert((a + b).last() == b.last());
        assert((a + b).drop_last() =~= a + b.drop_last());
        lemma_al_lookup_add(a, b.drop_last(), number);
    }
}

/// The touch count never exceeds the number of pull requests.
pub proof fn lemma_touch_count_bounds(s: Seq<(u32, TouchedLineMap)>, path: Seq<char>)
    ensures
        0 <= spec_touch_count(s, path) <= s.len(),
    decreases s.len(),
{
    if s.len() > 0 {
        lemma_touch_count_bounds(s.drop_last(), path);
    }
}

/// A file no pull request touches has the coldest fraction: exactly one.
pub proof fn lemma_untouched_file_is_coldest(l: AggregateLookup, path: Seq<char>)
    requires
        forall|i: int|
            0 <= i < l.entries@.len() ==> !(#[trigger] l.entries@[i].1).spec_touched(path),
    ensures
        l.spec_fraction(path).0 == l.spec_fraction(path).1,
{
    lemma_count_none_touch(l.entries@, path);
}

/// A file every pull request touches has the hottest fraction: exactly zero.
pub proof fn lemma_touched_by_all_is_hottest(l: AggregateLookup, path: Seq<char>)
    requires
        l.entries@.len() > 0,
        forall|i: int| 0 <= i < l.entries@.len() ==> (#[trigger] l.entries@[i].1).spec_touched(path),
    ensures
        l.spec_fraction(path).0 == 0,
{
    lemma_count_all_touch(l.entries@, path);
}

/// A pull request whose map holds `path` nowhere adds nothing to the touch
/// count of `path` — in particular one whose diff had no hunks at all.
pub proof fn lemma_untouching_entry_adds_nothing(
    s: Seq<(u32, TouchedLineMap)>,
    e: (u32, TouchedLineMap),
    path: Seq<char>,
)
    requires
        !e.1.spec_touched(path),
    ensures
        spec_touch_count(s.push(e), path) == spec_touch_count(s, path),
{
    assert(s.push(e).last() == e);
    assert(s.push(e).drop_last() =~= s);
}

proof fn lemma_count_none_touch(s: Seq<(u32, TouchedLineMap)>, path: Seq<char>)
    requires
        forall|i: int| 0 <= i < s.len() ==> !(#[trigger] s[i].1).spec_touched(path),
    ensures
        spec_touch_count(s, path) == 0,
    decreases s.len(),
{
    if s.len() > 0 {
        assert(s.last() == s[s.len() - 1]);
        assert(forall|j: int| 0 <= j < s.len() - 1 ==> s.drop_last()[j] == s[j]);
        lemma_count_none_touch(s.drop_last(), path);
    }
}

proof fn lemma_count_all_touch(s: Seq<(u32, TouchedLineMap)>, path: Seq<char>)
    requires
        forall|i: int| 0 <= i < s.len() ==> (#[trigger] s[i].1).spec_touched(path),
    ensures
        spec_touch_count(s, path) == s.len(),
    decreases s.len(),
{
    if s.len() > 0 {
        assert(s.last() == s[s.len() - 1]);
        assert(forall|j: int| 0 <= j < s.len() - 1 ==> s.drop_last()[j] == s[j]);
        lemma_count_all_touch(s.drop_last(), path);
    }
}

} // verus!
