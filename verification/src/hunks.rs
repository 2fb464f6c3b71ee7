//! Old-side hunk data and the per-pull-request map of touched lines.

use vstd::prelude::*;

verus! {

/// One hunk of a structural diff, reduced to the old-side data the
/// aggregator consumes: the file path on the old side, the 1-based number of
/// the first old-side line, and how many old-side lines the hunk covers.
pub struct HunkRecord {
    pub path: String,
    pub old_start: u32,
    pub old_lines: u32,
}

/// The line numbers a hunk covers on the old side:
/// `old_start, old_start + 1, ..., old_start + old_lines - 1`.
pub open spec fn hunk_line_numbers(old_start: u32, old_lines: u32) -> Seq<u32> {
    Seq::new(old_lines as nat, |i: int| (old_start + i) as u32)
}

/// Whether the ignore list holds `path` (paths such as a dependency lock
/// file, whose mechanical churn carries no review-overlap signal).
pub open spec fn ignore_has(ignore: Seq<String>, path: Seq<char>) -> bool {
    exists|i: int| 0 <= i < ignore.len() && ignore[i]@ == path
}

/// A map from file path to the old-side line numbers recorded for that file,
/// scoped to one pull request. Kept as an association list; `wf` says the
/// paths are distinct and no entry is empty, which the recording rules keep.
pub struct TouchedLineMap {
    pub entries: Vec<(String, Vec<u32>)>,
}

/// The lines recorded for `path`, read from the back of the entry list.
pub open spec fn tlm_lookup(s: Seq<(String, Vec<u32>)>, path: Seq<char>) -> Option<Seq<u32>>
    decreases s.len(),
{
    if s.len() == 0 {
        None
    } else if s.last().0@ == path {
        Some(s.last().1@)
    } else {
        tlm_lookup(s.drop_last(), path)
    }
}

impl TouchedLineMap {
    /// Paths are pairwise distinct and every entry holds at least one line.
    pub open spec fn wf(self) -> bool {
        &&& forall|i: int, j: int|
            0 <= i < j < self.entries@.len() ==> self.entries@[i].0@ != self.entries@[j].0@
        &&& forall|i: int| 0 <= i < self.entries@.len() ==> self.entries@[i].1@.len() > 0
    }

    /// The lines recorded for `path`, if the file is in the map.
    pub open spec fn spec_lines(self, path: Seq<char>) -> Option<Seq<u32>> {
        tlm_lookup(self.entries@, path)
    }

    /// Whether `path` is present in the map at all.
    pub open spec fn spec_touched(self, path: Seq<char>) -> bool {
        self.spec_lines(path) is Some
    }

    pub fn new() -> (r: TouchedLineMap)
        ensures
            r.wf(),
            r.entries@.len() == 0,
            forall|p: Seq<char>| !(#[trigger] r.spec_touched(p)),
    {
        TouchedLineMap { entries: Vec::new() }
    }

    /// Index of the entry for `path`, if one exists.
    fn get_index(&self, path: &String) -> (r: Option<usize>)
        ensures
            match r {
                Some(i) => i < self.entries@.len() && self.entries@[i as int].0@ == path@,
                None => forall|j: int|
                    0 <= j < self.entries@.len() ==> self.entries@[j].0@ != path@,
            },
    {
        let n = self.entries.len();
        let mut i: usize = 0;
        while i < n
            invariant
                n == self.entries@.len(),
                i <= n,
                forall|j: int| 0 <= j < i ==> self.entries@[j].0@ != path@,
            decreases n - i,
        {
            if self.entries[i].0.eq(path) {
                return Some(i);
            }
            i = i + 1;
        }
        None
    }

    /// Whether the map holds an entry for `path`.
    pub fn contains(&self, path: &String) -> (r: bool)
        requires
            self.wf(),
        ensures
            r == self.spec_touched(path@),
    {
        proof {
            lemma_tlm_lookup_none_iff(self.entries@, path@);
        }
        match self.get_index(path) {
            Some(i) => {
                proof {
                    lemma_tlm_lookup_at_index(self.entries@, path@, i as int);
                }
                true
            },
            None => false,
        }
    }

    /// Record one hunk for `path`: append the covered old-side line numbers
    /// to the file's entry, creating the entry if the file is new. Lines are
    /// deliberately not deduplicated across hunks; only presence of the file
    /// is consulted downstream.
    pub fn record(&mut self, path: &String, old_start: u32, old_lines: u32)
        requires
            old(self).wf(),
            old_lines > 0,
            old_start + old_lines <= u32::MAX,
        ensures
            final(self).wf(),
            final(self).spec_lines(path@) == Some(
                match old(self).spec_lines(path@) {
                    Option::None => hunk_line_numbers(old_start, old_lines),
                    Option::Some(l) => l + hunk_line_numbers(old_start, old_lines),
                },
            ),
            forall|q: Seq<char>|
                q != path@ ==> #[trigger] final(self).spec_lines(q) == old(self).spec_lines(q),
    {
        let ghost prior = self.entries@;
        match self.get_index(path) {
            Some(i) => {
                proof {
                    lemma_tlm_lookup_at_index(prior, path@, i as int);
                }
                let mut pair = self.entries.remove(i);
                push_range(&mut pair.1, old_start, old_lines);
                self.entries.push(pair);
                proof {
                    let ghost fore = prior.subrange(0, i as int);
                    let ghost aft = prior.subrange(i + 1, prior.len() as int);
                    assert(prior.remove(i as int) =~= fore + aft);
                    assert(self.entries@ =~= (fore + aft).push(
                        (prior[i as int].0, pair.1),
                    ));
                    assert forall|q: Seq<char>| q != path@ implies #[trigger] tlm_lookup(
                        self.entries@,
                        q,
                    ) == tlm_lookup(prior, q) by {
                        assert(self.entries@.drop_last() =~= fore + aft);
                        lemma_tlm_lookup_add(fore, aft, q);
                        assert(prior =~= fore.push(prior[i as int]) + aft);
                        lemma_tlm_lookup_add(fore.push(prior[i as int]), aft, q);
                        assert(fore.push(prior[i as int]).drop_last() =~= fore);
                    }
                    assert(self.entries@.last().0@ == path@);
                }
            },
            None => {
                proof {
                    lemma_tlm_lookup_none_iff(prior, path@);
                }
                let mut lines: Vec<u32> = Vec::new();
                push_range(&mut lines, old_start, old_lines);
                self.entries.push((path.clone(), lines));
                proof {
                    assert(self.entries@.drop_last() =~= prior);
                    assert(self.entries@.last().1@ =~= hunk_line_numbers(old_start, old_lines));
                }
            },
        }
    }

    /// The lines recorded for `path`, if the file is in the map.
    pub fn lines_for<'a>(&'a self, path: &String) -> (r: Option<&'a Vec<u32>>)
        requires
            self.wf(),
        ensures
            match r {
                Some(v) => self.spec_lines(path@) == Some(v@),
                None => self.spec_lines(path@) is None,
            },
    {
        proof {
            lemma_tlm_lookup_none_iff(self.entries@, path@);
        }
        match self.get_index(path) {
            Some(i) => {
                proof {
                    lemma_tlm_lookup_at_index(self.entries@, path@, i as int);
                }
                Some(&self.entries[i].1)
            },
            None => None,
        }
    }
}

/// Append the hunk's line numbers to `v`.
fn push_range(v: &mut Vec<u32>, old_start: u32, old_lines: u32)
    requires
        old_start + old_lines <= u32::MAX,
    ensures
        final(v)@ == old(v)@ + hunk_line_numbers(old_start, old_lines),
{
    let ghost base = v@;
    let mut k: u32 = 0;
    while k < old_lines
        invariant
            k <= old_lines,
            old_start + old_lines <= u32::MAX,
            v@ == base + hunk_line_numbers(old_start, old_lines).take(k as int),
        decreases old_lines - k,
    {
        v.push(old_start + k);
        proof {
            assert(hunk_line_numbers(old_start, old_lines).take(k + 1)
                =~= hunk_line_numbers(old_start, old_lines).take(k as int).push(
                (old_start + k) as u32,
            ));
            assert(v@ =~= base + hunk_line_numbers(old_start, old_lines).take(k + 1));
        }
        k = k + 1;
    }
    proof {
        assert(hunk_line_numbers(old_start, old_lines).take(old_lines as int)
            =~= hunk_line_numbers(old_start, old_lines));
    }
}

/// `tlm_lookup` finds nothing exactly when no entry carries the path.
pub proof fn lemma_tlm_lookup_none_iff(s: Seq<(String, Vec<u32>)>, path: Seq<char>)
    ensures
        tlm_lookup(s, path) is None <==> forall|j: int| 0 <= j < s.len() ==> s[j].0@ != path,
    decreases s.len(),
{
    if s.len() > 0 {
        lemma_tlm_lookup_none_iff(s.drop_last(), path);
        assert(forall|j: int| 0 <= j < s.len() - 1 ==> s.drop_last()[j] == s[j]);
        assert(s.last() == s[s.len() - 1]);
    }
}

/// With distinct paths, `tlm_lookup` returns exactly the entry at the
/// matching index.
pub proof fn lemma_tlm_lookup_at_index(s: Seq<(String, Vec<u32>)>, path: Seq<char>, i: int)
    requires
        forall|a: int, b: int| 0 <= a < b < s.len() ==> s[a].0@ != s[b].0@,
        0 <= i < s.len(),
        s[i].0@ == path,
    ensures
        tlm_lookup(s, path) == Some(s[i].1@),
    decreases s.len(),
{
    if i == s.len() - 1 {
        assert(s.last() == s[i]);
    } else {
        assert(s.last() == s[s.len() - 1]);
        assert(s.last().0@ != path);
        assert(forall|j: int| 0 <= j < s.len() - 1 ==> s.drop_last()[j] == s[j]);
        lemma_tlm_lookup_at_index(s.drop_last(), path, i);
    }
}

/// A hunk counts for `path` when it is that file's hunk, deletes or touches
/// at least one old-side line, its range fits in 32-bit line numbers, and
/// the file is not on the ignore list.
pub open spec fn hunk_relevant(h: HunkRecord, ignore: Seq<String>, path: Seq<char>) -> bool {
    &&& h.path@ == path
    &&& h.old_lines > 0
    &&& h.old_start + h.old_lines <= u32::MAX
    &&& !ignore_has(ignore, path)
}

/// Lines already recorded, extended by one hunk's lines.
pub open spec fn append_lines(so_far: Option<Seq<u32>>, more: Seq<u32>) -> Seq<u32> {
    match so_far {
        Option::None => more,
        Option::Some(l) => l + more,
    }
}

/// What one pull request's hunks record for `path`: the concatenation, in
/// hunk order, of the old-side line numbers of every relevant hunk; `None`
/// when no hunk is relevant, so that presence of the file doubles as the
/// touch test.
pub open spec fn touched_lines(
    hunks: Seq<HunkRecord>,
    ignore: Seq<String>,
    path: Seq<char>,
) -> Option<Seq<u32>>
    decreases hunks.len(),
{
    if hunks.len() == 0 {
        None
    } else {
        let rest = touched_lines(hunks.drop_last(), ignore, path);
        if hunk_relevant(hunks.last(), ignore, path) {
            Some(
                append_lines(
                    rest,
                    hunk_line_numbers(hunks.last().old_start, hunks.last().old_lines),
                ),
            )
        } else {
            rest
        }
    }
}

/// Whether the ignore list holds `path`, as an executable test.
pub fn ignore_list_has(ignore: &Vec<String>, path: &String) -> (r: bool)
    ensures
        r == ignore_has(ignore@, path@),
{
    let n = ignore.len();
    let mut i: usize = 0;
    while i < n
        invariant
            n == ignore@.len(),
            i <= n,
            forall|j: int| 0 <= j < i ==> ignore@[j]@ != path@,
        decreases n - i,
    {
        if ignore[i].eq(path) {
            return true;
        }
        i = i + 1;
    }
    false
}

/// The ignore list the tool runs with: the dependency lock file, whose
/// mechanical churn is not a review-overlap signal.
pub fn default_ignore_list() -> (r: Vec<String>)
    ensures
        r@.len() == 1,
        r@[0]@ == "Cargo.lock"@,
{
    let mut v: Vec<String> = Vec::new();
    v.push("Cargo.lock".to_owned());
    v
}

/// Fold one pull request's hunks into its map of touched lines: every
/// relevant hunk appends its old-side line numbers to its file's entry;
/// hunks with no old-side lines, out-of-range hunks and ignored files leave
/// no trace.
pub fn build_touched_line_map(hunks: &Vec<HunkRecord>, ignore: &Vec<String>) -> (r: TouchedLineMap)
    ensures
        r.wf(),
        forall|p: Seq<char>| #[trigger] r.spec_lines(p) == touched_lines(hunks@, ignore@, p),
{
    let mut m = TouchedLineMap::new();
    let n = hunks.len();
    let mut i: usize = 0;
    while i < n
        invariant
            n == hunks@.len(),
            i <= n,
            m.wf(),
            forall|p: Seq<char>| #[trigger] m.spec_lines(p) == touched_lines(
                hunks@.take(i as int),
                ignore@,
                p,
            ),
        decreases n - i,
    {
        let ghost before = m;
        let h = &hunks[i];
        let in_range = h.old_lines > 0 && h.old_start <= u32::MAX - h.old_lines;
        let skipped = !in_range || ignore_list_has(ignore, &h.path);
        if !skipped {
            m.record(&h.path, h.old_start, h.old_lines);
        }
        proof {
            assert(hunks@.take(i + 1).drop_last() =~= hunks@.take(i as int));
            assert(hunks@.take(i + 1).last() == hunks@[i as int]);
            assert forall|p: Seq<char>| #[trigger] m.spec_lines(p) == touched_lines(
                hunks@.take(i + 1),
                ignore@,
                p,
            ) by {
                if skipped {
                    assert(!hunk_relevant(hunks@[i as int], ignore@, p));
                } else if p != hunks@[i as int].path@ {
                    assert(!hunk_relevant(hunks@[i as int], ignore@, p));
                    assert(m.spec_lines(p) == before.spec_lines(p));
                }
            }
        }
        i = i + 1;
    }
    proof {
        assert(hunks@.take(n as int) =~= hunks@);
    }
    m
}

/// A file on the ignore list is never recorded, whatever the diff holds.
pub proof fn lemma_ignored_path_never_recorded(
    hunks: Seq<HunkRecord>,
    ignore: Seq<String>,
    path: Seq<char>,
)
    requires
        ignore_has(ignore, path),
    ensures
        touched_lines(hunks, ignore, path) is None,
    decreases hunks.len(),
{
    if hunks.len() > 0 {
        lemma_ignored_path_never_recorded(hunks.drop_last(), ignore, path);
    }
}

/// What a pull request records is a function of its hunks and the ignore
/// list alone: two maps built over the same diff content hold the same
/// lines for every file, so an unchanged repository aggregates identically
/// on every run.
pub proof fn lemma_aggregation_deterministic(
    m1: TouchedLineMap,
    m2: TouchedLineMap,
    hunks: Seq<HunkRecord>,
    ignore: Seq<String>,
)
    requires
        forall|p: Seq<char>| #[trigger] m1.spec_lines(p) == touched_lines(hunks, ignore, p),
        forall|p: Seq<char>| #[trigger] m2.spec_lines(p) == touched_lines(hunks, ignore, p),
    ensures
        forall|p: Seq<char>| #[trigger] m1.spec_lines(p) == m2.spec_lines(p),
{
}

/// A pull request whose diff has no hunks records no file at all.
pub proof fn lemma_empty_diff_touches_nothing(ignore: Seq<String>, path: Seq<char>)
    ensures
        touched_lines(Seq::<HunkRecord>::empty(), ignore, path) is None,
{
}

/// Looking a path up in a concatenation reads the right part first.
pub proof fn lemma_tlm_lookup_add(
    a: Seq<(String, Vec<u32>)>,
    b: Seq<(String, Vec<u32>)>,
    path: Seq<char>,
)
    ensures
        tlm_lookup(a + b, path) == if tlm_lookup(b, path) is Some {
            tlm_lookup(b, path)
        } else {
            tlm_lookup(a, path)
        },
    decreases b.len(),
{
    if b.len() == 0 {
        assert(a + b =~= a);
    } else {
        assert((a + b).last() == b.last());
        assert((a + b).drop_last() =~= a + b.drop_last());
        lemma_tlm_lookup_add(a, b.drop_last(), path);
    }
}

} // verus!
