//! Path selection and ordering for the report: the hidden-entry filter and
//! the lexical sort, kept apart from the color mapping so each can be tested
//! on its own.

use vstd::prelude::*;
use vstd::multiset::Multiset;
use vstd::string::StrSliceExecFns;

verus! {

/// A repository-relative path is visible when no component of it starts
/// with the hidden-file marker: no `.` at the start of the path or right
/// after a `/` separator.
pub open spec fn spec_path_visible(s: Seq<char>) -> bool {
    forall|i: int| 0 <= i < s.len() && (i == 0 || s[i - 1] == '/') ==> #[trigger] s[i] != '.'
}

/// Whether the path names no hidden file or directory.
#[verifier::rlimit(50)]
pub fn path_is_visible(path: &str) -> (r: bool)
    ensures
        r == spec_path_visible(path@),
{
    let n = path.unicode_len();
    let mut i: usize = 0;
    let mut at_component_start = true;
    while i < n
        invariant
            i <= n,
            n == path@.len(),
            at_component_start == (i == 0 || path@[i as int - 1] == '/'),
            forall|j: int| 0 <= j < i && (j == 0 || path@[j - 1] == '/') ==> #[trigger] path@[j]
                != '.',
        decreases n - i,
    {
        let c = path.get_char(i);
        if at_component_start && c == '.' {
            return false;
        }
        at_component_start = c == '/';
        i = i + 1;
    }
    true
}

/// The visibility test, as a predicate on stored paths.
pub open spec fn visible_pred() -> spec_fn(String) -> bool {
    |p: String| spec_path_visible(p@)
}

/// Keep exactly the visible paths, in their given order.
pub fn filter_visible_paths(paths: &Vec<String>) -> (r: Vec<String>)
    ensures
        r@ == paths@.filter(visible_pred()),
{
    let mut out: Vec<String> = Vec::new();
    let n = paths.len();
    let mut i: usize = 0;
    while i < n
        invariant
            i <= n,
            n == paths@.len(),
            out@ == paths@.take(i as int).filter(visible_pred()),
        decreases n - i,
    {
        let vis = path_is_visible(paths[i].as_str());
        if vis {
            out.push(paths[i].clone());
        }
        proof {
            let e = paths@[i as int];
            assert(visible_pred()(e) == spec_path_visible(e@));
            assert(vis == visible_pred()(e));
            paths@.take(i as int).lemma_filter_push(e, visible_pred());
            assert(paths@.take(i + 1) =~= paths@.take(i as int).push(e));
        }
        i = i + 1;
    }
    proof {
        assert(paths@.take(n as int) =~= paths@);
    }
    out
}

/// Lexical order on the characters of two paths, compared from index `i` on.
pub open spec fn lex_le_from(a: Seq<char>, b: Seq<char>, i: int) -> bool
    decreases a.len() - i,
{
    if i >= a.len() {
        true
    } else if i >= b.len() {
        false
    } else if (a[i] as u32) == (b[i] as u32) {
        lex_le_from(a, b, i + 1)
    } else {
        (a[i] as u32) < (b[i] as u32)
    }
}

/// Lexical order on paths: shorter prefixes first, otherwise by the first
/// differing character.
pub open spec fn lex_le(a: Seq<char>, b: Seq<char>) -> bool {
    lex_le_from(a, b, 0)
}

/// Whether `a` comes at or before `b` in lexical path order.
pub fn str_lex_le(a: &str, b: &str) -> (r: bool)
    ensures
        r == lex_le(a@, b@),
{
    let alen = a.unicode_len();
    let blen = b.unicode_len();
    let mut i: usize = 0;
    loop
        invariant
            i <= alen,
            i <= blen,
            alen == a@.len(),
            blen == b@.len(),
            lex_le(a@, b@) == lex_le_from(a@, b@, i as int),
        decreases alen - i,
    {
        if i == alen {
            return true;
        }
        if i == blen {
            return false;
        }
        let ca = a.get_char(i);
        let cb = b.get_char(i);
        if ca as u32 == cb as u32 {
            i = i + 1;
        } else {
            return (ca as u32) < (cb as u32);
        }
    }
}

/// Lexical order holds one way or the other between any two paths.
pub proof fn lemma_lex_le_total(a: Seq<char>, b: Seq<char>)
    ensures
        lex_le(a, b) || lex_le(b, a),
{
    lemma_lex_le_from_total(a, b, 0);
}

proof fn lemma_lex_le_from_total(a: Seq<char>, b: Seq<char>, i: int)
    requires
        0 <= i,
    ensures
        lex_le_from(a, b, i) || lex_le_from(b, a, i),
    decreases a.len() - i,
{
    if i < a.len() && i < b.len() && (a[i] as u32) == (b[i] as u32) {
        lemma_lex_le_from_total(a, b, i + 1);
    }
}

/// Lexical order is transitive.
pub proof fn lemma_lex_le_trans(a: Seq<char>, b: Seq<char>, c: Seq<char>)
    requires
        lex_le(a, b),
        lex_le(b, c),
    ensures
        lex_le(a, c),
{
    lemma_lex_le_from_trans(a, b, c, 0);
}

proof fn lemma_lex_le_from_trans(a: Seq<char>, b: Seq<char>, c: Seq<char>, i: int)
    requires
        0 <= i,
        lex_le_from(a, b, i),
        lex_le_from(b, c, i),
    ensures
        lex_le_from(a, c, i),
    decreases a.len() - i,
{
    if i < a.len() && i < b.len() && i < c.len() && (a[i] as u32) == (b[i] as u32) && (b[i] as u32)
        == (c[i] as u32) {
        lemma_lex_le_from_trans(a, b, c, i + 1);
    }
}

/// A sequence of paths in lexical order.
pub open spec fn paths_sorted(s: Seq<String>) -> bool {
    forall|i: int, j: int| 0 <= i < j < s.len() ==> lex_le(s[i]@, s[j]@)
}

/// Index of a lexically least element.
fn min_index(v: &Vec<String>) -> (r: usize)
    requires
        v@.len() > 0,
    ensures
        r < v@.len(),
        forall|j: int| 0 <= j < v@.len() ==> lex_le(v@[r as int]@, v@[j]@),
{
    let n = v.len();
    let mut m: usize = 0;
    let mut k: usize = 1;
    proof {
        lemma_lex_le_total(v@[0]@, v@[0]@);
    }
    while k < n
        invariant
            n == v@.len(),
            m < k <= n,
            forall|j: int| 0 <= j < k ==> lex_le(v@[m as int]@, v@[j]@),
        decreases n - k,
    {
        if !str_lex_le(v[m].as_str(), v[k].as_str()) {
            proof {
                lemma_lex_le_total(v@[m as int]@, v@[k as int]@);
                assert forall|j: int| 0 <= j < k + 1 implies lex_le(v@[k as int]@, v@[j]@) by {
                    if j < k {
                        lemma_lex_le_trans(v@[k as int]@, v@[m as int]@, v@[j]@);
                    } else if j == k {
                        lemma_lex_le_total(v@[k as int]@, v@[k as int]@);
                    }
                }
            }
            m = k;
        }
        k = k + 1;
    }
    m
}

/// Sort the paths into lexical order; the collection of paths is unchanged.
pub fn sort_paths(v: &mut Vec<String>)
    ensures
        paths_sorted(final(v)@),
        final(v)@.to_multiset() == old(v)@.to_multiset(),
{
    broadcast use vstd::seq_lib::group_to_multiset_ensures;
    broadcast use vstd::multiset::group_multiset_axioms;

    let mut out: Vec<String> = Vec::new();
    while v.len() > 0
        invariant
            paths_sorted(out@),
            out@.to_multiset().add(v@.to_multiset()) =~= old(v)@.to_multiset(),
            forall|a: int, b: int|
                0 <= a < out@.len() && 0 <= b < v@.len() ==> lex_le(out@[a]@, v@[b]@),
        decreases v@.len(),
    {
        let ghost vpre = v@;
        let ghost opre = out@;
        let i = min_index(v);
        let x = v.remove(i);
        out.push(x);
        proof {
            vpre.to_multiset_ensures();
            opre.to_multiset_ensures();
            assert(vpre.contains(vpre[i as int]));
            assert(vpre.to_multiset().count(vpre[i as int]) > 0);
            assert(out@.to_multiset() =~= opre.to_multiset().insert(vpre[i as int]));
            assert(v@.to_multiset() =~= vpre.to_multiset().remove(vpre[i as int]));
            assert(out@.to_multiset().add(v@.to_multiset()) =~= opre.to_multiset().add(
                vpre.to_multiset(),
            ));
            assert forall|a: int, b: int|
                0 <= a < out@.len() && 0 <= b < v@.len() implies lex_le(out@[a]@, v@[b]@) by {
                assert(v@[b] == vpre.remove(i as int)[b]);
                assert(v@[b] == (if b < i { vpre[b] } else { vpre[b + 1] }));
                if a < opre.len() {
                    assert(lex_le(opre[a]@, v@[b]@));
                } else {
                    assert(out@[a] == vpre[i as int]);
                }
            }
            assert forall|a: int, b: int|
                0 <= a < b < out@.len() implies lex_le(out@[a]@, out@[b]@) by {
                if b < opre.len() {
                    assert(lex_le(opre[a]@, opre[b]@));
                } else {
                    assert(out@[b] == vpre[i as int]);
                    assert(lex_le(opre[a]@, vpre[i as int]@));
                }
            }
        }
    }
    proof {
        v@.to_multiset_ensures();
        assert(forall|a: String| !v@.contains(a));
        assert(forall|a: String| v@.to_multiset().count(a) == 0);
        assert(out@.to_multiset() =~= old(v)@.to_multiset());
    }
    *v = out;
}

} // verus!
