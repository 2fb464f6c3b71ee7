//! The renderer's computed core: one impact fraction per listed file. The
//! color gradient and the markup around it consume these rows unchanged.

use vstd::prelude::*;
use crate::lookup::AggregateLookup;
use crate::paths::{filter_visible_paths, lex_le, sort_paths, visible_pred};

verus! {

/// One report row: a repository-relative path and its impact fraction as an
/// exact rational `numerator / denominator` in `[0, 1]`. One means no pull
/// request touches the file, zero means every one does.
pub struct ReportRow {
    pub path: String,
    pub numerator: usize,
    pub denominator: usize,
}

/// One row per given path, in the given order, each carrying that path's
/// impact fraction under `lookup`.
pub fn impact_rows(lookup: &AggregateLookup, paths: &Vec<String>) -> (r: Vec<ReportRow>)
    requires
        lookup.wf(),
    ensures
        r@.len() == paths@.len(),
        forall|i: int|
            0 <= i < paths@.len() ==> {
                &&& (#[trigger] r@[i]).path == paths@[i]
                &&& (r@[i].numerator as int, r@[i].denominator as int) == lookup.spec_fraction(
                    paths@[i]@,
                )
                &&& r@[i].numerator <= r@[i].denominator
                &&& r@[i].denominator > 0
            },
{
    let mut out: Vec<ReportRow> = Vec::new();
    let n = paths.len();
    let mut i: usize = 0;
    while i < n
        invariant
            lookup.wf(),
            i <= n,
            n == paths@.len(),
            out@.len() == i,
            forall|j: int|
                0 <= j < i ==> {
                    &&& (#[trigger] out@[j]).path == paths@[j]
                    &&& (out@[j].numerator as int, out@[j].denominator as int)
                        == lookup.spec_fraction(paths@[j]@)
                    &&& out@[j].numerator <= out@[j].denominator
                    &&& out@[j].denominator > 0
                },
        decreases n - i,
    {
        let path = paths[i].clone();
        let fraction = lookup.impact_fraction(&path);
        out.push(ReportRow { path, numerator: fraction.0, denominator: fraction.1 });
        i = i + 1;
    }
    out
}

/// The path a report row lists.
pub open spec fn row_path_fn() -> spec_fn(ReportRow) -> String {
    |row: ReportRow| row.path
}

/// The whole renderer core in one step: of the walked paths keep the
/// visible ones, order them lexically, and give each its impact fraction.
/// The rows list exactly the visible paths, in lexical order.
pub fn report_rows(lookup: &AggregateLookup, walked: &Vec<String>) -> (r: Vec<ReportRow>)
    requires
        lookup.wf(),
    ensures
        r@.map_values(row_path_fn()).to_multiset() == walked@.filter(
            visible_pred(),
        ).to_multiset(),
        forall|i: int, j: int| 0 <= i < j < r@.len() ==> lex_le(r@[i].path@, r@[j].path@),
        forall|i: int|
            0 <= i < r@.len() ==> {
                &&& ((#[trigger] r@[i]).numerator as int, r@[i].denominator as int)
                    == lookup.spec_fraction(r@[i].path@)
                &&& r@[i].numerator <= r@[i].denominator
                &&& r@[i].denominator > 0
            },
{
    let mut paths = filter_visible_paths(walked);
    sort_paths(&mut paths);
    let rows = impact_rows(lookup, &paths);
    proof {
        assert(rows@.map_values(row_path_fn()) =~= paths@);
    }
    rows
}

} // verus!
