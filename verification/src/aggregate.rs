//! The diff aggregator: per pull request, diff the merge base against the
//! head tree and fold the hunks into the run's lookup.

use vstd::prelude::*;
use crate::git::{
    branch_reference, collect_hunks, commit_id, commit_tree, diff_trees, find_commit,
    find_local_branch, merge_base, parse_oid, peel_to_commit, valid_oid_str,
};
use crate::hunks::{build_touched_line_map, TouchedLineMap};
use crate::lookup::AggregateLookup;
use crate::sync::PullRequestDescriptor;

verus! {

/// No more than this many pull requests are considered per run; later
/// entries of the supplied list are ignored.
pub const MAX_PULL_REQUESTS: usize = 100;

/// How many of `n` supplied pull requests the run considers.
pub open spec fn spec_considered(n: int) -> int {
    if n > 100 {
        100int
    } else {
        n
    }
}

/// How many of `n` supplied pull requests the run considers: the supplied
/// count, capped at the limit.
pub fn considered_count(n: usize) -> (r: usize)
    ensures
        r == spec_considered(n as int),
        r <= n,
{
    if n > MAX_PULL_REQUESTS {
        MAX_PULL_REQUESTS
    } else {
        n
    }
}

/// The aggregator's errors; any one of them aborts the whole run.
pub enum AggregateError {
    /// The descriptor's commit id is not a valid hex id.
    BadCommitId(git2::Error),
    /// A commit (head or merge base) cannot be found, or its tree read.
    CommitUnreadable(git2::Error),
    /// No local branch matches the pull request's target branch name.
    TargetBranchMissing(git2::Error),
    /// The target branch's tip cannot be resolved to a commit.
    TargetTipUnreadable(git2::Error),
    /// No merge base exists for target tip and head.
    MergeBaseMissing(git2::Error),
    /// The tree-to-tree diff itself failed.
    DiffFailed(git2::Error),
}

/// Diff one pull request against its merge base with the target branch and
/// record the touched old-side lines per file. What the repository holds
/// decides the hunks; how hunks become the map is `build_touched_line_map`.
/// The bad-id error comes exactly on an unparsable commit id.
pub fn aggregate_pull_request(
    repo: &git2::Repository,
    pr: &PullRequestDescriptor,
    ignore: &Vec<String>,
) -> (r: Result<TouchedLineMap, AggregateError>)
    ensures
        (r matches Ok(m) ==> m.wf()),
        (r matches Err(AggregateError::BadCommitId(_))) <==> !valid_oid_str(
            pr.source_commit_id@,
        ),
{
    let head_oid = match parse_oid(pr.source_commit_id.as_str()) {
        Ok(o) => o,
        Err(e) => {
            return Err(AggregateError::BadCommitId(e));
        },
    };
    let head_commit = match find_commit(repo, &head_oid) {
        Ok(c) => c,
        Err(e) => {
            return Err(AggregateError::CommitUnreadable(e));
        },
    };
    let head_tree = match commit_tree(&head_commit) {
        Ok(t) => t,
        Err(e) => {
            return Err(AggregateError::CommitUnreadable(e));
        },
    };
    let base_branch = match find_local_branch(repo, pr.target_branch_name.as_str()) {
        Ok(b) => b,
        Err(e) => {
            return Err(AggregateError::TargetBranchMissing(e));
        },
    };
    let base_tip = match peel_to_commit(branch_reference(&base_branch)) {
        Ok(c) => c,
        Err(e) => {
            return Err(AggregateError::TargetTipUnreadable(e));
        },
    };
    let base_oid = commit_id(&base_tip);
    let ancestor_oid = match merge_base(repo, &base_oid, &head_oid) {
        Ok(o) => o,
        Err(e) => {
            return Err(AggregateError::MergeBaseMissing(e));
        },
    };
    let ancestor_commit = match find_commit(repo, &ancestor_oid) {
        Ok(c) => c,
        Err(e) => {
            return Err(AggregateError::CommitUnreadable(e));
        },
    };
    let ancestor_tree = match commit_tree(&ancestor_commit) {
        Ok(t) => t,
        Err(e) => {
            return Err(AggregateError::CommitUnreadable(e));
        },
    };
    let diff = match diff_trees(repo, &ancestor_tree, &head_tree) {
        Ok(d) => d,
        Err(e) => {
            return Err(AggregateError::DiffFailed(e));
        },
    };
    let hunks = match collect_hunks(&diff) {
        Ok(h) => h,
        Err(e) => {
            return Err(AggregateError::DiffFailed(e));
        },
    };
    Ok(build_touched_line_map(&hunks, ignore))
}

/// Build the run's whole lookup: the first `considered_count` pull requests,
/// in the order supplied — the same subsequence, in the same order, that the
/// synchronizer walks — each mapped from its number to its touched lines.
/// Any per-pull-request failure aborts the run.
pub fn aggregate_pull_requests(
    repo: &git2::Repository,
    prs: &Vec<PullRequestDescriptor>,
    ignore: &Vec<String>,
) -> (r: Result<AggregateLookup, AggregateError>)
    ensures
        (r matches Ok(l) ==> {
            &&& l.wf()
            &&& l.spec_total() <= spec_considered(prs@.len() as int)
            &&& forall|i: int|
                0 <= i < spec_considered(prs@.len() as int) ==> (#[trigger] l.spec_map_for(
                    prs@[i].number,
                )) is Some
            &&& forall|n: u32|
                (#[trigger] l.spec_map_for(n)) is Some ==> exists|j: int|
                    0 <= j < spec_considered(prs@.len() as int) && prs@[j].number == n
        }),
        prs@.len() == 0 ==> r is Ok,
        (r matches Err(AggregateError::BadCommitId(_))) ==> exists|i: int|
            0 <= i < spec_considered(prs@.len() as int) && !valid_oid_str(
                (#[trigger] prs@[i]).source_commit_id@,
            ),
{
    let mut lookup = AggregateLookup::new();
    let count = considered_count(prs.len());
    let mut i: usize = 0;
    while i < count
        invariant
            count == spec_considered(prs@.len() as int),
            count <= prs@.len(),
            i <= count,
            lookup.wf(),
            lookup.spec_total() <= i,
            forall|j: int|
                0 <= j < i ==> (#[trigger] lookup.spec_map_for(prs@[j].number)) is Some,
            forall|n: u32|
                (#[trigger] lookup.spec_map_for(n)) is Some ==> exists|j: int|
                    0 <= j < i && prs@[j].number == n,
        decreases count - i,
    {
        let map = match aggregate_pull_request(repo, &prs[i], ignore) {
            Ok(m) => m,
            Err(e) => {
                proof {
                    if e is BadCommitId {
                        assert(!valid_oid_str(prs@[i as int].source_commit_id@));
                    }
                }
                return Err(e);
            },
        };
        lookup.insert(prs[i].number, map);
        i = i + 1;
    }
    Ok(lookup)
}

} // verus!
