//! The branch synchronizer's decision: fetch a pull request's branch only
//! when the local `pull-request-<number>` branch is absent or stale.

use vstd::prelude::*;
use crate::branch::branch_name_for;
use crate::git::{
    branch_reference, commit_id, find_local_branch, oid_equal, parse_oid, peel_to_commit,
    valid_oid_str,
};

verus! {

/// One externally provided pull request record, reduced to the plain fields
/// the pipeline reads. Once synchronization succeeds, `source_commit_id` is
/// the hex id of a commit present in the repository.
pub struct PullRequestDescriptor {
    pub number: u32,
    pub target_branch_name: String,
    pub source_branch_name: String,
    pub source_commit_id: String,
    pub source_owner_login: String,
    pub source_repo_name: String,
}

/// What the synchronizer does for one pull request.
pub enum SyncAction {
    Fetch,
    Skip,
}

/// The synchronizer's errors: the local branch's tip cannot be resolved to
/// a commit, or the descriptor's commit id is not a valid hex id.
pub enum SyncError {
    BranchTipUnreadable(git2::Error),
    BadCommitId(git2::Error),
}

/// A fetch is needed exactly when there is no local tip, or the local tip
/// differs from the commit the descriptor names.
pub open spec fn needs_fetch(local_tip: Option<git2::Oid>, desired: git2::Oid) -> bool {
    match local_tip {
        Option::None => true,
        Option::Some(t) => t != desired,
    }
}

/// Decide from the local tip and the desired commit id alone.
pub fn sync_decision(local_tip: Option<&git2::Oid>, desired: &git2::Oid) -> (r: SyncAction)
    ensures
        (r is Fetch) == (match local_tip {
            Option::None => true,
            Option::Some(t) => *t != *desired,
        }),
{
    match local_tip {
        None => SyncAction::Fetch,
        Some(t) => {
            if oid_equal(t, desired) {
                SyncAction::Skip
            } else {
                SyncAction::Fetch
            }
        },
    }
}

/// Once the local tip equals the desired commit, nothing is fetched: a
/// second synchronizer run over an unchanged repository performs zero
/// additional fetches.
pub proof fn lemma_sync_idempotent(tip: git2::Oid)
    ensures
        !needs_fetch(Some(tip), tip),
{
}

/// Plan the synchronization of one pull request: fetch when the local
/// branch `pull-request-<number>` is absent or its tip is not the commit
/// the descriptor names, skip otherwise. What comes back depends on the
/// repository on disk; the decision rule itself is `sync_decision`. The
/// bad-id error comes only from an unparsable commit id, and a skip is
/// never granted on one.
pub fn plan_sync(repo: &git2::Repository, pr: &PullRequestDescriptor) -> (r: Result<
    SyncAction,
    SyncError,
>)
    ensures
        (r matches Err(SyncError::BadCommitId(_))) ==> !valid_oid_str(pr.source_commit_id@),
        !valid_oid_str(pr.source_commit_id@) ==> !(r matches Ok(SyncAction::Skip)),
{
    let name = branch_name_for(pr.number);
    match find_local_branch(repo, name.as_str()) {
        Err(_) => Ok(SyncAction::Fetch),
        Ok(branch) => {
            let tip = match peel_to_commit(branch_reference(&branch)) {
                Ok(c) => c,
                Err(e) => {
                    return Err(SyncError::BranchTipUnreadable(e));
                },
            };
            let desired = match parse_oid(pr.source_commit_id.as_str()) {
                Ok(o) => o,
                Err(e) => {
                    return Err(SyncError::BadCommitId(e));
                },
            };
            let id = commit_id(&tip);
            Ok(sync_decision(Some(&id), &desired))
        },
    }
}

} // verus!
