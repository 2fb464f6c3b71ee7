//! The version-control boundary: declarations of the repository types and
//! thin trusted wrappers around the calls the aggregator and synchronizer
//! make. Everything a wrapper returns is treated as data; what the library
//! concludes from it is proved in the other modules.

use vstd::prelude::*;
use crate::hunks::HunkRecord;

verus! {

#[verifier::external_type_specification]
#[verifier::external_body]
pub struct ExRepository(git2::Repository);

#[verifier::external_type_specification]
#[verifier::external_body]
pub struct ExBranch<'repo>(git2::Branch<'repo>);

#[verifier::external_type_specification]
#[verifier::external_body]
pub struct ExReference<'repo>(git2::Reference<'repo>);

#[verifier::external_type_specification]
#[verifier::external_body]
pub struct ExCommit<'repo>(git2::Commit<'repo>);

#[verifier::external_type_specification]
#[verifier::external_body]
pub struct ExTree<'repo>(git2::Tree<'repo>);

#[verifier::external_type_specification]
#[verifier::external_body]
pub struct ExDiff<'repo>(git2::Diff<'repo>);

#[verifier::external_type_specification]
#[verifier::external_body]
pub struct ExOid(git2::Oid);

#[verifier::external_type_specification]
#[verifier::external_body]
pub struct ExError(git2::Error);

/// Relies on git2::Repository::open: opens the repository checkout at
/// `path`; what comes back depends on the disk.
#[verifier::external_body]
pub fn open_repository(path: &str) -> (r: Result<git2::Repository, git2::Error>) {
    git2::Repository::open(path)
}

/// Relies on git2::Repository::find_branch with the local branch type:
/// looks the named local branch up; errs when no such branch exists.
#[verifier::external_body]
pub(crate) fn find_local_branch<'r>(repo: &'r git2::Repository, name: &str) -> (r: Result<
    git2::Branch<'r>,
    git2::Error,
>) {
    repo.find_branch(name, git2::BranchType::Local)
}

/// Relies on git2::Branch::get: the reference the branch wraps.
#[verifier::external_body]
pub(crate) fn branch_reference<'a, 'r>(branch: &'a git2::Branch<'r>) -> (r: &'a git2::Reference<
    'r,
>) {
    branch.get()
}

/// Relies on git2::Reference::peel_to_commit: the commit the reference
/// resolves to, if it resolves to one.
#[verifier::external_body]
pub(crate) fn peel_to_commit<'r>(reference: &git2::Reference<'r>) -> (r: Result<
    git2::Commit<'r>,
    git2::Error,
>) {
    reference.peel_to_commit()
}

/// Relies on git2::Commit::id: the commit's object id.
#[verifier::external_body]
pub(crate) fn commit_id(commit: &git2::Commit<'_>) -> (r: git2::Oid) {
    commit.id()
}

/// A hex digit as the id parser accepts them: `0-9`, `a-f`, `A-F`.
pub open spec fn is_hex_digit(c: char) -> bool {
    ||| 48 <= c as u32 <= 57
    ||| 97 <= c as u32 <= 102
    ||| 65 <= c as u32 <= 70
}

/// A string `git2::Oid::from_str` parses: nonempty, at most 40 characters,
/// hex digits only.
pub open spec fn valid_oid_str(s: Seq<char>) -> bool {
    &&& 1 <= s.len() <= 40
    &&& forall|i: int| 0 <= i < s.len() ==> is_hex_digit(#[trigger] s[i])
}

/// Relies on git2::Oid::from_str: parses a hex object id string. Its
/// documentation gives the exact failure condition: it errs if and only if
/// the string is empty, longer than 40 hex characters, or holds any
/// non-hex character.
#[verifier::external_body]
pub(crate) fn parse_oid(s: &str) -> (r: Result<git2::Oid, git2::Error>)
    ensures
        r is Ok <==> valid_oid_str(s@),
{
    git2::Oid::from_str(s)
}

/// Relies on git2::Oid's hand-written PartialEq impl, which compares the
/// raw id bytes through libgit2: whether the two ids are the same value.
#[verifier::external_body]
pub(crate) fn oid_equal(a: &git2::Oid, b: &git2::Oid) -> (r: bool)
    ensures
        r == (*a == *b),
{
    a == b
}

/// Relies on git2::Repository::find_commit: the commit object for this id.
#[verifier::external_body]
pub(crate) fn find_commit<'r>(repo: &'r git2::Repository, oid: &git2::Oid) -> (r: Result<
    git2::Commit<'r>,
    git2::Error,
>) {
    repo.find_commit(*oid)
}

/// Relies on git2::Commit::tree: the tree the commit points at.
#[verifier::external_body]
pub(crate) fn commit_tree<'r>(commit: &git2::Commit<'r>) -> (r: Result<
    git2::Tree<'r>,
    git2::Error,
>) {
    commit.tree()
}

/// Relies on git2::Repository::merge_base: the best common ancestor of the
/// two commits in the repository's commit graph.
#[verifier::external_body]
pub(crate) fn merge_base(repo: &git2::Repository, one: &git2::Oid, two: &git2::Oid) -> (r: Result<
    git2::Oid,
    git2::Error,
>) {
    repo.merge_base(*one, *two)
}

/// Relies on git2::Repository::diff_tree_to_tree with default options:
/// the structural diff from `old_tree` to `new_tree`, no index or working
/// tree involved.
#[verifier::external_body]
pub(crate) fn diff_trees<'r>(
    repo: &'r git2::Repository,
    old_tree: &git2::Tree<'r>,
    new_tree: &git2::Tree<'r>,
) -> (r: Result<git2::Diff<'r>, git2::Error>) {
    repo.diff_tree_to_tree(Some(old_tree), Some(new_tree), None)
}

/// Relies on git2::Diff::foreach with a hunk callback: hands every hunk of
/// every delta out in diff order. The callback only copies each hunk's
/// old-side fields into a record: old file path, old start line, old line
/// count. Deltas without an old path, and paths that are not UTF-8, are
/// passed over.
#[verifier::external_body]
pub(crate) fn collect_hunks(diff: &git2::Diff<'_>) -> (r: Result<Vec<HunkRecord>, git2::Error>) {
    let mut out: Vec<HunkRecord> = Vec::new();
    let res = diff.foreach(&mut |_, _| true, None, Some(&mut |delta, hunk| {
        if let Some(p) = delta.old_file().path().and_then(|p| p.to_str()) {
            let (path, old_start, old_lines) = (p.to_string(), hunk.old_start(), hunk.old_lines());
            out.push(HunkRecord { path, old_start, old_lines });
        }
        true
    }), None);
    res.map(|_| out)
}

} // verus!
