//! The synchronizer's decision rule and the names it builds.

use prmap::branch::{branch_name_for, refspec_for, remote_spec_for};
use prmap::sync::{sync_decision, SyncAction};

#[test]
fn branch_names() {
    assert_eq!(branch_name_for(7), "pull-request-7");
    assert_eq!(branch_name_for(0), "pull-request-0");
    assert_eq!(branch_name_for(100), "pull-request-100");
    assert_eq!(branch_name_for(4_294_967_295), "pull-request-4294967295");
}

#[test]
fn remote_and_refspec() {
    assert_eq!(remote_spec_for("octo", "demo"), "git@github.com:octo/demo");
    assert_eq!(refspec_for("feature/x", 12), "feature/x:pull-request-12");
}

#[test]
fn oid_parsing_matches_the_stated_condition() {
    // The condition behind the bad-commit-id error: a hex id parses exactly
    // when it is nonempty, at most 40 characters, and hex digits only.
    assert!(git2::Oid::from_str("").is_err());
    assert!(git2::Oid::from_str("a").is_ok());
    assert!(git2::Oid::from_str("AbC123").is_ok());
    assert!(git2::Oid::from_str(&"a".repeat(40)).is_ok());
    assert!(git2::Oid::from_str(&"a".repeat(41)).is_err());
    assert!(git2::Oid::from_str("xyz").is_err());
}

#[test]
fn missing_branch_is_fetched() {
    let desired = git2::Oid::from_str("aaaaaaaaaaaaaaaaaaaaaaaaaaaaaaaaaaaaaaaa").unwrap();
    assert!(matches!(sync_decision(None, &desired), SyncAction::Fetch));
}

#[test]
fn stale_branch_is_fetched() {
    let desired = git2::Oid::from_str("aaaaaaaaaaaaaaaaaaaaaaaaaaaaaaaaaaaaaaaa").unwrap();
    let tip = git2::Oid::from_str("bbbbbbbbbbbbbbbbbbbbbbbbbbbbbbbbbbbbbbbb").unwrap();
    assert!(matches!(sync_decision(Some(&tip), &desired), SyncAction::Fetch));
}

#[test]
fn matching_branch_is_skipped() {
    // A second run over an unchanged repository fetches nothing.
    let desired = git2::Oid::from_str("aaaaaaaaaaaaaaaaaaaaaaaaaaaaaaaaaaaaaaaa").unwrap();
    let tip = git2::Oid::from_str("aaaaaaaaaaaaaaaaaaaaaaaaaaaaaaaaaaaaaaaa").unwrap();
    assert!(matches!(sync_decision(Some(&tip), &desired), SyncAction::Skip));
}
