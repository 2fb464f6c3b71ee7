//! Heat map of review pressure: for every file in a repository, how many of
//! the open pull requests touch it, relative to the number of pull requests
//! considered.
//!
//! The pipeline has three stages. The synchronizer decides, per pull request,
//! whether the local `pull-request-<number>` branch must be fetched again.
//! The aggregator diffs each pull request's head against its merge base with
//! the target branch and merges the touched old-side line ranges into one
//! lookup keyed by pull request number. The renderer turns that lookup and a
//! list of repository paths into one impact fraction per file.

pub mod aggregate;
pub mod branch;
pub mod git;
pub mod hunks;
pub mod lookup;
pub mod paths;
pub mod render;
pub mod sync;
