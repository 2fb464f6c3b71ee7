//! The recording rules: which hunks leave which lines in a pull request's
//! map of touched files.

use prmap::hunks::{build_touched_line_map, default_ignore_list, ignore_list_has, HunkRecord};

fn hunk(path: &str, old_start: u32, old_lines: u32) -> HunkRecord {
    HunkRecord { path: path.to_string(), old_start, old_lines }
}

#[test]
fn hunk_records_its_old_side_range() {
    let hunks = vec![hunk("src/lib.rs", 10, 3)];
    let map = build_touched_line_map(&hunks, &default_ignore_list());
    let lines = map.lines_for(&"src/lib.rs".to_string()).expect("file must be recorded");
    assert_eq!(lines, &vec![10, 11, 12]);
}

#[test]
fn pure_addition_records_nothing() {
    let hunks = vec![hunk("src/lib.rs", 7, 0)];
    let map = build_touched_line_map(&hunks, &default_ignore_list());
    assert!(!map.contains(&"src/lib.rs".to_string()));
    assert!(map.lines_for(&"src/lib.rs".to_string()).is_none());
}

#[test]
fn empty_diff_gives_empty_map() {
    let hunks: Vec<HunkRecord> = Vec::new();
    let map = build_touched_line_map(&hunks, &default_ignore_list());
    assert!(!map.contains(&"anything".to_string()));
}

#[test]
fn lock_file_is_never_recorded() {
    let hunks = vec![hunk("Cargo.lock", 1, 50), hunk("Cargo.lock", 100, 7)];
    let map = build_touched_line_map(&hunks, &default_ignore_list());
    assert!(!map.contains(&"Cargo.lock".to_string()));
}

#[test]
fn ignore_list_membership() {
    let ignore = default_ignore_list();
    assert!(ignore_list_has(&ignore, &"Cargo.lock".to_string()));
    assert!(!ignore_list_has(&ignore, &"src/main.rs".to_string()));
}

#[test]
fn hunks_of_one_file_append_in_order() {
    let hunks = vec![hunk("a.rs", 10, 3), hunk("b.rs", 1, 1), hunk("a.rs", 20, 2)];
    let map = build_touched_line_map(&hunks, &default_ignore_list());
    let a = map.lines_for(&"a.rs".to_string()).expect("a.rs recorded");
    assert_eq!(a, &vec![10, 11, 12, 20, 21]);
    let b = map.lines_for(&"b.rs".to_string()).expect("b.rs recorded");
    assert_eq!(b, &vec![1]);
}

#[test]
fn duplicate_lines_are_kept() {
    let hunks = vec![hunk("a.rs", 5, 2), hunk("a.rs", 5, 2)];
    let map = build_touched_line_map(&hunks, &default_ignore_list());
    let a = map.lines_for(&"a.rs".to_string()).expect("a.rs recorded");
    assert_eq!(a, &vec![5, 6, 5, 6]);
}

#[test]
fn out_of_range_hunk_is_ignored() {
    let hunks = vec![hunk("a.rs", u32::MAX, 2)];
    let map = build_touched_line_map(&hunks, &default_ignore_list());
    assert!(!map.contains(&"a.rs".to_string()));
}
