//! The aggregate lookup and the impact fraction it yields per file.

use prmap::aggregate::considered_count;
use prmap::hunks::{build_touched_line_map, default_ignore_list, HunkRecord, TouchedLineMap};
use prmap::lookup::AggregateLookup;
use prmap::render::{impact_rows, report_rows};

fn map_of(hunks: Vec<HunkRecord>) -> TouchedLineMap {
    build_touched_line_map(&hunks, &default_ignore_list())
}

fn hunk(path: &str, old_start: u32, old_lines: u32) -> HunkRecord {
    HunkRecord { path: path.to_string(), old_start, old_lines }
}

#[test]
fn two_pull_requests_one_touching() {
    // a.txt is never touched, b.txt only by the first pull request.
    let mut lookup = AggregateLookup::new();
    lookup.insert(1, map_of(vec![hunk("b.txt", 3, 2)]));
    lookup.insert(2, map_of(vec![]));
    assert_eq!(lookup.impact_fraction(&"a.txt".to_string()), (2, 2));
    assert_eq!(lookup.impact_fraction(&"b.txt".to_string()), (1, 2));
}

#[test]
fn untouched_file_is_coldest() {
    let mut lookup = AggregateLookup::new();
    lookup.insert(7, map_of(vec![hunk("x.rs", 1, 1)]));
    lookup.insert(9, map_of(vec![hunk("y.rs", 1, 1)]));
    lookup.insert(12, map_of(vec![hunk("z.rs", 1, 1)]));
    let (num, den) = lookup.impact_fraction(&"untouched.rs".to_string());
    assert_eq!((num, den), (3, 3));
}

#[test]
fn file_touched_by_every_pull_request_is_hottest() {
    let mut lookup = AggregateLookup::new();
    lookup.insert(1, map_of(vec![hunk("hot.rs", 1, 1)]));
    lookup.insert(2, map_of(vec![hunk("hot.rs", 40, 4), hunk("other.rs", 2, 2)]));
    assert_eq!(lookup.impact_fraction(&"hot.rs".to_string()), (0, 2));
}

#[test]
fn empty_lookup_renders_everything_coldest() {
    let lookup = AggregateLookup::new();
    assert_eq!(lookup.impact_fraction(&"any.rs".to_string()), (1, 1));
}

#[test]
fn empty_diff_contributes_no_touch() {
    let mut lookup = AggregateLookup::new();
    lookup.insert(1, map_of(vec![hunk("b.txt", 3, 2)]));
    let before = lookup.touch_count(&"b.txt".to_string());
    lookup.insert(2, map_of(vec![]));
    assert_eq!(lookup.touch_count(&"b.txt".to_string()), before);
    assert_eq!(lookup.touch_count(&"a.txt".to_string()), 0);
}

#[test]
fn insert_replaces_map_of_same_number() {
    let mut lookup = AggregateLookup::new();
    lookup.insert(5, map_of(vec![hunk("old.rs", 1, 1)]));
    lookup.insert(5, map_of(vec![hunk("new.rs", 1, 1)]));
    assert_eq!(lookup.total(), 1);
    let map = lookup.map_for(5).expect("number 5 present");
    assert!(map.contains(&"new.rs".to_string()));
    assert!(!map.contains(&"old.rs".to_string()));
}

#[test]
fn only_the_first_hundred_count() {
    assert_eq!(considered_count(0), 0);
    assert_eq!(considered_count(42), 42);
    assert_eq!(considered_count(100), 100);
    assert_eq!(considered_count(317), 100);
}

#[test]
fn report_filters_sorts_and_grades() {
    let mut lookup = AggregateLookup::new();
    lookup.insert(1, map_of(vec![hunk("b.txt", 3, 2)]));
    lookup.insert(2, map_of(vec![]));
    let walked = vec![
        "b.txt".to_string(),
        ".git/HEAD".to_string(),
        "a.txt".to_string(),
    ];
    let rows = report_rows(&lookup, &walked);
    assert_eq!(rows.len(), 2);
    assert_eq!(rows[0].path, "a.txt");
    assert_eq!((rows[0].numerator, rows[0].denominator), (2, 2));
    assert_eq!(rows[1].path, "b.txt");
    assert_eq!((rows[1].numerator, rows[1].denominator), (1, 2));
}

#[test]
fn rows_carry_fraction_per_path() {
    let mut lookup = AggregateLookup::new();
    lookup.insert(1, map_of(vec![hunk("b.txt", 3, 2)]));
    lookup.insert(2, map_of(vec![]));
    let paths = vec!["a.txt".to_string(), "b.txt".to_string()];
    let rows = impact_rows(&lookup, &paths);
    assert_eq!(rows.len(), 2);
    assert_eq!(rows[0].path, "a.txt");
    assert_eq!((rows[0].numerator, rows[0].denominator), (2, 2));
    assert_eq!(rows[1].path, "b.txt");
    assert_eq!((rows[1].numerator, rows[1].denominator), (1, 2));
}
