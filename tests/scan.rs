use folder_scanner::{
    sort_by_size_desc, DirEntryInfo, FolderInfo, ScanError, ScanHandle, ScanProgress, SizeAccumulator,
    UnitState, MAX_DEPTH,
};

fn dir(path: &str) -> DirEntryInfo {
    DirEntryInfo { path: path.to_string(), is_dir: true, size: None }
}

fn file(path: &str, size: u64) -> DirEntryInfo {
    DirEntryInfo { path: path.to_string(), is_dir: false, size: Some(size) }
}

fn info(path: &str, size: u64) -> FolderInfo {
    FolderInfo { path: path.to_string(), size }
}

fn sizes(entries: &[FolderInfo]) -> Vec<u64> {
    entries.iter().map(|e| e.size).collect()
}

fn paths(entries: &[FolderInfo]) -> Vec<String> {
    entries.iter().map(|e| e.path.clone()).collect()
}

/// Runs a whole scan over a root listing, with each child's outcome given,
/// returning units in the order `finish_order`.
fn run_scan(listing: Vec<DirEntryInfo>, outcomes: &[Option<u64>], finish_order: &[usize]) -> ScanHandle {
    let mut h = ScanHandle::start("/root".to_string(), true, 10).unwrap();
    h.begin(Some(listing));
    for &i in finish_order {
        h.mark_started(i);
        h.unit_returned(i, outcomes[i]);
    }
    assert!(h.publish(42));
    h
}

/// Walks a subtree whose directories are listed by `list`.
fn walk(root: &str, list: &dyn Fn(&str) -> Option<Vec<DirEntryInfo>>) -> Option<u64> {
    let mut acc = SizeAccumulator::new(root.to_string());
    while let Some(d) = acc.current_dir() {
        acc.record_listing(list(&d));
    }
    acc.outcome()
}

#[test]
fn sort_orders_by_size_descending() {
    let r = sort_by_size_desc(vec![info("a", 3), info("b", 9), info("c", 1), info("d", 5)]);
    assert_eq!(sizes(&r), vec![9, 5, 3, 1]);
    assert_eq!(paths(&r), vec!["b", "d", "a", "c"]);
}

#[test]
fn sort_keeps_listing_order_for_equal_sizes() {
    let r = sort_by_size_desc(vec![info("a", 2), info("b", 7), info("c", 2), info("d", 7)]);
    assert_eq!(paths(&r), vec!["b", "d", "a", "c"]);
}

#[test]
fn sort_of_empty_is_empty() {
    assert!(sort_by_size_desc(Vec::new()).is_empty());
}

#[test]
fn progress_counts_finished_units_up_to_total() {
    let mut p = ScanProgress::new();
    assert_eq!((p.completed, p.total, p.current_path.as_str()), (0, 0, ""));
    p.set_total(2);
    p.mark_started("x".to_string());
    assert_eq!(p.completed, 0);
    assert_eq!(p.current_path, "x");
    p.mark_finished();
    p.mark_finished();
    p.mark_finished();
    assert_eq!(p.completed, 2);
    let s = p.snapshot();
    assert_eq!((s.completed, s.total, s.current_path.as_str()), (2, 2, "x"));
}

#[test]
fn progress_is_monotonic_and_bounded_during_a_scan() {
    let mut h = ScanHandle::start("/r".to_string(), true, 10).unwrap();
    assert_eq!(h.progress().total, 0);
    h.begin(Some(vec![dir("/r/a"), dir("/r/b"), dir("/r/c")]));
    let mut last = h.progress().completed;
    for i in [2usize, 0, 1] {
        h.mark_started(i);
        let p = h.progress();
        assert!(p.completed >= last && p.completed <= p.total);
        h.unit_returned(i, Some(1));
        let p = h.progress();
        assert!(p.completed >= last && p.completed <= p.total);
        last = p.completed;
    }
    assert_eq!(last, 3);
    assert_eq!(h.progress().total, 3);
}

#[test]
fn current_path_follows_the_last_started_unit() {
    let mut h = ScanHandle::start("/r".to_string(), true, 10).unwrap();
    h.begin(Some(vec![dir("/r/a"), dir("/r/b")]));
    h.mark_started(1);
    h.mark_started(0);
    h.unit_returned(1, Some(5));
    assert_eq!(h.progress().current_path, "/r/a");
}

#[test]
fn not_done_until_every_unit_returned() {
    let mut h = ScanHandle::start("/r".to_string(), true, 10).unwrap();
    assert!(!h.is_done());
    assert!(!h.publish(1));
    h.begin(Some(vec![dir("/r/a"), dir("/r/b")]));
    h.mark_started(0);
    h.unit_returned(0, Some(10));
    assert!(!h.all_units_returned());
    assert!(!h.publish(1));
    assert!(!h.is_done());
    assert!(h.result().is_none());
    h.mark_started(1);
    h.unit_returned(1, Some(20));
    assert!(h.all_units_returned());
    assert!(h.publish(7));
    assert!(h.is_done());
    let r = h.result().unwrap();
    assert_eq!(sizes(&r.entries), vec![20, 10]);
    assert_eq!(r.elapsed_micros, 7);
    assert_eq!(r.scanned_root, "/r");
    assert_eq!(h.progress().completed, h.progress().total);
}

#[test]
fn result_is_published_once() {
    let mut h = run_scan(vec![dir("/root/a")], &[Some(3)], &[0]);
    assert!(!h.publish(99));
    assert_eq!(h.result().unwrap().elapsed_micros, 42);
}

#[test]
fn empty_root_gives_empty_done_result() {
    let h = run_scan(vec![file("/root/f", 500)], &[], &[]);
    assert!(h.is_done());
    let r = h.result().unwrap();
    assert!(r.entries.is_empty());
    assert_eq!(h.progress().total, 0);
}

#[test]
fn unreadable_root_listing_gives_empty_result() {
    let mut h = ScanHandle::start("/r".to_string(), true, 10).unwrap();
    h.begin(None);
    assert!(h.publish(0));
    assert!(h.result().unwrap().entries.is_empty());
}

#[test]
fn one_subdirectory_with_one_file() {
    let size = walk("/root/a", &|d| if d == "/root/a" { Some(vec![file("/root/a/f", 1000)]) } else { None });
    assert_eq!(size, Some(1000));
    let h = run_scan(vec![dir("/root/a")], &[size], &[0]);
    let r = h.result().unwrap();
    assert_eq!(r.entries.len(), 1);
    assert_eq!(r.entries[0].size, 1000);
    assert_eq!(r.entries[0].path, "/root/a");
}

#[test]
fn two_subdirectories_ranked_whatever_the_order() {
    let a = run_scan(vec![dir("/root/x"), dir("/root/y")], &[Some(5000), Some(3000)], &[0, 1]);
    let b = run_scan(vec![dir("/root/x"), dir("/root/y")], &[Some(5000), Some(3000)], &[1, 0]);
    let c = run_scan(vec![dir("/root/y"), dir("/root/x")], &[Some(3000), Some(5000)], &[1, 0]);
    for h in [&a, &b, &c] {
        let r = h.result().unwrap();
        assert_eq!(sizes(&r.entries), vec![5000, 3000]);
        assert_eq!(paths(&r.entries), vec!["/root/x", "/root/y"]);
    }
}

#[test]
fn unreadable_subdirectory_is_left_out() {
    let denied = walk("/root/locked", &|_| None);
    assert_eq!(denied, None);
    let open = walk("/root/open", &|d| if d == "/root/open" { Some(vec![file("/root/open/f", 70)]) } else { None });
    let h = run_scan(vec![dir("/root/locked"), dir("/root/open")], &[denied, open], &[0, 1]);
    let r = h.result().unwrap();
    assert_eq!(paths(&r.entries), vec!["/root/open"]);
    assert_eq!(sizes(&r.entries), vec![70]);
    assert_eq!(h.progress().completed, 2);
}

#[test]
fn missing_root_is_invalid() {
    let r = ScanHandle::start("/does/not/exist".to_string(), false, 10);
    assert_eq!(r.err(), Some(ScanError::InvalidRoot));
}

#[test]
fn start_keeps_root_and_hint() {
    let h = ScanHandle::start("/r".to_string(), true, 25).unwrap();
    assert_eq!(h.root(), "/r");
    assert_eq!(h.max_results(), 25);
    assert!(!h.is_done());
}

#[test]
fn scanning_twice_gives_identical_entries() {
    let listing = || vec![dir("/root/a"), dir("/root/b"), dir("/root/c"), file("/root/f", 9)];
    let outcomes = [Some(10), Some(30), Some(10)];
    let first = run_scan(listing(), &outcomes, &[0, 1, 2]).result().unwrap();
    let second = run_scan(listing(), &outcomes, &[2, 1, 0]).result().unwrap();
    assert_eq!(sizes(&first.entries), sizes(&second.entries));
    assert_eq!(paths(&first.entries), paths(&second.entries));
    assert_eq!(paths(&first.entries), vec!["/root/b", "/root/a", "/root/c"]);
}

#[test]
fn unit_states_follow_outcomes() {
    assert_eq!(UnitState::Sized(3), UnitState::Sized(3));
    assert_ne!(UnitState::Failed, UnitState::Pending);
}

#[test]
fn walk_sums_nested_directories() {
    let size = walk("/t", &|d| match d {
        "/t" => Some(vec![file("/t/a", 100), dir("/t/sub"), file("/t/b", 23)]),
        "/t/sub" => Some(vec![file("/t/sub/c", 7), dir("/t/sub/deeper")]),
        "/t/sub/deeper" => Some(vec![file("/t/sub/deeper/d", 1)]),
        _ => None,
    });
    assert_eq!(size, Some(131));
}

#[test]
fn walk_skips_unreadable_inner_directory() {
    let size = walk("/t", &|d| match d {
        "/t" => Some(vec![file("/t/a", 100), dir("/t/locked")]),
        _ => None,
    });
    assert_eq!(size, Some(100));
}

#[test]
fn walk_counts_unknown_sizes_as_zero() {
    let entries = vec![
        DirEntryInfo { path: "/t/x".to_string(), is_dir: false, size: None },
        file("/t/link", 12),
    ];
    let size = walk("/t", &|d| if d == "/t" { Some(entries.iter().map(|e| DirEntryInfo { path: e.path.clone(), is_dir: e.is_dir, size: e.size }).collect()) } else { None });
    assert_eq!(size, Some(12));
}

#[test]
fn walk_saturates_at_the_largest_size() {
    let size = walk("/t", &|d| if d == "/t" { Some(vec![file("/t/a", u64::MAX), file("/t/b", 5)]) } else { None });
    assert_eq!(size, Some(u64::MAX));
}

#[test]
fn walk_of_empty_directory_is_zero() {
    assert_eq!(walk("/t", &|_| Some(Vec::new())), Some(0));
}

#[test]
fn walk_stops_at_the_depth_bound() {
    let mut acc = SizeAccumulator::new("/d".to_string());
    let mut depth = 0usize;
    while let Some(d) = acc.current_dir() {
        let next = format!("{}/n", d);
        acc.record_listing(Some(vec![file(&format!("{}/f", d), 1), dir(&next)]));
        depth += 1;
    }
    assert!(acc.is_finished());
    assert_eq!(depth, MAX_DEPTH + 1);
    assert_eq!(acc.outcome(), Some((MAX_DEPTH + 1) as u64));
}

#[test]
fn abandoned_walk_has_no_outcome() {
    let mut acc = SizeAccumulator::new("/t".to_string());
    acc.record_listing(Some(vec![file("/t/a", 10), dir("/t/sub")]));
    assert!(!acc.is_finished());
    acc.abandon();
    assert!(acc.is_finished());
    assert_eq!(acc.current_dir(), None);
    assert_eq!(acc.outcome(), None);
}
