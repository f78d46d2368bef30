use todo_tree::path_order::{compare_bytes, compare_paths};
use todo_tree::{Priority, ScanOptions, ScanResult, TodoItem, TodoParser};

fn item(tag: &str, message: &str, line: usize) -> TodoItem {
    TodoItem {
        tag: tag.to_string(),
        message: message.to_string(),
        line,
        column: 4,
        line_content: format!("// {}: {}", tag, message),
        author: None,
        priority: Priority::from_tag(tag),
    }
}

fn tag_count(r: &ScanResult, tag: &str) -> Option<usize> {
    r.tag_counts.iter().find(|(t, _)| t == tag).map(|(_, c)| *c)
}

fn check_invariants(r: &ScanResult) {
    let stored: usize = r.files.iter().map(|(_, v)| v.len()).sum();
    assert_eq!(r.total_count, stored);
    assert_eq!(r.files_with_todos, r.files.len());
    assert!(r.files.iter().all(|(_, v)| !v.is_empty()));
    let counted: usize = r.tag_counts.iter().map(|(_, c)| *c).sum();
    assert_eq!(counted, r.total_count);
    assert!(r.files_scanned >= r.files_with_todos);
}

fn parser() -> TodoParser {
    let tags = vec![
        "TODO".to_string(),
        "FIXME".to_string(),
        "BUG".to_string(),
        "NOTE".to_string(),
    ];
    TodoParser::new(&tags, false).unwrap()
}

#[test]
fn new_result_is_empty() {
    let r = ScanResult::new("/root".to_string());
    assert_eq!(r.total_count, 0);
    assert_eq!(r.files_scanned, 0);
    assert_eq!(r.files_with_todos, 0);
    assert!(r.files.is_empty());
    assert!(r.tag_counts.is_empty());
    assert_eq!(r.root, "/root");
}

#[test]
fn add_file_counts_items_and_tags() {
    let mut r = ScanResult::new("/p".to_string());
    r.add_file(
        "/p/a.rs".to_string(),
        vec![item("TODO", "one", 1), item("FIXME", "two", 2), item("TODO", "three", 5)],
    );
    r.add_file("/p/b.rs".to_string(), vec![]);
    r.add_file("/p/c.rs".to_string(), vec![item("NOTE", "four", 1)]);
    assert_eq!(r.files_scanned, 3);
    assert_eq!(r.files_with_todos, 2);
    assert_eq!(r.total_count, 4);
    assert_eq!(tag_count(&r, "TODO"), Some(2));
    assert_eq!(tag_count(&r, "FIXME"), Some(1));
    assert_eq!(tag_count(&r, "NOTE"), Some(1));
    assert_eq!(tag_count(&r, "BUG"), None);
    check_invariants(&r);
}

#[test]
fn empty_add_only_counts_scanned() {
    let mut r = ScanResult::new("/p".to_string());
    r.add_file("/p/a.rs".to_string(), vec![item("TODO", "x", 1)]);
    let before_files = r.files.clone();
    r.add_file("/p/empty.rs".to_string(), vec![]);
    assert_eq!(r.files_scanned, 2);
    assert_eq!(r.files, before_files);
    assert_eq!(r.total_count, 1);
    check_invariants(&r);
}

#[test]
fn invariants_hold_after_many_adds() {
    let mut r = ScanResult::new("/p".to_string());
    for i in 0..20usize {
        let items: Vec<TodoItem> = (0..(i % 4)).map(|k| item(if k % 2 == 0 { "TODO" } else { "BUG" }, "m", k + 1)).collect();
        r.add_file(format!("/p/f{}.rs", i), items);
        check_invariants(&r);
    }
    assert_eq!(r.files_scanned, 20);
    assert_eq!(r.files_with_todos, 15);
}

#[test]
fn filter_by_tag_keeps_matching_items() {
    let mut r = ScanResult::new("/p".to_string());
    r.add_file(
        "/p/test.rs".to_string(),
        vec![
            item("TODO", "First", 2),
            item("FIXME", "Second", 3),
            item("TODO", "Third", 4),
            item("NOTE", "Fourth", 5),
        ],
    );
    r.add_file("/p/other.rs".to_string(), vec![item("BUG", "x", 1)]);
    r.add_file("/p/none.rs".to_string(), vec![]);
    let filtered = r.filter_by_tag("todo");
    assert_eq!(filtered.total_count, 2);
    assert_eq!(tag_count(&filtered, "TODO"), Some(2));
    assert_eq!(filtered.files.len(), 1);
    assert_eq!(filtered.files_with_todos, 1);
    assert_eq!(filtered.files_scanned, 3);
    assert_eq!(filtered.root, "/p");
    assert_eq!(filtered.files[0].1[1].message, "Third");
    check_invariants(&filtered);
}

#[test]
fn filter_by_tag_twice_is_the_same() {
    let mut r = ScanResult::new("/p".to_string());
    r.add_file("/p/a.rs".to_string(), vec![item("TODO", "a", 1), item("BUG", "b", 2)]);
    r.add_file("/p/b.rs".to_string(), vec![item("BUG", "c", 1)]);
    r.add_file("/p/c.rs".to_string(), vec![item("todo", "d", 3)]);
    let once = r.filter_by_tag("TODO");
    let twice = once.filter_by_tag("TODO");
    assert_eq!(once.files, twice.files);
    assert_eq!(once.tag_counts, twice.tag_counts);
    assert_eq!(once.total_count, twice.total_count);
    assert_eq!(once.files_with_todos, twice.files_with_todos);
    assert_eq!(once.files_scanned, twice.files_scanned);
    assert_eq!(once.root, twice.root);
    assert_eq!(once.total_count, 2);
}

#[test]
fn filter_by_missing_tag_is_empty() {
    let mut r = ScanResult::new("/p".to_string());
    r.add_file("/p/a.rs".to_string(), vec![item("TODO", "a", 1)]);
    let f = r.filter_by_tag("HACK");
    assert!(f.files.is_empty());
    assert_eq!(f.total_count, 0);
    assert_eq!(f.files_scanned, 1);
}

#[test]
fn all_items_flattens_in_file_order() {
    let mut r = ScanResult::new("/p".to_string());
    r.add_file("/p/a.rs".to_string(), vec![item("TODO", "A", 1)]);
    r.add_file("/p/b.rs".to_string(), vec![item("TODO", "B", 1), item("BUG", "C", 2)]);
    let all = r.all_items();
    assert_eq!(all.len(), 3);
    assert_eq!(all[0].0, "/p/a.rs");
    assert_eq!(all[1].1.message, "B");
    assert_eq!(all[2].0, "/p/b.rs");
    assert_eq!(all[2].1.tag, "BUG");
}

#[test]
fn record_file_scans_content() {
    let p = parser();
    let mut r = ScanResult::new("/t".to_string());
    let content = "\n// TODO: First todo\nfn main() {\n    // FIXME: Fix this\n}\n";
    assert!(r.record_file(&p, "/t/test.rs".to_string(), Some(content)));
    assert_eq!(r.total_count, 2);
    assert_eq!(r.files_with_todos, 1);
    assert_eq!(tag_count(&r, "TODO"), Some(1));
    assert_eq!(tag_count(&r, "FIXME"), Some(1));
    assert_eq!(r.files[0].1[1].line, 4);
}

#[test]
fn unreadable_file_counts_as_scanned() {
    let p = parser();
    let mut r = ScanResult::new("/t".to_string());
    assert!(r.record_file(&p, "/t/file1.rs".to_string(), Some("// TODO: In file 1")));
    assert!(r.record_file(&p, "/t/bin.dat".to_string(), None));
    assert!(r.record_file(&p, "/t/file3.rs".to_string(), Some("// No todos here")));
    assert_eq!(r.files_scanned, 3);
    assert!(r.files_with_todos <= 2);
    assert_eq!(r.files_with_todos, 1);
    assert_eq!(r.total_count, 1);
    check_invariants(&r);
}

#[test]
fn duplicate_path_replaces_items() {
    let mut r = ScanResult::new("/p".to_string());
    r.add_file("/p/a.rs".to_string(), vec![item("TODO", "old", 1)]);
    r.add_file("/p/a.rs".to_string(), vec![item("BUG", "new", 1), item("BUG", "new2", 2)]);
    assert_eq!(r.files.len(), 1);
    assert_eq!(r.files[0].1.len(), 2);
    assert_eq!(r.files_with_todos, 2);
    assert_eq!(r.total_count, 3);
    assert_eq!(r.files_scanned, 2);
}

#[test]
fn scan_options_default_values() {
    let o = ScanOptions::default();
    assert!(o.include_patterns.is_empty());
    assert!(o.exclude.is_empty());
    assert_eq!(o.max_depth, 0);
    assert!(!o.follow_links);
    assert!(!o.hidden);
    assert_eq!(o.threads, 0);
    assert!(o.respect_gitignore);
}

#[test]
fn duplicate_item_is_equal() {
    let mut a = item("TODO", "x", 3);
    a.author = Some("me".to_string());
    assert_eq!(a.duplicate(), a);
}

#[test]
fn sorted_files_orders_by_components() {
    let mut r = ScanResult::new("/p".to_string());
    r.add_file("/p/b.rs".to_string(), vec![item("TODO", "b", 1)]);
    r.add_file("/p/a.b".to_string(), vec![item("TODO", "ab", 1)]);
    r.add_file("/p/a/z.rs".to_string(), vec![item("TODO", "z", 1)]);
    let sorted = r.sorted_files();
    let paths: Vec<&str> = sorted.iter().map(|(p, _)| p.as_str()).collect();
    assert_eq!(paths, vec!["/p/a/z.rs", "/p/a.b", "/p/b.rs"]);
    assert_eq!(sorted[2].1[0].message, "b");
}

#[test]
fn compare_paths_goes_by_components() {
    assert_eq!(compare_paths("a/b", "a.b"), -1);
    assert_eq!(compare_paths("a.b", "a/b"), 1);
    assert_eq!(compare_paths("a//b/", "a/b"), 0);
    assert_eq!(compare_paths("a", "a/b"), -1);
    assert_eq!(compare_bytes(b"abc", b"abd"), -1);
    assert_eq!(compare_bytes(b"ab", b"ab"), 0);
}
