use stampname::walk::CandidateEntry;
use stampname::walk::Walker;
use stampname::walk::sort_entries;

fn file(path: &str) -> CandidateEntry {
    CandidateEntry { path: path.to_string(), is_directory: false }
}

fn dir(path: &str) -> CandidateEntry {
    CandidateEntry { path: path.to_string(), is_directory: true }
}

fn paths(entries: &[CandidateEntry]) -> Vec<String> {
    entries.iter().map(|e| e.path.clone()).collect()
}

#[test]
fn sort_puts_directories_before_files() {
    let mut v = vec![file("b.txt"), dir("zeta"), file("a.txt"), dir("alpha")];
    sort_entries(&mut v);
    assert_eq!(paths(&v), vec!["alpha", "zeta", "a.txt", "b.txt"]);
    assert!(v[0].is_directory && v[1].is_directory);
    assert!(!v[2].is_directory && !v[3].is_directory);
}

#[test]
fn sort_is_deterministic_across_listing_orders() {
    // the same entries in two different reported orders sort identically
    let mut first = vec![file("c"), file("a"), dir("d"), file("b")];
    let mut second = vec![file("b"), dir("d"), file("a"), file("c")];
    sort_entries(&mut first);
    sort_entries(&mut second);
    assert_eq!(paths(&first), paths(&second));
    assert_eq!(paths(&first), vec!["d", "a", "b", "c"]);
}

#[test]
fn sort_orders_by_normalized_name() {
    // the decomposed name sorts exactly where its composed form would
    let mut v = vec![file("caf\u{e9}99"), file("cafe\u{301}00"), file("cafa")];
    sort_entries(&mut v);
    assert_eq!(paths(&v), vec!["cafa", "cafe\u{301}00", "caf\u{e9}99"]);
}

#[test]
fn walker_non_recursive_stops_at_direct_children() {
    let mut w = Walker::new("root".to_string(), false);
    assert_eq!(w.next_dir(), Some("root".to_string()));
    w.on_listing(vec![file("root/a.txt"), dir("root/sub"), file("root/b.txt")]);
    // the nested directory is reported as an entry but never visited
    assert_eq!(w.next_dir(), None);
    assert_eq!(paths(&w.emitted), vec!["root/sub", "root/a.txt", "root/b.txt"]);
}

#[test]
fn walker_recursive_descends_in_order() {
    let mut w = Walker::new("root".to_string(), true);
    assert_eq!(w.next_dir(), Some("root".to_string()));
    w.on_listing(vec![dir("root/beta"), file("root/a.txt"), dir("root/alpha")]);
    // subdirectories come back depth-first in sorted order
    assert_eq!(w.next_dir(), Some("root/alpha".to_string()));
    w.on_listing(vec![file("root/alpha/x.txt")]);
    assert_eq!(w.next_dir(), Some("root/beta".to_string()));
    w.on_listing(vec![]);
    assert_eq!(w.next_dir(), None);
    assert_eq!(
        paths(&w.emitted),
        vec!["root/alpha", "root/beta", "root/a.txt", "root/alpha/x.txt"]
    );
}
