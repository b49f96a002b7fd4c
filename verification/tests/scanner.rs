use wsx::error::ScanError;
use wsx::scan::{DirEntry, DirId, DirListing, EntryKind, Scanner};

fn id(n: u64) -> DirId {
    DirId { dev: 1, ino: n }
}

fn subdir(name: &str, n: u64) -> DirEntry {
    DirEntry { name: name.to_string(), kind: EntryKind::Subdir(id(n)) }
}

fn file(name: &str) -> DirEntry {
    DirEntry { name: name.to_string(), kind: EntryKind::Other }
}

#[test]
fn a_repo_root_is_found() {
    let mut s = Scanner::new("/ws/gh/a".to_string(), id(1));
    let (path, root) = s.next_request().unwrap();
    assert_eq!(path, "/ws/gh/a".to_string());
    assert_eq!(root, id(1));
    s.feed(DirListing::Entries(vec![subdir(".git", 2), file("README")]));
    assert!(s.is_done());
    let out = s.finish().unwrap();
    assert_eq!(out.repos, vec!["/ws/gh/a".to_string()]);
    assert!(out.warnings.is_empty());
}

#[test]
fn nested_checkout_inside_a_repo_is_not_reported() {
    let mut s = Scanner::new("/ws".to_string(), id(1));
    s.next_request().unwrap();
    s.feed(DirListing::Entries(vec![subdir("repo", 2)]));
    let (path, _) = s.next_request().unwrap();
    assert_eq!(path, "/ws/repo".to_string());
    // The repo root carries the git marker and a nested checkout below it;
    // descent stops here, so the nested one is never even asked about.
    s.feed(DirListing::Entries(vec![subdir(".git", 3), subdir("sub", 4)]));
    assert!(s.next_request().is_none());
    let out = s.finish().unwrap();
    assert_eq!(out.repos, vec!["/ws/repo".to_string()]);
}

#[test]
fn a_dotgit_file_is_not_a_marker() {
    let mut s = Scanner::new("/ws".to_string(), id(1));
    s.next_request().unwrap();
    s.feed(DirListing::Entries(vec![file(".git")]));
    let out = s.finish().unwrap();
    assert!(out.repos.is_empty());
}

fn run_cycle(with_backlink: bool) -> Vec<String> {
    let mut s = Scanner::new("/ws".to_string(), id(1));
    // The root holds directory a; a holds a repo and, in the cyclic
    // variant, a symlink leading back to the root.
    s.next_request().unwrap();
    s.feed(DirListing::Entries(vec![subdir("a", 2)]));
    let (path, _) = s.next_request().unwrap();
    assert_eq!(path, "/ws/a".to_string());
    let mut entries = vec![subdir("repo", 3)];
    if with_backlink {
        entries.push(subdir("loop", 1));
    }
    s.feed(DirListing::Entries(entries));
    let (path, _) = s.next_request().unwrap();
    assert_eq!(path, "/ws/a/repo".to_string());
    s.feed(DirListing::Entries(vec![subdir(".git", 4)]));
    // In both variants nothing is left to read: the backlink would revisit
    // the root, so it was skipped and the scan terminates.
    assert!(s.next_request().is_none());
    s.finish().unwrap().repos
}

#[test]
fn symlink_cycle_terminates_with_the_acyclic_result() {
    assert_eq!(run_cycle(true), run_cycle(false));
    assert_eq!(run_cycle(true), vec!["/ws/a/repo".to_string()]);
}

#[test]
fn self_link_is_skipped() {
    let mut s = Scanner::new("/ws".to_string(), id(1));
    s.next_request().unwrap();
    s.feed(DirListing::Entries(vec![subdir("self", 1)]));
    assert!(s.next_request().is_none());
    assert!(s.finish().unwrap().repos.is_empty());
}

#[test]
fn unreadable_root_fails_the_scan() {
    let mut s = Scanner::new("/nowhere".to_string(), id(1));
    s.next_request().unwrap();
    s.feed(DirListing::Unreadable);
    assert!(s.next_request().is_none());
    assert_eq!(s.finish().unwrap_err(), ScanError::IOError);
}

#[test]
fn unreadable_subtree_keeps_partial_results() {
    let mut s = Scanner::new("/ws".to_string(), id(1));
    s.next_request().unwrap();
    s.feed(DirListing::Entries(vec![subdir("locked", 2), subdir("open", 3)]));
    // Depth-first in listing order: "locked" first.
    let (path, _) = s.next_request().unwrap();
    assert_eq!(path, "/ws/locked".to_string());
    s.feed(DirListing::Unreadable);
    let (path, _) = s.next_request().unwrap();
    assert_eq!(path, "/ws/open".to_string());
    s.feed(DirListing::Entries(vec![subdir(".git", 4)]));
    let out = s.finish().unwrap();
    assert_eq!(out.repos, vec!["/ws/open".to_string()]);
    assert_eq!(out.warnings, vec!["/ws/locked".to_string()]);
}

#[test]
fn descent_is_depth_first_in_listing_order() {
    let mut s = Scanner::new("/w".to_string(), id(1));
    s.next_request().unwrap();
    s.feed(DirListing::Entries(vec![subdir("a", 2), subdir("b", 3)]));
    let (path, _) = s.next_request().unwrap();
    assert_eq!(path, "/w/a".to_string());
    s.feed(DirListing::Entries(vec![subdir("x", 4)]));
    let (path, _) = s.next_request().unwrap();
    assert_eq!(path, "/w/a/x".to_string());
    s.feed(DirListing::Entries(vec![subdir(".git", 5)]));
    let (path, _) = s.next_request().unwrap();
    assert_eq!(path, "/w/b".to_string());
    s.feed(DirListing::Entries(vec![subdir(".git", 6)]));
    let out = s.finish().unwrap();
    assert_eq!(out.repos, vec!["/w/a/x".to_string(), "/w/b".to_string()]);
}

#[test]
fn diamond_links_are_visited_once_per_descent_path() {
    // Two sibling names lead to the same directory: neither stands on the
    // other's descent path, so each is visited under its own path.
    let mut s = Scanner::new("/w".to_string(), id(1));
    s.next_request().unwrap();
    s.feed(DirListing::Entries(vec![subdir("a", 2), subdir("b", 2)]));
    let (path, _) = s.next_request().unwrap();
    assert_eq!(path, "/w/a".to_string());
    s.feed(DirListing::Entries(vec![subdir(".git", 3)]));
    let (path, _) = s.next_request().unwrap();
    assert_eq!(path, "/w/b".to_string());
    s.feed(DirListing::Entries(vec![subdir(".git", 3)]));
    let out = s.finish().unwrap();
    assert_eq!(out.repos, vec!["/w/a".to_string(), "/w/b".to_string()]);
}
