use wsx::cache::{Cache, CacheState};
use wsx::error::CacheError;
use wsx::{key_for, RepoCache};

#[test]
fn key_for_known_digests() {
    // SHA-512 test vectors, rendered as lowercase hex.
    assert_eq!(
        key_for(""),
        "cf83e1357eefb8bdf1542850d66d8007d620e4050b5715dc83f4a921d36ce9ce\
         47d0d13c5d85f2b0ff8318d2877eec2f63b931bd47417a81a538327af927da3e"
    );
    assert_eq!(
        key_for("abc"),
        "ddaf35a193617abacc417349ae20413112e6fa4e89a97ea20a9eeee64b55d39a\
         2192992a274fc1a836ba3c23a3feebbd454d4423643ce80e2a9ac94fa54ca49f"
    );
}

#[test]
fn key_for_is_deterministic() {
    assert_eq!(key_for("/home/u/ws/gh/a"), key_for("/home/u/ws/gh/a"));
}

#[test]
fn key_for_distinct_paths_differ() {
    assert_ne!(key_for("/home/u/ws/gh/a"), key_for("/home/u/ws/gh/b"));
    assert_ne!(key_for("a"), key_for("a/"));
}

#[test]
fn key_for_is_wide() {
    assert_eq!(key_for("/home/u/ws/gh/a").len(), 128);
}

#[test]
fn cache_slot_is_under_the_cache_root() {
    let cache = RepoCache { path: "/home/u/.cache/wsx".to_string() };
    let slot = cache.compute_cache_key("/home/u/ws/gh/a");
    assert_eq!(slot, format!("/home/u/.cache/wsx/{}", key_for("/home/u/ws/gh/a")));
}

#[test]
fn entry_path_is_under_the_cache_root() {
    let cache = Cache { path: "/cache".to_string() };
    assert_eq!(cache.entry_path("gh/a"), "/cache/gh/a".to_string());
}

#[test]
fn nothing_is_archived_at_first() {
    let state = CacheState::new();
    assert!(!state.is_archived("/home/u/ws/gh/a"));
    assert_eq!(state.restore("/home/u/ws/gh/a"), Err(CacheError::NotArchived));
}

#[test]
fn archive_makes_the_entry_exist() {
    let mut state = CacheState::new();
    state.archive("/home/u/ws/gh/a");
    assert!(state.is_archived("/home/u/ws/gh/a"));
    assert!(!state.is_archived("/home/u/ws/gh/b"));
}

#[test]
fn restore_succeeds_after_archive_and_keeps_the_entry() {
    let mut state = CacheState::new();
    state.archive("/home/u/ws/gh/a");
    assert_eq!(state.restore("/home/u/ws/gh/a"), Ok(()));
    // The entry is not consumed: it stays present and a second restore
    // succeeds as well.
    assert!(state.is_archived("/home/u/ws/gh/a"));
    assert_eq!(state.restore("/home/u/ws/gh/a"), Ok(()));
}

#[test]
fn rearchiving_the_same_path_keeps_one_entry() {
    let mut state = CacheState::new();
    state.archive("/home/u/ws/gh/a");
    state.archive("/home/u/ws/gh/a");
    assert!(state.is_archived("/home/u/ws/gh/a"));
    assert_eq!(state.restore("/home/u/ws/gh/a"), Ok(()));
}
