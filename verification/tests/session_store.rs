//! Session store tests: upsert semantics, lookups, and the atomic
//! set-insertion count.

use lvsp::SessionStore;

#[test]
fn get_missing_key_is_none() {
    let store = SessionStore::new();
    assert_eq!(store.get("absent"), None);
}

#[test]
fn set_then_get() {
    let mut store = SessionStore::new();
    store.set("peer:1_nonce", "Ab3xYz09qW");
    assert_eq!(store.get("peer:1_nonce"), Some(String::from("Ab3xYz09qW")));
    assert_eq!(store.get("peer:2_nonce"), None);
}

#[test]
fn set_overwrites_stale_value() {
    let mut store = SessionStore::new();
    store.set("peer:1_nonce", "first00000");
    store.set("peer:1_nonce", "second0000");
    assert_eq!(store.get("peer:1_nonce"), Some(String::from("second0000")));
}

#[test]
fn add_to_set_counts_new_elements_only() {
    let mut store = SessionStore::new();
    assert_eq!(store.add_to_set("g_1_voice", "alpha"), 1);
    assert_eq!(store.add_to_set("g_1_voice", "alpha"), 0);
    assert_eq!(store.add_to_set("g_1_voice", "beta"), 1);
    assert!(store.contains("g_1_voice", "alpha"));
    assert!(store.contains("g_1_voice", "beta"));
    assert!(!store.contains("g_1_voice", "gamma"));
    assert!(!store.contains("g_2_voice", "alpha"));
}

#[test]
fn flush_all_empties_the_store() {
    let mut store = SessionStore::new();
    store.set("k", "v");
    assert_eq!(store.add_to_set("s", "e"), 1);
    store.flush_all();
    assert_eq!(store.get("k"), None);
    assert!(!store.contains("s", "e"));
    assert_eq!(store.add_to_set("s", "e"), 1);
}

#[test]
fn sets_and_values_are_independent() {
    let mut store = SessionStore::new();
    store.set("k", "v");
    assert_eq!(store.add_to_set("k", "v"), 1);
    assert_eq!(store.get("k"), Some(String::from("v")));
    assert!(store.contains("k", "v"));
}
