use rmfeeder::ledger::{Ledger, StorageError};
use std::collections::BTreeSet;

fn failure(detail: &str) -> StorageError {
    StorageError { detail: detail.to_string() }
}

/// A durable store with insert-if-absent writes, as the ledger expects it.
struct Store {
    rows: BTreeSet<String>,
}

impl Store {
    fn lookup(&self, key: &str) -> Result<bool, StorageError> {
        Ok(self.rows.contains(key))
    }

    fn insert(&mut self, key: &str) -> Result<(), StorageError> {
        self.rows.insert(key.to_string());
        Ok(())
    }
}

fn should_emit(ledger: &Ledger, store: &Store, key: &str) -> bool {
    ledger.should_emit(key, store.lookup(key)).unwrap()
}

fn mark_seen(ledger: &mut Ledger, store: &mut Store, key: &str) {
    let written = if ledger.contains(key) { Ok(()) } else { store.insert(key) };
    ledger.mark_seen(key, written).unwrap();
}

#[test]
fn new_ledger_has_seen_nothing() {
    let ledger = Ledger::new();
    assert!(!ledger.contains("https://example.com/a"));
    assert_eq!(ledger.should_emit("https://example.com/a", Ok(false)), Ok(true));
}

#[test]
fn should_emit_follows_the_store() {
    let ledger = Ledger::new();
    assert_eq!(ledger.should_emit("k", Ok(true)), Ok(false));
    assert_eq!(ledger.should_emit("k", Ok(false)), Ok(true));
    assert_eq!(ledger.should_emit("k", Err(failure("locked"))), Err(failure("locked")));
}

#[test]
fn should_emit_does_not_ask_for_what_the_run_has_seen() {
    let mut ledger = Ledger::new();
    assert_eq!(ledger.mark_seen("k", Ok(())), Ok(()));
    assert_eq!(ledger.should_emit("k", Ok(false)), Ok(false));
    assert_eq!(ledger.should_emit("k", Err(failure("locked"))), Ok(false));
    assert_eq!(ledger.should_emit("other", Ok(false)), Ok(true));
}

#[test]
fn marked_is_not_emitted_in_this_run_nor_the_next() {
    let mut store = Store { rows: BTreeSet::new() };
    let mut ledger = Ledger::new();
    assert!(should_emit(&ledger, &store, "yt::https://example.com/v"));
    mark_seen(&mut ledger, &mut store, "yt::https://example.com/v");
    assert!(!should_emit(&ledger, &store, "yt::https://example.com/v"));
    mark_seen(&mut ledger, &mut store, "another");
    assert!(!should_emit(&ledger, &store, "yt::https://example.com/v"));
    let next_run = Ledger::new();
    assert!(!should_emit(&next_run, &store, "yt::https://example.com/v"));
    assert!(!should_emit(&next_run, &store, "another"));
    assert!(should_emit(&next_run, &store, "new"));
}

#[test]
fn clear_makes_everything_new_again() {
    let mut store = Store { rows: BTreeSet::new() };
    let mut ledger = Ledger::new();
    mark_seen(&mut ledger, &mut store, "a");
    mark_seen(&mut ledger, &mut store, "b");
    store.rows.clear();
    assert_eq!(ledger.clear(Ok(())), Ok(()));
    assert!(should_emit(&ledger, &store, "a"));
    assert!(should_emit(&ledger, &store, "b"));
    assert!(!ledger.contains("a"));
}

#[test]
fn failed_clear_forgets_nothing() {
    let mut ledger = Ledger::new();
    ledger.mark_seen("a", Ok(())).unwrap();
    assert_eq!(ledger.clear(Err(failure("read-only"))), Err(failure("read-only")));
    assert!(ledger.contains("a"));
}

#[test]
fn marking_twice_is_marking_once() {
    let mut store = Store { rows: BTreeSet::new() };
    let mut ledger = Ledger::new();
    mark_seen(&mut ledger, &mut store, "k");
    assert_eq!(store.rows.len(), 1);
    assert_eq!(ledger.mark_seen("k", Err(failure("duplicate key"))), Ok(()));
    assert!(ledger.contains("k"));
    assert!(!ledger.contains("K"));
    assert_eq!(store.rows.len(), 1);
}

#[test]
fn failed_write_is_reported_and_not_remembered() {
    let mut ledger = Ledger::new();
    assert_eq!(ledger.mark_seen("k", Err(failure("disk full"))), Err(failure("disk full")));
    assert!(!ledger.contains("k"));
    assert_eq!(ledger.should_emit("k", Ok(false)), Ok(true));
}
