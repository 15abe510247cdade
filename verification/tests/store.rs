use mrrper::store::{DigestRecord, DigestStore};

fn record(id: &str, fingerprint: &str) -> DigestRecord {
    DigestRecord { id: id.to_string(), fingerprint: fingerprint.to_string() }
}

#[test]
fn store_returns_what_was_set() {
    let mut store = DigestStore::new();
    assert_eq!(store.get("1"), None);
    assert_eq!(store.len(), 0);
    store.set("1", "abc");
    assert_eq!(store.get("1"), Some("abc".to_string()));
    assert_eq!(store.get("2"), None);
    assert_eq!(store.get(""), None);
}

#[test]
fn later_write_replaces_earlier() {
    let mut store = DigestStore::new();
    store.set("1", "abc");
    store.set("2", "xyz");
    store.set("1", "def");
    assert_eq!(store.get("1"), Some("def".to_string()));
    assert_eq!(store.get("2"), Some("xyz".to_string()));
    assert_eq!(store.len(), 2);
}

#[test]
fn store_survives_a_restart() {
    let mut store = DigestStore::new();
    store.set("other", "G");
    store.set("X", "F");
    let written = store.snapshot();
    let reloaded = DigestStore::restore(&written);
    assert_eq!(reloaded.get("X"), Some("F".to_string()));
    assert_eq!(reloaded.get("other"), Some("G".to_string()));
    assert_eq!(reloaded.get("missing"), None);
    assert_eq!(reloaded.len(), 2);
    assert_eq!(reloaded.snapshot(), written);

    let again = store.reload();
    assert_eq!(again.get("X"), Some("F".to_string()));
    assert_eq!(again.get("other"), Some("G".to_string()));
    assert_eq!(again.snapshot(), store.snapshot());
    assert_eq!(DigestStore::new().reload().len(), 0);
}

#[test]
fn snapshot_lists_each_id_once() {
    let mut store = DigestStore::new();
    store.set("a", "1");
    store.set("b", "2");
    store.set("a", "3");
    assert_eq!(store.snapshot(), vec![record("a", "3"), record("b", "2")]);
    assert_eq!(DigestStore::new().snapshot(), Vec::new());
}

#[test]
fn restore_lets_the_later_entry_count() {
    let store = DigestStore::restore(&vec![record("a", "1"), record("b", "2"), record("a", "3")]);
    assert_eq!(store.get("a"), Some("3".to_string()));
    assert_eq!(store.get("b"), Some("2".to_string()));
    assert_eq!(store.len(), 2);
}
