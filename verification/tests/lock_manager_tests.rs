//! Tests of reader/writer admission.

use edms::lock_manager::SqliteLockManager;

#[test]
fn readers_block_writers_until_released() {
    let mut m = SqliteLockManager::new();
    assert!(m.acquire_read("a.sqlite"));
    assert!(m.acquire_read("b.sqlite"));
    m.enqueue_write("a.sqlite");
    assert_eq!(m.acquire_write(), None);
    m.release_read("a.sqlite");
    assert_eq!(m.acquire_write(), None);
    m.release_read("b.sqlite");
    assert_eq!(m.acquire_write(), Some("a.sqlite".to_string()));
}

#[test]
fn writer_blocks_readers_and_writers_come_in_order() {
    let mut m = SqliteLockManager::new();
    m.enqueue_write("first");
    m.enqueue_write("second");
    assert_eq!(m.acquire_write(), Some("first".to_string()));
    assert!(!m.acquire_read("x"));
    assert_eq!(m.acquire_write(), Some("first".to_string()));
    m.release_write();
    assert_eq!(m.acquire_write(), Some("second".to_string()));
    m.release_write();
    assert_eq!(m.acquire_write(), None);
    assert!(m.acquire_read("x"));
}

#[test]
fn reading_twice_needs_one_release() {
    let mut m = SqliteLockManager::new();
    assert!(m.acquire_read("a"));
    assert!(m.acquire_read("a"));
    m.release_read("a");
    m.release_read("missing");
    m.enqueue_write("w");
    assert_eq!(m.acquire_write(), Some("w".to_string()));
}
