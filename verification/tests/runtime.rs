use std::path::PathBuf;
use tui_gpu::runtime::{event_id, CasError, CasStore, EventLogWriter, Severity};

#[test]
fn cas_round_trip() {
    let store = CasStore::new(PathBuf::from("/tmp/cas"));
    let put = store.put("graph", b"hello world").unwrap();
    let loc = store.get("graph", &put.hash).unwrap();
    assert_eq!(loc.namespace, put.location.namespace);
    assert_eq!(loc.dir, put.location.dir);
    assert_eq!(loc.file, put.location.file);
}

#[test]
fn cas_hash_is_the_sha256_hex_digest() {
    let store = CasStore::new(PathBuf::from("/tmp/cas"));
    let put = store.put("graph", b"hello world").unwrap();
    assert_eq!(
        put.hash,
        "b94d27b9934d3e08a52e52d7da7dabfac484efe37a5380ee9088f7ace2efcde9"
    );
    assert_eq!(put.location.namespace, "graph");
    assert_eq!(put.location.dir, "b9");
    assert_eq!(
        put.location.file,
        "4d27b9934d3e08a52e52d7da7dabfac484efe37a5380ee9088f7ace2efcde9"
    );
    let empty = store.put("ns", b"").unwrap();
    assert_eq!(
        empty.hash,
        "e3b0c44298fc1c149afbf4c8996fb92427ae41e4649b934ca495991b7852b855"
    );
    assert_eq!(store.root(), &PathBuf::from("/tmp/cas"));
}

#[test]
fn cas_refusals() {
    let store = CasStore::new(PathBuf::from("/tmp/cas"));
    assert_eq!(store.put("", b"data").err(), Some(CasError::EmptyNamespace));
    assert_eq!(store.get("graph", "ab").err(), Some(CasError::InvalidHash));
    let loc = store.get("graph", "abc").unwrap();
    assert_eq!(loc.dir, "ab");
    assert_eq!(loc.file, "c");
}

#[test]
fn event_ids_use_the_magnitude_of_the_timestamp() {
    assert_eq!(event_id(1_700_000_000_123_456_789), "evt_1700000000123456789");
    assert_eq!(event_id(-42), "evt_42");
    assert_eq!(event_id(0), "evt_0");
}

#[test]
fn event_log_paths() {
    let writer = EventLogWriter::new(PathBuf::from("data/runtime"));
    assert_eq!(writer.root(), &PathBuf::from("data/runtime"));
    assert_eq!(EventLogWriter::events_dir_name(), "events");
    assert_eq!(EventLogWriter::log_file_name("2024-05-01"), "2024-05-01.log");
    assert_ne!(Severity::Info, Severity::Error);
}
