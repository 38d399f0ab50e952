use codex_enhanced::context_projection::{
    schema_version, ContextProjectionRecord, ContextProjectionStore, DurableProjectionStore,
    ProjectionApplyStats,
};
use codex_enhanced::digest::text_sha256;

#[test]
fn replacement_requires_call_id_original_digest_and_generation() {
    let mut store = ContextProjectionStore::in_memory();
    assert!(store.record("c1", "large original", "small"));
    assert_eq!(store.replacement("c1", "large original"), Some("small"));
    assert_eq!(store.replacement("c2", "large original"), None);
    assert_eq!(store.replacement("c1", "different original"), None);
    assert!(store.record("c1", "small", "smaller"));
    assert_eq!(store.replacement("c1", "large original"), Some("smaller"));
    assert!(store.clear_after_compaction());
    assert_eq!(store.replacement("c1", "large original"), None);
}

#[test]
fn records_restore_from_thread_sidecar() {
    let mut first = ContextProjectionStore::load(None);
    first.record("c1", "large original", "small");
    let mut restored = ContextProjectionStore::load(Some(first.durable()));
    assert_eq!(restored.replacement("c1", "large original"), Some("small"));
    let stats = restored.note_application(1, 10);
    assert!(stats.restored);
    assert!(!restored.note_application(1, 10).restored);
}

#[test]
fn equal_texts_are_not_recorded() {
    let mut store = ContextProjectionStore::in_memory();
    assert!(!store.record("c1", "same", "same"));
    assert_eq!(store.durable().records.len(), 0);
    assert_eq!(store.replacement("c1", "same"), None);
}

#[test]
fn recording_again_overwrites_the_same_original() {
    let mut store = ContextProjectionStore::in_memory();
    assert!(store.record("c1", "original", "first"));
    assert!(store.record("c1", "original", "second"));
    assert_eq!(store.durable().records.len(), 1);
    assert_eq!(store.replacement("c1", "original"), Some("second"));
}

#[test]
fn a_second_cut_collapses_into_the_first_mapping() {
    let mut store = ContextProjectionStore::in_memory();
    store.record("c1", "original", "first");
    store.record("c1", "first", "second");
    let records = store.durable().records;
    assert_eq!(
        records,
        vec![ContextProjectionRecord {
            call_id: "c1".into(),
            original_sha256: text_sha256("original"),
            projected_text: "second".into(),
            generation: 0,
        }]
    );
    assert_eq!(store.replacement("c1", "first"), None);
}

#[test]
fn recording_for_one_call_leaves_the_others() {
    let mut store = ContextProjectionStore::in_memory();
    store.record("c1", "original", "one");
    store.record("c2", "original", "two");
    assert_eq!(store.replacement("c1", "original"), Some("one"));
    assert_eq!(store.replacement("c2", "original"), Some("two"));
}

#[test]
fn another_schema_counts_as_nothing() {
    let mut first = ContextProjectionStore::in_memory();
    first.record("c1", "original", "small");
    let mut durable = first.durable();
    assert_eq!(durable.schema_version, schema_version());
    durable.schema_version = 2;
    let store = ContextProjectionStore::load(Some(durable));
    assert_eq!(store.generation(), 0);
    assert_eq!(store.replacement("c1", "original"), None);
}

#[test]
fn compaction_moves_on_to_the_next_generation() {
    let mut store = ContextProjectionStore::load(Some(DurableProjectionStore {
        schema_version: 1,
        generation: u64::MAX,
        records: vec![],
    }));
    assert!(!store.clear_after_compaction());
    assert_eq!(store.generation(), u64::MAX);
    let mut store = ContextProjectionStore::in_memory();
    assert!(!store.clear_after_compaction());
    assert_eq!(store.generation(), 1);
    store.record("c1", "original", "small");
    assert_eq!(store.replacement("c1", "original"), Some("small"));
    assert_eq!(store.durable().records[0].generation, 1);
}

#[test]
fn records_of_another_generation_do_not_count() {
    let store = ContextProjectionStore::load(Some(DurableProjectionStore {
        schema_version: 1,
        generation: 3,
        records: vec![ContextProjectionRecord {
            call_id: "c1".into(),
            original_sha256: text_sha256("original"),
            projected_text: "small".into(),
            generation: 2,
        }],
    }));
    assert_eq!(store.replacement("c1", "original"), None);
}

#[test]
fn nothing_applied_restores_nothing() {
    let mut first = ContextProjectionStore::in_memory();
    first.record("c1", "original", "small");
    let mut store = ContextProjectionStore::load(Some(first.durable()));
    assert_eq!(
        store.note_application(0, 0),
        ProjectionApplyStats { applied: 0, chars_removed: 0, restored: false }
    );
    assert_eq!(
        store.note_application(2, 7),
        ProjectionApplyStats { applied: 2, chars_removed: 7, restored: true }
    );
}

#[test]
fn digests_can_be_given_in_place_of_texts() {
    let mut store = ContextProjectionStore::in_memory();
    store.place("c1", "sha-a", &vec![], "first");
    assert_eq!(store.replacement_for_digest("c1", "sha-a"), Some("first"));
    store.place("c1", "sha-b", &vec!["sha-b".to_string()], "second");
    assert_eq!(store.replacement_for_digest("c1", "sha-a"), Some("second"));
    assert_eq!(store.replacement_for_digest("c1", "sha-b"), None);
    store.place("c1", "sha-c", &vec!["sha-x".to_string()], "third");
    assert_eq!(store.durable().records.len(), 2);
}
