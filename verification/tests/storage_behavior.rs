//! Storage behavior against a real redb database (in memory).

use love_note::document::{Document, StoredBlock};
use love_note::storage::{Storage, StorageError};

fn fresh_storage() -> Storage {
    let db = redb::Database::builder()
        .create_with_backend(redb::backends::InMemoryBackend::new())
        .expect("in-memory database");
    Storage::new(db).expect("storage opens")
}

fn doc_with_one_block(title: &str, content: &str) -> Document {
    Document {
        id: 42,
        title: String::from(title),
        blocks: vec![StoredBlock {
            id: 1,
            kind: String::from("text"),
            content: String::from(content),
            created_at: 10,
            updated_at: 11,
        }],
        created_at: 9,
        updated_at: 11,
    }
}

#[test]
fn save_then_load_round_trips() {
    let mut storage = fresh_storage();
    let doc = doc_with_one_block("Notes", "hello");
    storage.save_document(&doc).expect("save succeeds");
    let back = storage
        .load_document(doc.id)
        .expect("load succeeds")
        .expect("document is present");
    assert_eq!(back.id, doc.id);
    assert_eq!(back.title, doc.title);
    assert_eq!(back.blocks.len(), 1);
    assert_eq!(back.blocks[0].kind, "text");
    assert_eq!(back.blocks[0].content, "hello");
    assert!(back.blocks[0].updated_at >= back.blocks[0].created_at);
}

#[test]
fn load_absent_document_is_none() {
    let storage = fresh_storage();
    assert!(storage.load_document(999).expect("load succeeds").is_none());
}

#[test]
fn save_overwrites_whole_document() {
    let mut storage = fresh_storage();
    let mut doc = doc_with_one_block("Notes", "first");
    storage.save_document(&doc).expect("save succeeds");
    doc.blocks[0].content = String::from("second");
    doc.title = String::from("Renamed");
    storage.save_document(&doc).expect("save succeeds");
    let back = storage.load_document(doc.id).unwrap().unwrap();
    assert_eq!(back.title, "Renamed");
    assert_eq!(back.blocks[0].content, "second");
    let list = storage.list_documents().expect("list succeeds");
    assert_eq!(list.len(), 1);
}

#[test]
fn list_documents_reports_ids_and_titles_in_key_order() {
    let mut storage = fresh_storage();
    for (id, title) in [(30u128, "c"), (10u128, "a"), (20u128, "b")] {
        let mut doc = doc_with_one_block(title, "x");
        doc.id = id;
        storage.save_document(&doc).expect("save succeeds");
    }
    let list = storage.list_documents().expect("list succeeds");
    let ids: Vec<u128> = list.iter().map(|e| e.0).collect();
    let titles: Vec<&str> = list.iter().map(|e| e.1.as_str()).collect();
    assert_eq!(ids, vec![10, 20, 30]);
    assert_eq!(titles, vec!["a", "b", "c"]);
}

#[test]
fn delete_document_reports_presence() {
    let mut storage = fresh_storage();
    let doc = doc_with_one_block("Notes", "x");
    storage.save_document(&doc).expect("save succeeds");
    assert_eq!(storage.delete_document(doc.id).expect("delete succeeds"), true);
    assert_eq!(storage.delete_document(doc.id).expect("delete succeeds"), false);
    assert!(storage.load_document(doc.id).expect("load succeeds").is_none());
}

#[test]
fn corrupt_value_is_a_deserialization_error() {
    let db = redb::Database::builder()
        .create_with_backend(redb::backends::InMemoryBackend::new())
        .expect("in-memory database");
    {
        let td: redb::TableDefinition<u128, &[u8]> = redb::TableDefinition::new("documents");
        let txn = db.begin_write().unwrap();
        {
            let mut table = txn.open_table(td).unwrap();
            table.insert(&7u128, [1u8, 2, 3].as_slice()).unwrap();
        }
        txn.commit().unwrap();
    }
    let storage = Storage::new(db).expect("storage opens");
    assert_eq!(
        storage.load_document(7).expect_err("corrupt data must fail"),
        StorageError::Deserialization
    );
    assert_eq!(
        storage.list_documents().expect_err("corrupt data must fail"),
        StorageError::Deserialization
    );
}

#[test]
fn bootstrap_creates_default_on_empty_store() {
    let mut storage = fresh_storage();
    let doc = storage.get_or_create_default(500).expect("bootstrap succeeds");
    assert_eq!(doc.title, "My First Note");
    assert!(doc.blocks.is_empty());
    assert_eq!(doc.created_at, 500);
    assert_eq!(doc.updated_at, 500);
    // The fresh document is persisted at once.
    let back = storage.load_document(doc.id).unwrap().unwrap();
    assert_eq!(back.title, "My First Note");
}

#[test]
fn bootstrap_is_idempotent() {
    let mut storage = fresh_storage();
    let first = storage.get_or_create_default(500).expect("bootstrap succeeds");
    let second = storage.get_or_create_default(700).expect("bootstrap succeeds");
    assert_eq!(first.id, second.id);
    assert_eq!(second.title, "My First Note");
    assert_eq!(second.created_at, 500);
    let list = storage.list_documents().expect("list succeeds");
    assert_eq!(list.len(), 1);
}

#[test]
fn bootstrap_returns_first_existing_document() {
    let mut storage = fresh_storage();
    let doc = doc_with_one_block("Kept", "body");
    storage.save_document(&doc).expect("save succeeds");
    let got = storage.get_or_create_default(999).expect("bootstrap succeeds");
    assert_eq!(got.id, doc.id);
    assert_eq!(got.title, "Kept");
    let list = storage.list_documents().expect("list succeeds");
    assert_eq!(list.len(), 1);
}

#[test]
fn error_descriptions_name_the_failure() {
    assert_eq!(
        StorageError::Deserialization.describe(),
        "stored document data is malformed"
    );
    assert_eq!(StorageError::Write.describe(), "failed to write to the document store");
}
