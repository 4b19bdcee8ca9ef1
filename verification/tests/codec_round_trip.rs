//! Round-trip behavior of the document codec on concrete values.

use love_note::codec::{decode_document, encode_document};
use love_note::document::{Document, StoredBlock};

fn sample_document() -> Document {
    Document {
        id: 0x1234_5678_9abc_def0_1111_2222_3333_4444,
        title: String::from("Trip Plan"),
        blocks: vec![
            StoredBlock {
                id: 7,
                kind: String::from("heading"),
                content: String::from("Day One"),
                created_at: 100,
                updated_at: 150,
            },
            StoredBlock {
                id: 8,
                kind: String::from("text"),
                content: String::from("Pack the tent — und los geht's ✓"),
                created_at: 101,
                updated_at: 160,
            },
        ],
        created_at: 90,
        updated_at: 160,
    }
}

#[test]
fn encode_then_decode_yields_same_document() {
    let doc = sample_document();
    let bytes = encode_document(&doc);
    let back = decode_document(bytes.as_slice()).expect("encoded document must decode");
    assert_eq!(back.id, doc.id);
    assert_eq!(back.title, doc.title);
    assert_eq!(back.created_at, doc.created_at);
    assert_eq!(back.updated_at, doc.updated_at);
    assert_eq!(back.blocks.len(), 2);
    for (a, b) in back.blocks.iter().zip(doc.blocks.iter()) {
        assert_eq!(a.id, b.id);
        assert_eq!(a.kind, b.kind);
        assert_eq!(a.content, b.content);
        assert_eq!(a.created_at, b.created_at);
        assert_eq!(a.updated_at, b.updated_at);
    }
}

#[test]
fn empty_document_round_trips() {
    let doc = Document {
        id: 1,
        title: String::new(),
        blocks: Vec::new(),
        created_at: 0,
        updated_at: 0,
    };
    let bytes = encode_document(&doc);
    let back = decode_document(bytes.as_slice()).expect("encoded document must decode");
    assert_eq!(back.id, 1);
    assert_eq!(back.title, "");
    assert!(back.blocks.is_empty());
}

#[test]
fn truncated_bytes_are_rejected() {
    let doc = sample_document();
    let bytes = encode_document(&doc);
    assert!(decode_document(&bytes[..bytes.len() - 1]).is_none());
    assert!(decode_document(&[]).is_none());
}

#[test]
fn trailing_garbage_is_rejected() {
    let doc = sample_document();
    let mut bytes = encode_document(&doc);
    bytes.push(0);
    assert!(decode_document(bytes.as_slice()).is_none());
}

#[test]
fn invalid_utf8_in_title_is_rejected() {
    let doc = Document {
        id: 2,
        title: String::from("ok"),
        blocks: Vec::new(),
        created_at: 5,
        updated_at: 6,
    };
    let mut bytes = encode_document(&doc);
    // The title bytes start after the id and the two timestamps plus
    // the 8-byte length prefix; corrupt the first title byte.
    bytes[16 + 8 + 8 + 8] = 0xff;
    assert!(decode_document(bytes.as_slice()).is_none());
}
