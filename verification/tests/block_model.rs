//! Block kinds, live blocks, and rendering on concrete values.

use love_note::block::{Block, BlockKind};
use love_note::document::{Document, StoredBlock};
use love_note::plugin_api::Element;

#[test]
fn kind_tags_and_names_are_exact() {
    assert_eq!(BlockKind::Text.kind_string(), "text");
    assert_eq!(BlockKind::Heading.kind_string(), "heading");
    assert_eq!(BlockKind::Text.display_name(), "Text");
    assert_eq!(BlockKind::Heading.display_name(), "Heading");
    assert_eq!(BlockKind::Text.placeholder(), "Type text here...");
    assert_eq!(BlockKind::Heading.placeholder(), "Heading...");
    assert_eq!(BlockKind::Text.max_rows(), 20);
    assert_eq!(BlockKind::Heading.max_rows(), 1);
    assert_eq!(BlockKind::all(), vec![BlockKind::Heading, BlockKind::Text]);
}

#[test]
fn new_block_is_empty_with_lowercase_tag() {
    let b = Block::new(BlockKind::Heading, 77);
    assert_eq!(b.kind, "heading");
    assert_eq!(b.content, "");
    assert_eq!(b.created_at, 77);
    assert_eq!(b.display_name(), "Heading");
}

#[test]
fn stored_block_materializes_and_snapshots_losslessly() {
    let stored = StoredBlock {
        id: 5,
        kind: String::from("heading"),
        content: String::from("Title"),
        created_at: 40,
        updated_at: 60,
    };
    let live = Block::from_stored(&stored);
    assert_eq!(live.id, 5);
    assert_eq!(live.kind, "heading");
    assert_eq!(live.get_content(), "Title");
    assert_eq!(live.created_at, 40);
    let snap = live.to_stored(90);
    assert_eq!(snap.id, 5);
    assert_eq!(snap.kind, "heading");
    assert_eq!(snap.content, "Title");
    assert_eq!(snap.created_at, 40);
    assert_eq!(snap.updated_at, 90);
}

#[test]
fn snapshot_clamps_a_backwards_clock() {
    let b = Block::new(BlockKind::Text, 100);
    let snap = b.to_stored(30);
    assert_eq!(snap.created_at, 100);
    assert_eq!(snap.updated_at, 100);
}

#[test]
fn unknown_kind_opens_renders_as_text_and_round_trips() {
    let stored = StoredBlock {
        id: 9,
        kind: String::from("unknown_xyz"),
        content: String::from("kept as is"),
        created_at: 1,
        updated_at: 2,
    };
    let live = Block::from_stored(&stored);
    assert_eq!(live.content_kind(), BlockKind::Text);
    assert_eq!(live.display_name(), "Text");
    match live.render(false) {
        Element::Text(t) => assert_eq!(t.content, "kept as is"),
        other => panic!("unknown kind must render as text, got {:?}", other),
    }
    let snap = live.to_stored(3);
    assert_eq!(snap.kind, "unknown_xyz");
    assert_eq!(snap.content, "kept as is");
    assert_eq!(snap.created_at, 1);
}

#[test]
fn view_mode_substitutes_placeholder_for_empty_content() {
    let b = Block::new(BlockKind::Text, 0);
    match b.render(false) {
        Element::Text(t) => assert_eq!(t.content, "Type text here..."),
        other => panic!("expected a text element, got {:?}", other),
    }
    let h = Block::new(BlockKind::Heading, 0);
    match h.render(false) {
        Element::Heading(he) => {
            assert_eq!(he.level, 1);
            assert_eq!(he.content, "Heading...");
        },
        other => panic!("expected a heading element, got {:?}", other),
    }
}

#[test]
fn edit_mode_renders_a_live_input() {
    let mut b = Block::new(BlockKind::Heading, 0);
    b.set_content(String::from("Draft"));
    match b.render(true) {
        Element::Input(i) => {
            assert_eq!(i.value, "Draft");
            assert_eq!(i.placeholder.as_deref(), Some("Heading..."));
            assert!(!i.multiline);
        },
        other => panic!("expected an input element, got {:?}", other),
    }
    let t = Block::new(BlockKind::Text, 0);
    match t.render(true) {
        Element::Input(i) => {
            assert_eq!(i.value, "");
            assert!(i.multiline);
        },
        other => panic!("expected an input element, got {:?}", other),
    }
}

#[test]
fn document_mutators_stamp_and_find_blocks() {
    let mut doc = Document::new(String::from("Doc"), 10);
    assert_eq!(doc.title, "Doc");
    assert_eq!(doc.created_at, 10);
    let b1 = StoredBlock::new(String::from("text"), String::from("one"), 11);
    let b1_id = b1.id;
    doc.add_block(b1, 11);
    let b2 = StoredBlock {
        id: b1_id.wrapping_add(1),
        kind: String::from("text"),
        content: String::from("two"),
        created_at: 12,
        updated_at: 12,
    };
    let b2_id = b2.id;
    doc.insert_block(0, b2, 12);
    assert_eq!(doc.blocks.len(), 2);
    assert_eq!(doc.blocks[0].content, "two");
    assert_eq!(doc.blocks[1].content, "one");
    assert_eq!(doc.updated_at, 12);

    assert!(doc.update_block(b1_id, String::from("one, edited"), 20));
    assert_eq!(doc.blocks[1].content, "one, edited");
    assert_eq!(doc.blocks[1].updated_at, 20);
    assert_eq!(doc.updated_at, 20);
    assert!(!doc.update_block(u128::MAX, String::from("nobody"), 21));

    assert_eq!(doc.get_block(b2_id).expect("present").content, "two");
    assert!(doc.get_block(u128::MAX).is_none());

    let removed = doc.remove_block(b2_id, 30).expect("present");
    assert_eq!(removed.content, "two");
    assert_eq!(doc.blocks.len(), 1);
    assert!(doc.remove_block(b2_id, 31).is_none());
}

#[test]
fn stored_block_update_content_refreshes_update_time() {
    let mut b = StoredBlock::new(String::from("text"), String::from("a"), 50);
    assert_eq!(b.created_at, 50);
    assert_eq!(b.updated_at, 50);
    b.update_content(String::from("b"), 80);
    assert_eq!(b.content, "b");
    assert_eq!(b.updated_at, 80);
    b.update_content(String::from("c"), 20);
    assert_eq!(b.content, "c");
    // A clock that stepped backwards never breaks the invariant.
    assert_eq!(b.updated_at, 50);
}
