//! Editor orchestration: focus, the save-trigger policy, and the
//! first-run scenario, against a real in-memory redb store.

use love_note::block::BlockKind;
use love_note::editor::LoveNote;
use love_note::plugin_api::{ButtonStyle, Element};
use love_note::storage::Storage;

fn fresh_storage() -> Storage {
    let db = redb::Database::builder()
        .create_with_backend(redb::backends::InMemoryBackend::new())
        .expect("in-memory database");
    Storage::new(db).expect("storage opens")
}

fn fresh_editor(now: u64) -> LoveNote {
    LoveNote::new(fresh_storage(), now).expect("editor opens")
}

#[test]
fn first_run_seeds_one_empty_text_block() {
    let ed = fresh_editor(100);
    assert_eq!(ed.blocks.len(), 1);
    assert_eq!(ed.blocks[0].kind, "text");
    assert_eq!(ed.blocks[0].content, "");
    assert!(!ed.any_block_focused());
    assert_eq!(ed.focused_block_index(), None);
    // The bootstrapped document itself is already persisted, empty.
    let stored = ed.storage.load_document(ed.document_id).unwrap().unwrap();
    assert_eq!(stored.title, "My First Note");
    assert!(stored.blocks.is_empty());
}

#[test]
fn typing_then_focus_loss_persists_the_text() {
    // The first-run scenario: type "Hello" into block 0, then move
    // focus away; storage then holds exactly one text block "Hello".
    let mut ed = fresh_editor(100);
    ed.set_focus(Some(0), 101).expect("focus gain never saves");
    ed.set_block_content(0, String::from("Hello"));
    // Still focused: nothing persisted yet.
    let before = ed.storage.load_document(ed.document_id).unwrap().unwrap();
    assert!(before.blocks.is_empty());
    ed.set_focus(None, 102).expect("save on focus loss");
    let after = ed.storage.load_document(ed.document_id).unwrap().unwrap();
    assert_eq!(after.blocks.len(), 1);
    assert_eq!(after.blocks[0].kind, "text");
    assert_eq!(after.blocks[0].content, "Hello");
}

#[test]
fn save_is_edge_triggered_not_level_triggered() {
    // Focus states [true, true, true, false]: only the true->false
    // edge saves. While focus is held, edits stay in memory.
    let mut ed = fresh_editor(100);
    ed.set_focus(Some(0), 1).unwrap();
    ed.set_block_content(0, String::from("draft"));
    ed.set_focus(Some(0), 2).unwrap();
    ed.set_focus(Some(0), 3).unwrap();
    let held = ed.storage.load_document(ed.document_id).unwrap().unwrap();
    assert!(held.blocks.is_empty(), "no save while focus is held");
    ed.set_focus(None, 4).unwrap();
    let saved = ed.storage.load_document(ed.document_id).unwrap().unwrap();
    assert_eq!(saved.blocks.len(), 1);
    assert_eq!(saved.blocks[0].content, "draft");
    assert_eq!(saved.updated_at, 4, "persisted by the edge at tick 4");
    // A further focus-less tick is not an edge and writes nothing.
    ed.set_block_content(0, String::from("unsaved"));
    ed.set_focus(None, 5).unwrap();
    let still = ed.storage.load_document(ed.document_id).unwrap().unwrap();
    assert_eq!(still.blocks[0].content, "draft");
    assert_eq!(still.updated_at, 4);
}

#[test]
fn explicit_save_bypasses_the_edge_detector() {
    let mut ed = fresh_editor(100);
    ed.set_block_content(0, String::from("keyboard shortcut"));
    ed.save_document(200).expect("explicit save");
    let saved = ed.storage.load_document(ed.document_id).unwrap().unwrap();
    assert_eq!(saved.blocks[0].content, "keyboard shortcut");
}

#[test]
fn insertion_is_save_eager() {
    // On a 2-block document, inserting at index 1 immediately yields
    // a 3-block persisted document, without any focus-loss event.
    let mut ed = fresh_editor(100);
    ed.insert_block_at(1, BlockKind::Text, 101).unwrap();
    assert_eq!(ed.blocks.len(), 2);
    ed.set_block_content(0, String::from("a"));
    ed.set_block_content(1, String::from("b"));
    ed.save_document(102).unwrap();

    ed.insert_block_at(1, BlockKind::Heading, 103).unwrap();
    assert_eq!(ed.blocks.len(), 3);
    assert_eq!(ed.blocks[1].kind, "heading");
    let stored = ed.storage.load_document(ed.document_id).unwrap().unwrap();
    assert_eq!(stored.blocks.len(), 3);
    assert_eq!(stored.blocks[0].content, "a");
    assert_eq!(stored.blocks[1].kind, "heading");
    assert_eq!(stored.blocks[2].content, "b");
}

#[test]
fn insertion_clears_hover_state() {
    let mut ed = fresh_editor(100);
    ed.set_hovered_insert_line(Some(1));
    assert_eq!(ed.hovered_insert_line, Some(1));
    ed.insert_block_at(0, BlockKind::Text, 101).unwrap();
    assert_eq!(ed.hovered_insert_line, None);
}

#[test]
fn out_of_range_remove_is_a_no_op() {
    // remove_block(99) on a 2-block document changes nothing and
    // raises no error.
    let mut ed = fresh_editor(100);
    ed.insert_block_at(1, BlockKind::Heading, 101).unwrap();
    ed.set_block_content(0, String::from("first"));
    ed.set_block_content(1, String::from("second"));
    ed.save_document(102).unwrap();
    let before = ed.storage.load_document(ed.document_id).unwrap().unwrap();

    ed.remove_block(99, 103).expect("out of range is not an error");
    assert_eq!(ed.blocks.len(), 2);
    assert_eq!(ed.blocks[0].content, "first");
    assert_eq!(ed.blocks[1].content, "second");
    let after = ed.storage.load_document(ed.document_id).unwrap().unwrap();
    assert_eq!(after.blocks.len(), before.blocks.len());
    assert_eq!(after.updated_at, before.updated_at);
}

#[test]
fn in_range_remove_deletes_and_saves() {
    let mut ed = fresh_editor(100);
    ed.insert_block_at(1, BlockKind::Heading, 101).unwrap();
    ed.set_block_content(0, String::from("keep"));
    ed.remove_block(1, 102).unwrap();
    assert_eq!(ed.blocks.len(), 1);
    let stored = ed.storage.load_document(ed.document_id).unwrap().unwrap();
    assert_eq!(stored.blocks.len(), 1);
    assert_eq!(stored.blocks[0].content, "keep");
}

#[test]
fn focus_exclusivity_holds_across_operations() {
    let mut ed = fresh_editor(100);
    ed.insert_block_at(1, BlockKind::Text, 101).unwrap();
    assert!(!ed.any_block_focused());
    assert_eq!(ed.focused_block_index(), None);
    assert!(!ed.is_editing(0) && !ed.is_editing(1));

    ed.set_focus(Some(1), 102).unwrap();
    assert!(ed.any_block_focused());
    assert_eq!(ed.focused_block_index(), Some(1));
    // Exactly one block reports the editing state.
    let editing: Vec<usize> = (0..ed.blocks.len()).filter(|i| ed.is_editing(*i)).collect();
    assert_eq!(editing, vec![1]);

    // Focusing another block implicitly deactivates the first.
    ed.set_focus(Some(0), 103).unwrap();
    let editing: Vec<usize> = (0..ed.blocks.len()).filter(|i| ed.is_editing(*i)).collect();
    assert_eq!(editing, vec![0]);
}

#[test]
fn focus_follows_blocks_across_insert_and_remove() {
    let mut ed = fresh_editor(100);
    ed.insert_block_at(1, BlockKind::Text, 101).unwrap();
    ed.set_focus(Some(1), 102).unwrap();
    // Inserting before the focused block shifts focus right.
    ed.insert_block_at(0, BlockKind::Heading, 103).unwrap();
    assert_eq!(ed.focused_block_index(), Some(2));
    // Removing before it shifts focus back left.
    ed.remove_block(0, 104).unwrap();
    assert_eq!(ed.focused_block_index(), Some(1));
    // Removing the focused block leaves nothing focused.
    ed.remove_block(1, 105).unwrap();
    assert_eq!(ed.focused_block_index(), None);
}

#[test]
fn editor_reopens_what_was_saved() {
    let db = redb::Database::builder()
        .create_with_backend(redb::backends::InMemoryBackend::new())
        .expect("in-memory database");
    let storage = Storage::new(db).expect("storage opens");
    let mut ed = LoveNote::new(storage, 100).expect("editor opens");
    ed.insert_block_at(1, BlockKind::Heading, 101).unwrap();
    ed.set_block_content(0, String::from("body"));
    ed.set_block_content(1, String::from("title"));
    ed.save_document(102).unwrap();
    let doc_id = ed.document_id;

    // Reopen an editor over the same store.
    let ed2 = LoveNote::new(ed.storage, 200).expect("editor reopens");
    assert_eq!(ed2.document_id, doc_id);
    assert_eq!(ed2.blocks.len(), 2);
    assert_eq!(ed2.blocks[0].content, "body");
    assert_eq!(ed2.blocks[1].content, "title");
    assert_eq!(ed2.blocks[1].kind, "heading");
}

#[test]
fn editor_surface_lays_out_gaps_rows_and_toolbar() {
    let mut ed = fresh_editor(100);
    ed.insert_block_at(1, BlockKind::Heading, 101).unwrap();
    ed.set_block_content(1, String::from("Title"));
    ed.set_focus(Some(0), 102).unwrap();
    ed.set_hovered_insert_line(Some(2));
    let surface = ed.render();
    let children = match surface {
        Element::Column { children } => children,
        other => panic!("expected a column, got {:?}", other),
    };
    // Two blocks: gap, row, gap, row, gap, toolbar.
    assert_eq!(children.len(), 6);
    // The unhovered gap at position 0 is an empty row.
    match &children[0] {
        Element::Row { children } => assert!(children.is_empty()),
        other => panic!("expected a separator row, got {:?}", other),
    }
    // The focused block renders as a live input.
    match &children[1] {
        Element::Input(i) => assert_eq!(i.value, ""),
        other => panic!("expected an input, got {:?}", other),
    }
    // The unfocused heading renders in view mode.
    match &children[3] {
        Element::Heading(h) => {
            assert_eq!(h.level, 1);
            assert_eq!(h.content, "Title");
        },
        other => panic!("expected a heading, got {:?}", other),
    }
    // The hovered gap at position 4 offers one button per kind.
    match &children[4] {
        Element::Row { children } => {
            assert_eq!(children.len(), 2);
            match &children[0] {
                Element::Button(b) => {
                    assert_eq!(b.id, "heading");
                    assert_eq!(b.label, "+ Heading");
                    assert_eq!(b.style, ButtonStyle::Primary);
                },
                other => panic!("expected a button, got {:?}", other),
            }
            match &children[1] {
                Element::Button(b) => {
                    assert_eq!(b.id, "text");
                    assert_eq!(b.label, "+ Text");
                },
                other => panic!("expected a button, got {:?}", other),
            }
        },
        other => panic!("expected the kind buttons, got {:?}", other),
    }
    // With a focused block the toolbar carries the delete button.
    match &children[5] {
        Element::Row { children } => {
            assert_eq!(children.len(), 1);
            match &children[0] {
                Element::Button(b) => {
                    assert_eq!(b.id, "delete");
                    assert_eq!(b.style, ButtonStyle::Danger);
                },
                other => panic!("expected the delete button, got {:?}", other),
            }
        },
        other => panic!("expected the toolbar row, got {:?}", other),
    }
}

#[test]
fn toolbar_is_empty_without_focus() {
    let ed = fresh_editor(100);
    match ed.render_toolbar() {
        Element::Row { children } => assert!(children.is_empty()),
        other => panic!("expected an empty toolbar row, got {:?}", other),
    }
}
