//! The editor orchestrator: the live block list, focus state, and the
//! save-trigger policy.
//!
//! The editor owns an ordered list of live [`Block`]s mirroring one
//! stored document, an explicit focus model (at most one block is in
//! the editing state, namely the one `focused` points at), and the
//! transient hover state for insertion affordances.
//!
//! Persistence policy: inserting or removing a block changes document
//! shape and saves eagerly; in-place text edits save on the focus-loss
//! edge reported through [`LoveNote::set_focus`]; an explicit
//! [`LoveNote::save_document`] always saves.

use vstd::prelude::*;

use crate::block::{
    from_stored_spec, renders_edit_mode, renders_view_mode, spec_display_name, spec_kind_string,
    to_stored_spec, Block, BlockKind, BlockView,
};
use crate::codec::{dec_doc, enc_doc};
use crate::document::{Document, DocumentView, StoredBlock, StoredBlockView};
use crate::plugin_api::{ButtonElement, ButtonStyle, Element};
use crate::storage::{first_key, store_is_empty, Storage, StorageError};

verus! {

/// The live blocks a stored document materializes to, in order.
pub open spec fn materialize(bs: Seq<StoredBlockView>) -> Seq<BlockView> {
    bs.map_values(|s: StoredBlockView| from_stored_spec(s))
}

/// Whether a block list is the single seeded empty text block that an
/// editor starts with when its document has no blocks.
pub open spec fn seeded(bs: Seq<BlockView>, now: u64) -> bool {
    &&& bs.len() == 1
    &&& bs[0].kind == "text"@
    &&& bs[0].content == Seq::<char>::empty()
    &&& bs[0].created_at == now
}

/// Where the focus points after a block is inserted at `index`: a
/// focused block at or past the insertion point shifts one to the
/// right; focus is otherwise unchanged.
pub open spec fn focus_after_insert(f: Option<usize>, index: usize) -> Option<usize> {
    match f {
        Some(i) => {
            if i >= index {
                Some((i + 1) as usize)
            } else {
                Some(i)
            }
        },
        None => None,
    }
}

/// Where the focus points after the block at `index` is removed: the
/// removed block loses focus; a focused block past it shifts one to
/// the left; focus is otherwise unchanged.
pub open spec fn focus_after_remove(f: Option<usize>, index: usize) -> Option<usize> {
    match f {
        Some(i) => {
            if i == index {
                None
            } else if i > index {
                Some((i - 1) as usize)
            } else {
                Some(i)
            }
        },
        None => None,
    }
}

/// What a correct insertion button for one kind looks like: its id is
/// the kind's storage tag, its label "+ " followed by the kind's
/// display name.
pub open spec fn is_kind_button(e: Element, k: BlockKind) -> bool {
    e matches Element::Button(b) && b.id@ == spec_kind_string(k) && b.label@ == "+ "@
        + spec_display_name(k) && b.style == ButtonStyle::Primary
}

/// What a correct hovered insertion row looks like: one button per
/// available kind, in toolbar order.
pub open spec fn renders_insert_buttons(r: Element) -> bool {
    r matches Element::Row { children } && children@.len() == 2 && is_kind_button(
        children@[0],
        BlockKind::Heading,
    ) && is_kind_button(children@[1], BlockKind::Text)
}

/// What an insertion gap looks like: the kind buttons while hovered,
/// otherwise an empty row standing for the thin separator.
pub open spec fn renders_insert_line(r: Element, hovered: bool) -> bool {
    if hovered {
        renders_insert_buttons(r)
    } else {
        r matches Element::Row { children } && children@.len() == 0
    }
}

/// What the toolbar looks like: a delete button exactly while some
/// block is focused, otherwise empty.
pub open spec fn renders_toolbar(r: Element, focused: Option<usize>) -> bool {
    match focused {
        Some(_) => r matches Element::Row { children } && children@.len() == 1 && (
        children@[0] matches Element::Button(b) && b.id@ == "delete"@ && b.label@ == "Delete"@
            && b.style == ButtonStyle::Danger),
        None => r matches Element::Row { children } && children@.len() == 0,
    }
}

/// The block editor: live blocks, UI state, and the storage handle.
pub struct LoveNote {
    /// The live blocks, in display order.
    pub blocks: Vec<Block>,
    /// The insertion gap the pointer hovers over, if any.
    pub hovered_insert_line: Option<usize>,
    /// The identifier of the document being edited.
    pub document_id: u128,
    /// The backing store.
    pub storage: Storage,
    /// The index of the block in the editing state, if any.
    pub focused: Option<usize>,
}

impl LoveNote {
    /// The editor's focus points inside the live block list.
    pub open spec fn wf(self) -> bool {
        self.focused matches Some(i) ==> (i as int) < self.blocks@.len()
    }

    /// The views of the live blocks, in order.
    pub open spec fn live_blocks(self) -> Seq<BlockView> {
        self.blocks@.map_values(|b: Block| b@)
    }

    /// The indices of blocks in the editing state.
    pub open spec fn editing_set(self) -> Set<int> {
        Set::new(
            |i: int| 0 <= i < self.blocks@.len() && (self.focused matches Some(f) && i == f as int),
        )
    }

    /// The document the live block list reconciles to at time `now`:
    /// the original document identifier, each live block snapshotted,
    /// and fresh document timestamps.
    pub open spec fn reconcile_spec(self, now: u64) -> DocumentView {
        DocumentView {
            id: self.document_id,
            title: "Untitled"@,
            blocks: self.live_blocks().map_values(|b: BlockView| to_stored_spec(b, now)),
            created_at: now,
            updated_at: now,
        }
    }

    /// Loads or bootstraps the default document from the given store
    /// and materializes one live block per stored block; a document
    /// with no blocks is seeded with exactly one empty text block.
    /// Nothing is focused or hovered initially.
    pub fn new(storage: Storage, now: u64) -> (r: Result<LoveNote, StorageError>)
        ensures
            ({
                let m = storage@;
                &&& (r matches Ok(ed) ==> ed.wf() && ed.focused is None
                    && ed.hovered_insert_line is None)
                &&& (r matches Ok(ed) ==> (!store_is_empty(m) ==> (dec_doc(
                    m[first_key(m)],
                ) matches Some(dv) ==> {
                    &&& ed.document_id == dv.id
                    &&& ed.storage@ == m
                    &&& dv.blocks.len() > 0 ==> ed.live_blocks() == materialize(dv.blocks)
                    &&& dv.blocks.len() == 0 ==> seeded(ed.live_blocks(), now)
                })))
                &&& (r matches Ok(ed) ==> ((store_is_empty(m) || dec_doc(m[first_key(m)]) is None)
                    ==> seeded(ed.live_blocks(), now) && ed.storage@ == m.insert(
                    ed.document_id,
                    enc_doc(
                        DocumentView {
                            id: ed.document_id,
                            title: "My First Note"@,
                            blocks: Seq::<StoredBlockView>::empty(),
                            created_at: now,
                            updated_at: now,
                        },
                    ),
                )))
                &&& (r matches Err(e) ==> e == StorageError::Read || e == StorageError::Write)
            }),
    {
        let mut storage = storage;
        let doc = match storage.get_or_create_default(now) {
            Ok(d) => d,
            Err(e) => {
                return Err(e);
            },
        };
        let mut blocks: Vec<Block> = Vec::new();
        if doc.blocks.len() == 0 {
            blocks.push(Block::new(BlockKind::Text, now));
            proof {
                assert(seeded(blocks@.map_values(|b: Block| b@), now));
            }
        } else {
            let n: usize = doc.blocks.len();
            let mut i: usize = 0;
            while i < n
                invariant
                    n == doc.blocks.len(),
                    i <= n,
                    blocks@.len() == i,
                    forall|j: int|
                        0 <= j < i ==> (#[trigger] blocks@[j])@ == from_stored_spec(
                            doc@.blocks[j],
                        ),
                decreases n - i,
            {
                blocks.push(Block::from_stored(&doc.blocks[i]));
                i = i + 1;
            }
            proof {
                assert(blocks@.map_values(|b: Block| b@) =~= materialize(doc@.blocks));
            }
        }
        let ed = LoveNote {
            blocks,
            hovered_insert_line: None,
            document_id: doc.id,
            storage,
            focused: None,
        };
        proof {
            if doc@.blocks.len() == 0 {
                assert(doc@.blocks =~= Seq::<StoredBlockView>::empty());
            }
        }
        Ok(ed)
    }

    /// Whether any block is in the editing state. By focus
    /// exclusivity ([`lemma_focus_exclusive`]) this is exactly "one
    /// block is editing".
    pub fn any_block_focused(&self) -> (r: bool)
        ensures
            r == (self.focused is Some),
    {
        self.focused.is_some()
    }

    /// The index of the block in the editing state, if any.
    pub fn focused_block_index(&self) -> (r: Option<usize>)
        ensures
            r == self.focused,
    {
        self.focused
    }

    /// Whether the block at `index` is in the editing state.
    pub fn is_editing(&self, index: usize) -> (r: bool)
        ensures
            r == (self.focused == Some(index)),
    {
        match self.focused {
            Some(f) => f == index,
            None => false,
        }
    }

    /// The visual of the block at `index` for the current focus state.
    pub fn render_block(&self, index: usize) -> (r: crate::plugin_api::Element)
        requires
            index < self.blocks@.len(),
        ensures
            self.focused == Some(index) ==> crate::block::renders_edit_mode(
                r,
                self.blocks@[index as int]@,
            ),
            self.focused != Some(index) ==> crate::block::renders_view_mode(
                r,
                self.blocks@[index as int]@,
            ),
    {
        let focused = self.is_editing(index);
        self.blocks[index].render(focused)
    }

    /// The row of insertion buttons, one per available kind.
    pub fn render_insert_buttons(&self) -> (r: Element)
        ensures
            renders_insert_buttons(r),
    {
        let kinds = BlockKind::all();
        let n: usize = kinds.len();
        let mut children: Vec<Element> = Vec::new();
        let mut i: usize = 0;
        while i < n
            invariant
                kinds@ =~= seq![BlockKind::Heading, BlockKind::Text],
                n == kinds@.len(),
                i <= n,
                children@.len() == i,
                forall|j: int| 0 <= j < i ==> is_kind_button(#[trigger] children@[j], kinds@[j]),
            decreases n - i,
        {
            let kind = kinds[i];
            let label = "+ ".to_owned().concat(kind.display_name());
            children.push(
                Element::Button(
                    ButtonElement {
                        id: kind.kind_string().to_owned(),
                        label,
                        style: ButtonStyle::Primary,
                    },
                ),
            );
            i = i + 1;
        }
        Element::Row { children }
    }

    /// The insertion gap before the block at `index` (or after the
    /// last one): the kind buttons while hovered, else a separator.
    pub fn render_insert_line(&self, index: usize) -> (r: Element)
        ensures
            renders_insert_line(r, self.hovered_insert_line == Some(index)),
    {
        let hovered = match self.hovered_insert_line {
            Some(h) => h == index,
            None => false,
        };
        if hovered {
            self.render_insert_buttons()
        } else {
            Element::Row { children: Vec::new() }
        }
    }

    /// The toolbar: a delete button exactly while a block is focused.
    pub fn render_toolbar(&self) -> (r: Element)
        ensures
            renders_toolbar(r, self.focused),
    {
        let mut children: Vec<Element> = Vec::new();
        if self.focused.is_some() {
            children.push(
                Element::Button(
                    ButtonElement {
                        id: "delete".to_owned(),
                        label: "Delete".to_owned(),
                        style: ButtonStyle::Danger,
                    },
                ),
            );
        }
        Element::Row { children }
    }

    /// The whole editor surface: an insertion gap before, between and
    /// after the block rows, each block rendered for its focus state,
    /// and the toolbar last.
    pub fn render(&self) -> (r: Element)
        ensures
            renders_editor(r, *self),
    {
        let n: usize = self.blocks.len();
        let mut children: Vec<Element> = Vec::new();
        children.push(self.render_insert_line(0));
        let mut i: usize = 0;
        while i < n
            invariant
                n == self.blocks@.len(),
                i <= n,
                children@.len() == 2 * i + 1,
                forall|c: int|
                    #![trigger children@[c]]
                    0 <= c < 2 * i + 1 ==> (if c % 2 == 0 {
                        renders_insert_line(
                            children@[c],
                            self.hovered_insert_line == Some((c / 2) as usize),
                        )
                    } else {
                        renders_block_row(children@[c], *self, c / 2)
                    }),
            decreases n - i,
        {
            children.push(self.render_block(i));
            children.push(self.render_insert_line(i + 1));
            i = i + 1;
        }
        children.push(self.render_toolbar());
        Element::Column { children }
    }

    /// Reconciles the live blocks into the document and upserts it:
    /// on success the store maps the document identifier to exactly
    /// the reconciled document's encoding; on failure the store and
    /// the in-memory state are untouched, and the caller may retry.
    pub fn save_document(&mut self, now: u64) -> (r: Result<(), StorageError>)
        ensures
            final(self).blocks@ == old(self).blocks@,
            final(self).hovered_insert_line == old(self).hovered_insert_line,
            final(self).focused == old(self).focused,
            final(self).document_id == old(self).document_id,
            r is Ok ==> final(self).storage@ == old(self).storage@.insert(
                old(self).document_id,
                enc_doc(old(self).reconcile_spec(now)),
            ),
            r is Err ==> final(self).storage@ == old(self).storage@,
            r matches Err(e) ==> e == StorageError::Write,
    {
        let mut stored: Vec<StoredBlock> = Vec::new();
        let n: usize = self.blocks.len();
        let mut i: usize = 0;
        while i < n
            invariant
                n == self.blocks@.len(),
                i <= n,
                self == old(self),
                stored@.len() == i,
                forall|j: int|
                    0 <= j < i ==> (#[trigger] stored@[j])@ == to_stored_spec(
                        old(self).blocks@[j]@,
                        now,
                    ),
            decreases n - i,
        {
            stored.push(self.blocks[i].to_stored(now));
            i = i + 1;
        }
        let doc = Document {
            id: self.document_id,
            title: "Untitled".to_owned(),
            blocks: stored,
            created_at: now,
            updated_at: now,
        };
        proof {
            assert(doc@.blocks =~= old(self).reconcile_spec(now).blocks);
            assert(doc@ == old(self).reconcile_spec(now));
        }
        match self.storage.save_document(&doc) {
            Ok(()) => Ok(()),
            Err(e) => Err(e),
        }
    }

    /// Reports a focus change from the input layer. The save policy is
    /// edge-triggered: exactly when focus is lost (some block was
    /// focused, none is now) the document is persisted; no other
    /// transition writes to storage.
    pub fn set_focus(&mut self, new_focus: Option<usize>, now: u64) -> (r: Result<
        (),
        StorageError,
    >)
        requires
            old(self).wf(),
            new_focus matches Some(i) ==> (i as int) < old(self).blocks@.len(),
        ensures
            final(self).wf(),
            final(self).focused == new_focus,
            final(self).blocks@ == old(self).blocks@,
            final(self).hovered_insert_line == old(self).hovered_insert_line,
            final(self).document_id == old(self).document_id,
            (old(self).focused is Some && new_focus is None) ==> {
                &&& (r is Ok ==> final(self).storage@ == old(self).storage@.insert(
                    old(self).document_id,
                    enc_doc(old(self).reconcile_spec(now)),
                ))
                &&& (r is Err ==> final(self).storage@ == old(self).storage@)
            },
            !(old(self).focused is Some && new_focus is None) ==> final(self).storage@ == old(
                self,
            ).storage@ && r is Ok,
            r matches Err(e) ==> e == StorageError::Write,
    {
        let had = self.focused.is_some();
        self.focused = new_focus;
        if had && self.focused.is_none() {
            self.save_document(now)
        } else {
            Ok(())
        }
    }

    /// Constructs a new block of the requested kind and splices it in
    /// at `index`. Insertion changes document shape, so it clears the
    /// hover state and saves eagerly, without waiting for a focus
    /// edge; a focused block at or past `index` stays focused, one
    /// position to the right.
    pub fn insert_block_at(&mut self, index: usize, kind: BlockKind, now: u64) -> (r: Result<
        (),
        StorageError,
    >)
        requires
            old(self).wf(),
            index <= old(self).blocks@.len(),
        ensures
            final(self).wf(),
            final(self).blocks@.len() == old(self).blocks@.len() + 1,
            final(self).blocks@ == old(self).blocks@.insert(
                index as int,
                final(self).blocks@[index as int],
            ),
            final(self).blocks@[index as int]@.kind == spec_kind_string(kind),
            final(self).blocks@[index as int]@.content == Seq::<char>::empty(),
            final(self).blocks@[index as int]@.created_at == now,
            final(self).hovered_insert_line is None,
            final(self).document_id == old(self).document_id,
            final(self).focused == focus_after_insert(old(self).focused, index),
            r is Ok ==> final(self).storage@ == old(self).storage@.insert(
                old(self).document_id,
                enc_doc(final(self).reconcile_spec(now)),
            ),
            r is Err ==> final(self).storage@ == old(self).storage@,
            r matches Err(e) ==> e == StorageError::Write,
    {
        let n0: usize = self.blocks.len();
        let b = Block::new(kind, now);
        self.blocks.insert(index, b);
        self.hovered_insert_line = None;
        self.focused = match self.focused {
            Some(f) => {
                proof {
                    assert(old(self).focused == Some(f));
                    assert(f < n0);
                }
                if f >= index {
                    Some(f + 1)
                } else {
                    Some(f)
                }
            },
            None => None,
        };
        self.save_document(now)
    }

    /// Removes the block at `index` if it is in range, saving eagerly;
    /// an out-of-range index is a benign no-op that changes nothing
    /// and reports no error. Focus follows the surviving blocks; the
    /// removed block, if focused, leaves nothing focused.
    pub fn remove_block(&mut self, index: usize, now: u64) -> (r: Result<(), StorageError>)
        requires
            old(self).wf(),
        ensures
            final(self).wf(),
            index >= old(self).blocks@.len() ==> {
                &&& final(self).blocks@ == old(self).blocks@
                &&& final(self).hovered_insert_line == old(self).hovered_insert_line
                &&& final(self).focused == old(self).focused
                &&& final(self).document_id == old(self).document_id
                &&& final(self).storage@ == old(self).storage@
                &&& r is Ok
            },
            index < old(self).blocks@.len() ==> {
                &&& final(self).blocks@ == old(self).blocks@.remove(index as int)
                &&& final(self).hovered_insert_line == old(self).hovered_insert_line
                &&& final(self).focused == focus_after_remove(old(self).focused, index)
                &&& final(self).document_id == old(self).document_id
                &&& (r is Ok ==> final(self).storage@ == old(self).storage@.insert(
                    old(self).document_id,
                    enc_doc(final(self).reconcile_spec(now)),
                ))
                &&& (r is Err ==> final(self).storage@ == old(self).storage@)
            },
            r matches Err(e) ==> e == StorageError::Write,
    {
        if index < self.blocks.len() {
            self.blocks.remove(index);
            self.focused = match self.focused {
                Some(f) => {
                    if f == index {
                        None
                    } else if f > index {
                        Some(f - 1)
                    } else {
                        Some(f)
                    }
                },
                None => None,
            };
            self.save_document(now)
        } else {
            Ok(())
        }
    }

    /// Replaces the text buffer of the block at `index` (the live
    /// edit path). In-place edits do not save; persistence waits for
    /// a focus-loss edge or an explicit save.
    pub fn set_block_content(&mut self, index: usize, text: String)
        requires
            index < old(self).blocks@.len(),
        ensures
            final(self).blocks@ == old(self).blocks@.update(
                index as int,
                final(self).blocks@[index as int],
            ),
            final(self).blocks@[index as int]@ == (BlockView {
                content: text@,
                ..old(self).blocks@[index as int]@
            }),
            final(self).hovered_insert_line == old(self).hovered_insert_line,
            final(self).focused == old(self).focused,
            final(self).document_id == old(self).document_id,
            final(self).storage@ == old(self).storage@,
            old(self).wf() ==> final(self).wf(),
    {
        let id: u128 = self.blocks[index].id;
        let kind: String = self.blocks[index].kind.clone();
        let created: u64 = self.blocks[index].created_at;
        self.blocks[index] = Block { id, kind, content: text, created_at: created };
    }

    /// Records which insertion gap the pointer hovers over.
    pub fn set_hovered_insert_line(&mut self, index: Option<usize>)
        ensures
            final(self).hovered_insert_line == index,
            final(self).blocks@ == old(self).blocks@,
            final(self).focused == old(self).focused,
            final(self).document_id == old(self).document_id,
            final(self).storage@ == old(self).storage@,
            old(self).wf() ==> final(self).wf(),
    {
        self.hovered_insert_line = index;
    }
}

/// What a correct rendering of the block at position `j` looks like:
/// the edit-mode visual when it is the focused block, the view-mode
/// visual otherwise.
pub open spec fn renders_block_row(e: Element, ed: LoveNote, j: int) -> bool {
    if ed.focused == Some(j as usize) {
        renders_edit_mode(e, ed.blocks@[j]@)
    } else {
        renders_view_mode(e, ed.blocks@[j]@)
    }
}

/// What the whole editor surface looks like: a column holding the
/// insertion gap `g` at position `2*g`, the block row `j` at position
/// `2*j + 1`, and the toolbar last.
pub open spec fn renders_editor(r: Element, ed: LoveNote) -> bool {
    r matches Element::Column { children } && {
        let n = ed.blocks@.len() as int;
        &&& children@.len() == 2 * n + 2
        &&& forall|c: int|
            #![trigger children@[c]]
            0 <= c < 2 * n + 1 ==> (if c % 2 == 0 {
                renders_insert_line(
                    children@[c],
                    ed.hovered_insert_line == Some((c / 2) as usize),
                )
            } else {
                renders_block_row(children@[c], ed, c / 2)
            })
        &&& renders_toolbar(children@[2 * n + 1], ed.focused)
    }
}

/// Focus exclusivity: in a well-formed editor, "some block is
/// focused" holds exactly when exactly one block is in the editing
/// state, and never more than one; with no focus, no block is
/// editing.
pub proof fn lemma_focus_exclusive(ed: LoveNote)
    requires
        ed.wf(),
    ensures
        (ed.focused is Some) <==> ed.editing_set().len() == 1,
        (ed.focused is None) <==> ed.editing_set() =~= Set::<int>::empty(),
{
    match ed.focused {
        Some(i) => {
            assert(ed.editing_set() =~= set![i as int]);
            assert(Set::<int>::empty().insert(i as int).len() == 1);
        },
        None => {
            assert(ed.editing_set() =~= Set::<int>::empty());
        },
    }
}

} // verus!
