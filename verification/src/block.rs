//! Live blocks and the closed set of block kinds.
//!
//! A live [`Block`] is the editable, in-memory counterpart of a
//! [`StoredBlock`]. Its behavior (display name, placeholder, sizing,
//! rendering) is dispatched over the [`BlockKind`] its `kind` tag
//! resolves to; a tag that matches no known kind falls back to
//! [`BlockKind::Text`] so that forward-compatible documents still open,
//! while the tag itself is preserved losslessly.

use vstd::prelude::*;

use crate::document::{stamp, StoredBlock, StoredBlockView};
use crate::ids::random_uuid_u128;
use crate::plugin_api::{Element, HeadingElement, InputElement, TextElement};

verus! {

/// The closed set of known block kinds.
#[derive(Debug, Clone, Copy, PartialEq, Eq, Structural)]
pub enum BlockKind {
    Text,
    Heading,
}

/// The storage tag of a kind, always lower case.
pub open spec fn spec_kind_string(k: BlockKind) -> Seq<char> {
    match k {
        BlockKind::Text => "text"@,
        BlockKind::Heading => "heading"@,
    }
}

/// The human-readable name of a kind.
pub open spec fn spec_display_name(k: BlockKind) -> Seq<char> {
    match k {
        BlockKind::Text => "Text"@,
        BlockKind::Heading => "Heading"@,
    }
}

/// The placeholder shown while a block of the kind is empty.
pub open spec fn spec_placeholder(k: BlockKind) -> Seq<char> {
    match k {
        BlockKind::Text => "Type text here..."@,
        BlockKind::Heading => "Heading..."@,
    }
}

/// The input row limit of a kind; 1 pins the block to a single line.
pub open spec fn spec_max_rows(k: BlockKind) -> usize {
    match k {
        BlockKind::Text => 20,
        BlockKind::Heading => 1,
    }
}

/// The kind a stored tag resolves to; unknown tags fall back to `Text`.
pub open spec fn variant_of(kind: Seq<char>) -> BlockKind {
    if kind == "heading"@ {
        BlockKind::Heading
    } else {
        BlockKind::Text
    }
}

impl BlockKind {
    /// All kinds, in the order the insertion toolbar offers them.
    pub fn all() -> (r: Vec<BlockKind>)
        ensures
            r@ =~= seq![BlockKind::Heading, BlockKind::Text],
    {
        let mut v: Vec<BlockKind> = Vec::new();
        v.push(BlockKind::Heading);
        v.push(BlockKind::Text);
        v
    }

    /// The display name, for UI labeling.
    pub fn display_name(self) -> (r: &'static str)
        ensures
            r@ == spec_display_name(self),
    {
        match self {
            BlockKind::Text => "Text",
            BlockKind::Heading => "Heading",
        }
    }

    /// The storage tag written into persisted blocks.
    pub fn kind_string(self) -> (r: &'static str)
        ensures
            r@ == spec_kind_string(self),
    {
        match self {
            BlockKind::Text => "text",
            BlockKind::Heading => "heading",
        }
    }

    /// The placeholder text for empty blocks of this kind.
    pub fn placeholder(self) -> (r: &'static str)
        ensures
            r@ == spec_placeholder(self),
    {
        match self {
            BlockKind::Text => "Type text here...",
            BlockKind::Heading => "Heading...",
        }
    }

    /// The row limit for auto-growing edit surfaces.
    pub fn max_rows(self) -> (r: usize)
        ensures
            r == spec_max_rows(self),
    {
        match self {
            BlockKind::Text => 20,
            BlockKind::Heading => 1,
        }
    }

    /// Resolves a stored tag; unknown tags fall back to `Text`.
    pub fn from_kind_string(kind: &String) -> (r: BlockKind)
        ensures
            r == variant_of(kind@),
    {
        if *kind == "heading".to_owned() {
            BlockKind::Heading
        } else {
            BlockKind::Text
        }
    }

    /// A fresh live block of this kind, empty, stamped with `now`.
    pub fn create_block(self, now: u64) -> (r: Block)
        ensures
            r@.kind == spec_kind_string(self),
            r@.content =~= Seq::<char>::empty(),
            r@.created_at == now,
    {
        Block::new(self, now)
    }
}

/// Mathematical image of a live [`Block`].
pub ghost struct BlockView {
    pub id: u128,
    pub kind: Seq<char>,
    pub content: Seq<char>,
    pub created_at: u64,
}

/// The live block a stored block materializes to: same identity, tag
/// and content; the creation time is threaded through.
pub open spec fn from_stored_spec(s: StoredBlockView) -> BlockView {
    BlockView { id: s.id, kind: s.kind, content: s.content, created_at: s.created_at }
}

/// The snapshot a live block persists to at time `now`: identity, tag
/// and content are kept; the update time is stamped.
pub open spec fn to_stored_spec(b: BlockView, now: u64) -> StoredBlockView {
    StoredBlockView {
        id: b.id,
        kind: b.kind,
        content: b.content,
        created_at: b.created_at,
        updated_at: stamp(b.created_at, now),
    }
}

/// The text a block shows in view mode: its content, or the kind's
/// placeholder when the content is empty.
pub open spec fn display_text(b: BlockView) -> Seq<char> {
    if b.content.len() == 0 {
        spec_placeholder(variant_of(b.kind))
    } else {
        b.content
    }
}

/// What a correct view-mode (unfocused) visual of a block looks like.
pub open spec fn renders_view_mode(r: Element, b: BlockView) -> bool {
    match variant_of(b.kind) {
        BlockKind::Heading => r matches Element::Heading(h) && h.level == 1 && h.content@
            == display_text(b),
        BlockKind::Text => r matches Element::Text(t) && t.content@ == display_text(b) && !t.bold
            && !t.italic && !t.code,
    }
}

/// What a correct edit-mode (focused) visual of a block looks like: a
/// live input carrying the raw content and the kind's placeholder.
pub open spec fn renders_edit_mode(r: Element, b: BlockView) -> bool {
    r matches Element::Input(i) && i.id@ == Seq::<char>::empty() && i.value@ == b.content && (
    i.placeholder matches Some(p) && p@ == spec_placeholder(variant_of(b.kind))) && i.multiline == (
    spec_max_rows(variant_of(b.kind)) > 1)
}

/// A live, editable block: identity, kind tag, text buffer, and the
/// creation time carried over from its stored counterpart.
#[derive(Debug, Clone)]
pub struct Block {
    pub id: u128,
    pub kind: String,
    pub content: String,
    pub created_at: u64,
}

impl View for Block {
    type V = BlockView;

    open spec fn view(&self) -> BlockView {
        BlockView {
            id: self.id,
            kind: self.kind@,
            content: self.content@,
            created_at: self.created_at,
        }
    }
}

impl Block {
    /// A fresh, empty block of the given kind with a random identifier.
    pub fn new(kind: BlockKind, now: u64) -> (r: Block)
        ensures
            r@.kind == spec_kind_string(kind),
            r@.content =~= Seq::<char>::empty(),
            r@.created_at == now,
    {
        Block {
            id: random_uuid_u128(),
            kind: kind.kind_string().to_owned(),
            content: String::new(),
            created_at: now,
        }
    }

    /// Materializes a stored block, preserving identity, tag and
    /// content; an unknown tag still opens (it renders as `Text`).
    pub fn from_stored(stored: &StoredBlock) -> (r: Block)
        ensures
            r@ == from_stored_spec(stored@),
    {
        Block {
            id: stored.id,
            kind: stored.kind.clone(),
            content: stored.content.clone(),
            created_at: stored.created_at,
        }
    }

    /// Snapshots the block for persistence at time `now`.
    pub fn to_stored(&self, now: u64) -> (r: StoredBlock)
        ensures
            r@ == to_stored_spec(self@, now),
            r@.wf(),
    {
        StoredBlock {
            id: self.id,
            kind: self.kind.clone(),
            content: self.content.clone(),
            created_at: self.created_at,
            updated_at: if now >= self.created_at {
                now
            } else {
                self.created_at
            },
        }
    }

    /// The kind this block's tag resolves to.
    pub fn content_kind(&self) -> (r: BlockKind)
        ensures
            r == variant_of(self@.kind),
    {
        BlockKind::from_kind_string(&self.kind)
    }

    /// The display name of the resolved kind.
    pub fn display_name(&self) -> (r: &'static str)
        ensures
            r@ == spec_display_name(variant_of(self@.kind)),
    {
        self.content_kind().display_name()
    }

    /// The current text content.
    pub fn get_content(&self) -> (r: String)
        ensures
            r@ == self@.content,
    {
        self.content.clone()
    }

    /// Replaces the text content (the live buffer being edited).
    pub fn set_content(&mut self, text: String)
        ensures
            final(self)@ == (BlockView { content: text@, ..old(self)@ }),
    {
        self.content = text;
    }

    /// The block's visual for the given focus state: an editable input
    /// when focused, otherwise a read-only rendering that substitutes
    /// the placeholder for empty content.
    pub fn render(&self, focused: bool) -> (r: Element)
        ensures
            focused ==> renders_edit_mode(r, self@),
            !focused ==> renders_view_mode(r, self@),
    {
        if focused {
            Element::Input(InputElement {
                id: String::new(),
                value: self.content.clone(),
                placeholder: Some(self.content_kind().placeholder().to_owned()),
                multiline: self.content_kind().max_rows() > 1,
            })
        } else {
            let display: String = if self.content.as_str().unicode_len() == 0 {
                self.content_kind().placeholder().to_owned()
            } else {
                self.content.clone()
            };
            match self.content_kind() {
                BlockKind::Heading => Element::Heading(HeadingElement { level: 1, content: display }),
                BlockKind::Text => Element::Text(TextElement {
                    content: display,
                    bold: false,
                    italic: false,
                    code: false,
                }),
            }
        }
    }
}

/// A block's tag always resolves to the kind it was constructed
/// from: the storage tag of every known kind resolves back to that
/// kind, so a freshly created block never falls back to the default
/// variant by mistake.
pub proof fn lemma_kind_tag_resolves(k: BlockKind)
    ensures
        variant_of(spec_kind_string(k)) == k,
{
    reveal_strlit("text");
    reveal_strlit("heading");
    assert("text"@.len() == 4);
    assert("heading"@.len() == 7);
}

/// Round-trip safety of materialize/snapshot: for any stored block,
/// bringing it to life and snapshotting it again preserves identity,
/// kind tag and content losslessly — also when the tag matches no known
/// kind — and keeps the creation time, stamping only the update time.
pub proof fn lemma_stored_round_trip(s: StoredBlockView, now: u64)
    ensures
        to_stored_spec(from_stored_spec(s), now).id == s.id,
        to_stored_spec(from_stored_spec(s), now).kind == s.kind,
        to_stored_spec(from_stored_spec(s), now).content == s.content,
        to_stored_spec(from_stored_spec(s), now).created_at == s.created_at,
        to_stored_spec(from_stored_spec(s), now).wf(),
{
}

} // verus!
