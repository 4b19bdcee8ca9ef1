//! The durable document model: stored blocks and the document aggregate.
//!
//! Timestamps are milliseconds since the Unix epoch. Every mutation
//! refreshes `updated_at` to the supplied clock reading, clamped so that
//! the invariant `updated_at >= created_at` always holds even if the
//! clock steps backwards.

use vstd::prelude::*;

use crate::ids::random_uuid_u128;

verus! {

/// A mutation timestamp: the clock reading, clamped to the creation time
/// so that `updated_at >= created_at` is preserved.
pub open spec fn stamp(created: u64, now: u64) -> u64 {
    if now >= created {
        now
    } else {
        created
    }
}

/// Mathematical image of a [`StoredBlock`].
pub ghost struct StoredBlockView {
    pub id: u128,
    pub kind: Seq<char>,
    pub content: Seq<char>,
    pub created_at: u64,
    pub updated_at: u64,
}

impl StoredBlockView {
    /// A stored block is well formed when its update time does not
    /// precede its creation time.
    pub open spec fn wf(self) -> bool {
        self.updated_at >= self.created_at
    }
}

/// One block as persisted inside a document: a kind tag, plain text
/// content, and timestamps. The `id` is stable across saves.
#[derive(Debug, Clone)]
pub struct StoredBlock {
    pub id: u128,
    pub kind: String,
    pub content: String,
    pub created_at: u64,
    pub updated_at: u64,
}

impl View for StoredBlock {
    type V = StoredBlockView;

    open spec fn view(&self) -> StoredBlockView {
        StoredBlockView {
            id: self.id,
            kind: self.kind@,
            content: self.content@,
            created_at: self.created_at,
            updated_at: self.updated_at,
        }
    }
}

impl StoredBlock {
    /// A fresh stored block with a random identifier, created and
    /// updated at the given time.
    pub fn new(kind: String, content: String, now: u64) -> (r: StoredBlock)
        ensures
            r@.kind == kind@,
            r@.content == content@,
            r@.created_at == now,
            r@.updated_at == now,
            r@.wf(),
    {
        StoredBlock { id: random_uuid_u128(), kind, content, created_at: now, updated_at: now }
    }

    /// Replaces the text content and refreshes the update time.
    pub fn update_content(&mut self, content: String, now: u64)
        ensures
            final(self)@ == (StoredBlockView {
                content: content@,
                updated_at: stamp(old(self).created_at, now),
                ..old(self)@
            }),
            final(self)@.wf(),
    {
        self.content = content;
        self.updated_at = if now >= self.created_at {
            now
        } else {
            self.created_at
        };
    }
}

/// The views of a sequence of stored blocks, element-wise.
pub open spec fn blocks_view(bs: Seq<StoredBlock>) -> Seq<StoredBlockView> {
    bs.map_values(|b: StoredBlock| b@)
}

/// Mathematical image of a [`Document`].
pub ghost struct DocumentView {
    pub id: u128,
    pub title: Seq<char>,
    pub blocks: Seq<StoredBlockView>,
    pub created_at: u64,
    pub updated_at: u64,
}

impl DocumentView {
    /// Whether some block of the document carries the given identifier.
    pub open spec fn contains_block(self, block_id: u128) -> bool {
        exists|i: int| 0 <= i < self.blocks.len() && self.blocks[i].id == block_id
    }

    /// The position of the block with the given identifier. Meaningful
    /// only under `wf`, which makes block identifiers unique.
    pub open spec fn idx_of(self, block_id: u128) -> int {
        choose|i: int| 0 <= i < self.blocks.len() && self.blocks[i].id == block_id
    }

    /// A document is well formed when its own timestamps are ordered,
    /// every block is well formed, and block identifiers are unique.
    pub open spec fn wf(self) -> bool {
        &&& self.updated_at >= self.created_at
        &&& forall|i: int| 0 <= i < self.blocks.len() ==> (#[trigger] self.blocks[i]).wf()
        &&& forall|i: int, j: int|
            0 <= i < self.blocks.len() && 0 <= j < self.blocks.len() && i != j
                ==> (#[trigger] self.blocks[i]).id != (#[trigger] self.blocks[j]).id
    }
}

/// The unit of persistence: an ordered sequence of stored blocks plus a
/// title and timestamps. Block order is display order.
#[derive(Debug, Clone)]
pub struct Document {
    pub id: u128,
    pub title: String,
    pub blocks: Vec<StoredBlock>,
    pub created_at: u64,
    pub updated_at: u64,
}

impl View for Document {
    type V = DocumentView;

    open spec fn view(&self) -> DocumentView {
        DocumentView {
            id: self.id,
            title: self.title@,
            blocks: blocks_view(self.blocks@),
            created_at: self.created_at,
            updated_at: self.updated_at,
        }
    }
}

impl Document {
    /// A fresh, empty document with a random identifier.
    pub fn new(title: String, now: u64) -> (r: Document)
        ensures
            r@.title == title@,
            r@.blocks =~= Seq::<StoredBlockView>::empty(),
            r@.created_at == now,
            r@.updated_at == now,
            r@.wf(),
    {
        Document { id: random_uuid_u128(), title, blocks: Vec::new(), created_at: now, updated_at: now }
    }

    /// Appends a block and refreshes the document's update time.
    pub fn add_block(&mut self, block: StoredBlock, now: u64)
        requires
            old(self)@.wf(),
            block@.wf(),
            !old(self)@.contains_block(block.id),
        ensures
            final(self)@ == (DocumentView {
                blocks: old(self)@.blocks.push(block@),
                updated_at: stamp(old(self).created_at, now),
                ..old(self)@
            }),
            final(self)@.wf(),
    {
        self.blocks.push(block);
        self.updated_at = if now >= self.created_at {
            now
        } else {
            self.created_at
        };
        proof {
            assert(self@.blocks =~= old(self)@.blocks.push(block@));
        }
    }

    /// Splices a block in at `index` and refreshes the update time.
    pub fn insert_block(&mut self, index: usize, block: StoredBlock, now: u64)
        requires
            index <= old(self).blocks.len(),
            old(self)@.wf(),
            block@.wf(),
            !old(self)@.contains_block(block.id),
        ensures
            final(self)@ == (DocumentView {
                blocks: old(self)@.blocks.insert(index as int, block@),
                updated_at: stamp(old(self).created_at, now),
                ..old(self)@
            }),
            final(self)@.wf(),
    {
        self.blocks.insert(index, block);
        self.updated_at = if now >= self.created_at {
            now
        } else {
            self.created_at
        };
        proof {
            assert(self@.blocks =~= old(self)@.blocks.insert(index as int, block@));
        }
    }

    /// Replaces the content of the block with the given identifier, if
    /// present, refreshing both block and document update times. Returns
    /// whether a block was found.
    pub fn update_block(&mut self, block_id: u128, content: String, now: u64) -> (r: bool)
        requires
            old(self)@.wf(),
        ensures
            r == old(self)@.contains_block(block_id),
            r ==> final(self)@ == (DocumentView {
                blocks: old(self)@.blocks.update(
                    old(self)@.idx_of(block_id),
                    (StoredBlockView {
                        content: content@,
                        updated_at: stamp(
                            old(self)@.blocks[old(self)@.idx_of(block_id)].created_at,
                            now,
                        ),
                        ..old(self)@.blocks[old(self)@.idx_of(block_id)]
                    }),
                ),
                updated_at: stamp(old(self).created_at, now),
                ..old(self)@
            }),
            !r ==> final(self)@ == old(self)@,
            final(self)@.wf(),
    {
        let n: usize = self.blocks.len();
        let mut i: usize = 0;
        while i < n
            invariant
                n == self.blocks.len(),
                i <= n,
                self@ == old(self)@,
                old(self)@.wf(),
                forall|j: int| 0 <= j < i ==> old(self)@.blocks[j].id != block_id,
            decreases n - i,
        {
            if self.blocks[i].id == block_id {
                proof {
                    assert(old(self)@.blocks[i as int].id == block_id);
                    assert(old(self)@.contains_block(block_id));
                    let k = old(self)@.idx_of(block_id);
                    assert(0 <= k < old(self)@.blocks.len() && old(self)@.blocks[k].id == block_id);
                    assert(k == i);
                }
                let created: u64 = self.blocks[i].created_at;
                let updated: u64 = if now >= created {
                    now
                } else {
                    created
                };
                let replacement = StoredBlock {
                    id: block_id,
                    kind: self.blocks[i].kind.clone(),
                    content,
                    created_at: created,
                    updated_at: updated,
                };
                self.blocks[i] = replacement;
                self.updated_at = if now >= self.created_at {
                    now
                } else {
                    self.created_at
                };
                proof {
                    assert(self@.blocks =~= old(self)@.blocks.update(
                        old(self)@.idx_of(block_id),
                        self@.blocks[i as int],
                    ));
                }
                return true;
            }
            i = i + 1;
        }
        proof {
            assert(!old(self)@.contains_block(block_id));
        }
        false
    }

    /// Removes and returns the block with the given identifier, if
    /// present, refreshing the document's update time only when a block
    /// was removed.
    pub fn remove_block(&mut self, block_id: u128, now: u64) -> (r: Option<StoredBlock>)
        requires
            old(self)@.wf(),
        ensures
            (r is Some) == old(self)@.contains_block(block_id),
            r matches Some(b) ==> {
                &&& b@ == old(self)@.blocks[old(self)@.idx_of(block_id)]
                &&& final(self)@ == (DocumentView {
                    blocks: old(self)@.blocks.remove(old(self)@.idx_of(block_id)),
                    updated_at: stamp(old(self).created_at, now),
                    ..old(self)@
                })
            },
            r is None ==> final(self)@ == old(self)@,
            final(self)@.wf(),
    {
        let n: usize = self.blocks.len();
        let mut i: usize = 0;
        while i < n
            invariant
                n == self.blocks.len(),
                i <= n,
                self@ == old(self)@,
                old(self)@.wf(),
                forall|j: int| 0 <= j < i ==> old(self)@.blocks[j].id != block_id,
            decreases n - i,
        {
            if self.blocks[i].id == block_id {
                proof {
                    assert(old(self)@.blocks[i as int].id == block_id);
                    assert(old(self)@.contains_block(block_id));
                    let k = old(self)@.idx_of(block_id);
                    assert(0 <= k < old(self)@.blocks.len() && old(self)@.blocks[k].id == block_id);
                    assert(k == i);
                }
                self.updated_at = if now >= self.created_at {
                    now
                } else {
                    self.created_at
                };
                let removed = self.blocks.remove(i);
                proof {
                    assert(self@.blocks =~= old(self)@.blocks.remove(old(self)@.idx_of(block_id)));
                }
                return Some(removed);
            }
            i = i + 1;
        }
        proof {
            assert(!old(self)@.contains_block(block_id));
        }
        None
    }

    /// A reference to the block with the given identifier, if present.
    pub fn get_block(&self, block_id: u128) -> (r: Option<&StoredBlock>)
        requires
            self@.wf(),
        ensures
            (r is Some) == self@.contains_block(block_id),
            r matches Some(b) ==> b@ == self@.blocks[self@.idx_of(block_id)],
    {
        let n: usize = self.blocks.len();
        let mut i: usize = 0;
        while i < n
            invariant
                n == self.blocks.len(),
                i <= n,
                self@.wf(),
                forall|j: int| 0 <= j < i ==> self@.blocks[j].id != block_id,
            decreases n - i,
        {
            if self.blocks[i].id == block_id {
                proof {
                    assert(self@.blocks[i as int].id == block_id);
                    assert(self@.contains_block(block_id));
                    let k = self@.idx_of(block_id);
                    assert(0 <= k < self@.blocks.len() && self@.blocks[k].id == block_id);
                    assert(k == i);
                }
                return Some(&self.blocks[i]);
            }
            i = i + 1;
        }
        None
    }
}

} // verus!
