//! The block cache: an ordered in-memory index mapping each stored entry's
//! file id to the blocks it touches and the action taken on each. It is never
//! persisted; it is rebuilt from storage at startup.

use vstd::prelude::*;

use crate::model::{notification_rows, rows_without, tag_rows};
use crate::types::{CachedBlock, Notification};

verus! {

/// Ordered index of `(file_id, row)` pairs, oldest first. Within one file id
/// the rows for reverted blocks precede the rows for committed blocks,
/// mirroring reorganization semantics: undo before redo.
#[derive(Debug)]
pub struct BlockCache {
    blocks: Vec<(u64, CachedBlock)>,
}

impl View for BlockCache {
    type V = Seq<(u64, CachedBlock)>;

    closed spec fn view(&self) -> Seq<(u64, CachedBlock)> {
        self.blocks@
    }
}

impl BlockCache {
    /// Creates an empty cache.
    pub fn new() -> (r: Self)
        ensures
            r@ == Seq::<(u64, CachedBlock)>::empty(),
    {
        BlockCache { blocks: Vec::new() }
    }

    /// Whether the cache holds no rows.
    pub fn is_empty(&self) -> (r: bool)
        ensures
            r == (self@.len() == 0),
    {
        self.blocks.len() == 0
    }

    /// Number of rows in the cache.
    pub fn len(&self) -> (r: usize)
        ensures
            r == self@.len(),
    {
        self.blocks.len()
    }

    /// The row at position `i`, oldest row first.
    pub fn get(&self, i: usize) -> (r: (u64, CachedBlock))
        requires
            i < self@.len(),
        ensures
            r == self@[i as int],
    {
        self.blocks[i]
    }

    /// The oldest row, if any.
    pub fn front(&self) -> (r: Option<(u64, CachedBlock)>)
        ensures
            self@.len() == 0 ==> r is None,
            self@.len() > 0 ==> r == Some(self@.first()),
    {
        if self.blocks.len() == 0 {
            None
        } else {
            Some(self.blocks[0])
        }
    }

    /// The newest row, if any.
    pub fn back(&self) -> (r: Option<(u64, CachedBlock)>)
        ensures
            self@.len() == 0 ==> r is None,
            self@.len() > 0 ==> r == Some(self@.last()),
    {
        if self.blocks.len() == 0 {
            None
        } else {
            Some(self.blocks[self.blocks.len() - 1])
        }
    }

    /// Removes and returns the oldest row.
    pub fn pop_front(&mut self) -> (r: Option<(u64, CachedBlock)>)
        ensures
            old(self)@.len() == 0 ==> r is None && final(self)@ == old(self)@,
            old(self)@.len() > 0 ==> r == Some(old(self)@.first()) && final(self)@ == old(
                self,
            )@.drop_first(),
    {
        if self.blocks.len() == 0 {
            None
        } else {
            let row = self.blocks.remove(0);
            Some(row)
        }
    }

    /// A copy of all rows, oldest first.
    pub fn iter(&self) -> (r: Vec<(u64, CachedBlock)>)
        ensures
            r@ == self@,
    {
        let mut rows: Vec<(u64, CachedBlock)> = Vec::new();
        let mut i: usize = 0;
        while i < self.blocks.len()
            invariant
                i <= self.blocks.len(),
                rows@ == self.blocks@.take(i as int),
            decreases self.blocks.len() - i,
        {
            proof {
                assert(self.blocks@.take(i + 1) =~= self.blocks@.take(i as int).push(
                    self.blocks@[i as int],
                ));
            }
            rows.push(self.blocks[i]);
            i = i + 1;
        }
        proof {
            assert(rows@ =~= self@);
        }
        rows
    }

    /// Expands `notification` into its rows and appends them, each tagged
    /// with `file_id`: reverted blocks first, then committed blocks.
    pub fn insert_notification_blocks_with_file_id(
        &mut self,
        file_id: u64,
        notification: &Notification,
    )
        ensures
            final(self)@ == old(self)@ + tag_rows(file_id, notification_rows(notification@)),
    {
        let ghost rows = tag_rows(file_id, notification_rows(notification@));
        let ghost n_revert = match crate::types::reverted_blocks_of(notification@) {
            Some(old_blocks) => old_blocks.len() as int,
            None => 0,
        };
        proof {
            assert(rows.take(0) =~= Seq::<(u64, CachedBlock)>::empty());
            assert(old(self)@ + rows.take(0) =~= old(self)@);
        }
        if let Some(reverted) = notification.reverted_chain() {
            let blocks = reverted.blocks();
            let mut i: usize = 0;
            while i < blocks.len()
                invariant
                    i <= blocks@.len(),
                    rows == tag_rows(file_id, notification_rows(notification@)),
                    n_revert == blocks@.len(),
                    rows.len() >= n_revert,
                    forall|j: int|
                        0 <= j < n_revert ==> #[trigger] rows[j] == (
                        file_id,
                        CachedBlock {
                            action: crate::types::CachedBlockAction::Revert,
                            block: blocks@[j],
                        },
                        ),
                    self@ == old(self)@ + rows.take(i as int),
                decreases blocks@.len() - i,
            {
                let b = blocks[i];
                self.blocks.push(
                    (
                        file_id,
                        CachedBlock { action: crate::types::CachedBlockAction::Revert, block: b },
                    ),
                );
                proof {
                    assert(rows.take(i + 1) =~= rows.take(i as int).push(rows[i as int]));
                    assert(self@ =~= old(self)@ + rows.take(i + 1));
                }
                i = i + 1;
            }
        }
        if let Some(committed) = notification.committed_chain() {
            let blocks = committed.blocks();
            let mut i: usize = 0;
            while i < blocks.len()
                invariant
                    i <= blocks@.len(),
                    rows == tag_rows(file_id, notification_rows(notification@)),
                    n_revert == (match crate::types::reverted_blocks_of(notification@) {
                        Some(old_blocks) => old_blocks.len() as int,
                        None => 0,
                    }),
                    rows.len() == n_revert + blocks@.len(),
                    forall|j: int|
                        0 <= j < blocks@.len() ==> #[trigger] rows[n_revert + j] == (
                        file_id,
                        CachedBlock {
                            action: crate::types::CachedBlockAction::Commit,
                            block: blocks@[j],
                        },
                        ),
                    self@ == old(self)@ + rows.take(n_revert + i),
                decreases blocks@.len() - i,
            {
                let b = blocks[i];
                self.blocks.push(
                    (
                        file_id,
                        CachedBlock { action: crate::types::CachedBlockAction::Commit, block: b },
                    ),
                );
                proof {
                    assert(rows.take(n_revert + i + 1) =~= rows.take(n_revert + i).push(
                        rows[n_revert + i],
                    ));
                    assert(self@ =~= old(self)@ + rows.take(n_revert + i + 1));
                }
                i = i + 1;
            }
        }
        proof {
            assert(rows.take(rows.len() as int) =~= rows);
            assert(self@ =~= old(self)@ + rows);
        }
    }

    /// Removes every row tagged with `file_id`.
    pub fn remove_notification(&mut self, file_id: u64)
        ensures
            final(self)@ == rows_without(old(self)@, file_id),
    {
        let mut kept: Vec<(u64, CachedBlock)> = Vec::new();
        let mut i: usize = 0;
        while i < self.blocks.len()
            invariant
                i <= self.blocks@.len(),
                kept@ == rows_without(self.blocks@.take(i as int), file_id),
                self@ == old(self)@,
            decreases self.blocks@.len() - i,
        {
            let row = self.blocks[i];
            proof {
                assert(self.blocks@.take(i + 1).drop_last() =~= self.blocks@.take(i as int));
                assert(self.blocks@.take(i + 1).last() == row);
            }
            if row.0 != file_id {
                kept.push(row);
            }
            i = i + 1;
        }
        proof {
            assert(self.blocks@.take(self.blocks@.len() as int) =~= self.blocks@);
        }
        self.blocks = kept;
    }
}

} // verus!
