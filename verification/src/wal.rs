//! The write-ahead log: orchestrates storage and the block cache and
//! guarantees they never diverge. Callers commit notifications, finalize a
//! settled prefix, or remove a single boundary entry; every operation is
//! proved to effect the corresponding transition on the abstract log model.

use vstd::prelude::*;

use crate::cache::BlockCache;
use crate::model::{
    cache_rows, commit_spec, contains_id, finalize_spec, is_commit_match, lemma_cache_row_position,
    lemma_cache_rows_commit, lemma_cache_rows_first, lemma_cache_rows_ids, lemma_cache_rows_last,
    lemma_cache_rows_remove_first, lemma_cache_rows_remove_last, lemma_cache_rows_snoc,
    lemma_cache_rows_split, lemma_commit_row_from_committed, lemma_find_commit_row,
    lemma_find_commit_row_unique, next_file_id, remove_spec, trim_front, WalModel,
};
use crate::storage::Storage;
use crate::types::{
    BlockNumHash, CachedBlock, EntryModel, Notification, NotificationCommitTarget, WalEntry,
    WalError,
};

verus! {

/// The write-ahead log. It owns the entry log and the in-memory block
/// cache, and keeps the cache equal to the expansion of exactly the entries
/// that storage holds.
#[derive(Debug)]
pub struct Wal {
    storage: Storage,
    block_cache: BlockCache,
}

impl View for Wal {
    type V = WalModel;

    closed spec fn view(&self) -> WalModel {
        self.storage@
    }
}

impl Wal {
    /// The log is well formed when storage is and the cache mirrors it.
    pub closed spec fn wf(&self) -> bool {
        &&& self.storage.wf()
        &&& self.block_cache@ == cache_rows(self@)
    }

    /// Opens the log over `storage` and rebuilds the block cache from it.
    ///
    /// The cache is deliberately never persisted: the entry log is the
    /// single source of truth, and this recovery scan makes the cache
    /// consistent with it no matter how the previous run ended.
    pub fn new(storage: Storage) -> (r: Result<Wal, WalError>)
        requires
            storage.wf(),
        ensures
            (r matches Ok(w) && w.wf() && w@ == storage@),
    {
        let mut wal = Wal { storage, block_cache: BlockCache::new() };
        match wal.fill_block_cache() {
            Ok(()) => Ok(wal),
            Err(e) => Err(e),
        }
    }

    /// Expands every stored notification into the empty block cache.
    #[verifier::loop_isolation(false)]
    fn fill_block_cache(&mut self) -> (r: Result<(), WalError>)
        requires
            old(self).storage.wf(),
            old(self).block_cache@ == Seq::<(u64, CachedBlock)>::empty(),
        ensures
            r is Ok,
            final(self).wf(),
            final(self)@ == old(self)@,
            final(self).storage == old(self).storage,
    {
        let range = self.storage.files_range();
        let min = match range {
            None => {
                proof {
                    assert(cache_rows(self@) =~= Seq::<(u64, CachedBlock)>::empty());
                }
                return Ok(());
            },
            Some(r) => r.0,
        };
        let n = self.storage.len();
        let mut i: usize = 0;
        while i < n
            invariant
                i <= n,
                self.storage == old(self).storage,
                self.block_cache@ == cache_rows(
                    (WalModel { first: min, entries: self@.entries.take(i as int) }),
                ),
            decreases n - i,
        {
            let id = min + (i as u64);
            let entry = match self.storage.read_entry(id) {
                Ok(e) => e,
                Err(e) => {
                    return Err(e);
                },
            };
            self.block_cache.insert_notification_blocks_with_file_id(id, &entry.notification);
            proof {
                let entries = self@.entries;
                assert(entries.take(i + 1) =~= entries.take(i as int).push(entries[i as int]));
                lemma_cache_rows_snoc(
                    WalModel { first: min, entries: entries.take(i as int) },
                    entries[i as int],
                );
            }
            i = i + 1;
        }
        proof {
            assert(self@.entries.take(n as int) =~= self@.entries);
        }
        Ok(())
    }

    /// A borrow of the block cache, always the exact expansion of what is
    /// stored.
    pub fn block_cache(&self) -> (r: &BlockCache)
        requires
            self.wf(),
        ensures
            r@ == cache_rows(self@),
    {
        &self.block_cache
    }

    /// Commits the notification: its rows enter the cache and the entry is
    /// persisted, both under the next file id (`0` on an empty log).
    pub fn commit(&mut self, target: NotificationCommitTarget, notification: Notification) -> (r:
        Result<(), WalError>)
        requires
            old(self).wf(),
            notification.wf(),
            old(self)@.first + old(self)@.entries.len() <= u64::MAX,
        ensures
            r is Ok,
            final(self).wf(),
            final(self)@ == commit_spec(
                old(self)@,
                (EntryModel { target, notification: notification@ }),
            ),
    {
        let ghost n_model = notification@;
        let back = self.block_cache.back();
        let file_id = match back {
            None => 0,
            Some((id, _)) => id + 1,
        };
        proof {
            if old(self)@.entries.len() > 0 {
                lemma_cache_rows_last(old(self)@);
            }
            assert(file_id == next_file_id(old(self)@));
        }
        self.block_cache.insert_notification_blocks_with_file_id(file_id, &notification);
        let entry = WalEntry::new(target, notification);
        let res = self.storage.write_entry(file_id, entry);
        proof {
            let e_model = EntryModel { target, notification: n_model };
            lemma_cache_rows_commit(old(self)@, e_model);
            assert(self@ =~= commit_spec(old(self)@, e_model));
        }
        res
    }

    /// Removes the entry with the given file id from storage and drops its
    /// rows from the cache. The id must sit at a boundary of the live
    /// range; an absent id is reported, with nothing changed.
    pub fn remove(&mut self, file_id: u64) -> (r: Result<(), WalError>)
        requires
            old(self).wf(),
            contains_id(old(self)@, file_id) ==> file_id == old(self)@.first || file_id == old(
                self,
            )@.first + old(self)@.entries.len() - 1,
        ensures
            final(self).wf(),
            contains_id(old(self)@, file_id) ==> r is Ok && final(self)@ == remove_spec(
                old(self)@,
                file_id,
            ),
            !contains_id(old(self)@, file_id) ==> r == Err::<(), WalError>(WalError::NotFound)
                && final(self)@ == old(self)@,
    {
        match self.storage.remove_entry(file_id) {
            Ok(()) => {},
            Err(e) => {
                return Err(e);
            },
        }
        self.block_cache.remove_notification(file_id);
        proof {
            if file_id == old(self)@.first {
                lemma_cache_rows_remove_first(old(self)@);
            } else {
                lemma_cache_rows_remove_last(old(self)@);
            }
        }
        Ok(())
    }

    /// Finalizes the log to `to_block`, inclusive.
    ///
    /// The cache is scanned from the front for a row that applies
    /// `to_block`. If none exists, nothing changes. If the matching entry
    /// commits only that block, the entry itself is finalized too;
    /// otherwise it is kept whole, and only entries strictly before it are
    /// removed — an entry's rows are never split.
    #[verifier::loop_isolation(false)]
    #[verifier::rlimit(60)]
    pub fn finalize(&mut self, to_block: BlockNumHash) -> (r: Result<(), WalError>)
        requires
            old(self).wf(),
        ensures
            r is Ok,
            final(self).wf(),
            final(self)@ == finalize_spec(old(self)@, to_block),
    {
        let ghost m = old(self)@;
        let ghost rows = cache_rows(m);

        // Walk the cache for the first row that applies `to_block`.
        let n = self.block_cache.len();
        let mut i: usize = 0;
        let mut found = false;
        let mut found_id: u64 = 0;
        while i < n
            invariant
                i <= n,
                n == rows.len(),
                !found,
                forall|k: int| 0 <= k < i ==> !is_commit_match(#[trigger] rows[k], to_block),
            decreases n - i,
        {
            let row = self.block_cache.get(i);
            if row.1.action.is_commit() && row.1.block.number == to_block.number
                && row.1.block.hash == to_block.hash {
                found = true;
                found_id = row.0;
                break;
            }
            i = i + 1;
        }
        if !found {
            // The block is not in the cache: a defined no-op.
            proof {
                lemma_find_commit_row(rows, to_block);
                assert(finalize_spec(m, to_block) == m);
            }
            return Ok(());
        }
        let f = found_id;
        proof {
            lemma_find_commit_row_unique(rows, to_block, i as int);
            lemma_cache_rows_ids(m);
        }

        // Decide whether the matching entry is itself finalized: only when
        // its committed chain holds nothing but `to_block`.
        let ghost idx = f - m.first;
        proof {
            lemma_cache_row_position(m, i as int);
            lemma_commit_row_from_committed(
                m.entries[idx].notification,
                i - cache_rows((WalModel { first: m.first, entries: m.entries.take(idx) })).len(),
            );
        }
        let entry = match self.storage.read_entry(f) {
            Ok(e) => e,
            Err(e) => {
                return Err(e);
            },
        };
        let committed = match entry.notification.committed_chain() {
            Some(c) => c,
            None => {
                return Err(WalError::DecodeError);
            },
        };
        let sole = committed.len() == 1;
        let max = match self.storage.files_range() {
            Some(r) => r.1,
            None => {
                return Err(WalError::NotFound);
            },
        };
        // First file id that stays; `None` means everything goes.
        let boundary: Option<u64> = if sole {
            if f == max {
                None
            } else {
                Some(f + 1)
            }
        } else {
            Some(f)
        };
        let ghost keep: int = if sole {
            idx + 1
        } else {
            idx
        };
        proof {
            assert(boundary is None ==> keep == m.entries.len());
            assert(boundary matches Some(bd) ==> keep < m.entries.len() && bd == m.first + keep);
            lemma_cache_rows_split(m, keep);
        }
        let ghost p = cache_rows((WalModel { first: m.first, entries: m.entries.take(keep) }));
        let ghost s_model = WalModel { first: (m.first + keep) as u64, entries: m.entries.skip(keep) };
        proof {
            lemma_cache_rows_ids(WalModel { first: m.first, entries: m.entries.take(keep) });
            lemma_cache_rows_ids(s_model);
            if s_model.entries.len() > 0 {
                lemma_cache_rows_first(s_model);
            }
            if keep > 0 {
                lemma_cache_rows_first(WalModel { first: m.first, entries: m.entries.take(keep) });
                lemma_cache_rows_last(WalModel { first: m.first, entries: m.entries.take(keep) });
            }
        }

        // Trim the cache row by row up to the boundary, tracking the id
        // range that actually went.
        let ghost mut j: int = 0;
        let mut file_range_start: Option<u64> = None;
        let mut file_range_end: Option<u64> = None;
        loop
            invariant
                0 <= j <= p.len(),
                self.block_cache@ == rows.skip(j),
                self.storage == old(self).storage,
                j == 0 ==> file_range_start is None && file_range_end is None,
                j > 0 ==> file_range_start == Some(m.first) && file_range_end == Some(
                    rows[j - 1].0,
                ),
            decreases self.block_cache@.len(),
        {
            let front = self.block_cache.front();
            let fid = match front {
                None => {
                    break;
                },
                Some(x) => x.0,
            };
            if let Some(bd) = boundary {
                if fid == bd {
                    break;
                }
            }
            proof {
                assert(fid == rows[j].0);
                if j >= p.len() {
                    assert(s_model.entries.len() > 0);
                    assert(fid == cache_rows(s_model)[j - p.len()].0);
                }
                assert(j < p.len());
            }
            self.block_cache.pop_front();
            if file_range_start.is_none() {
                file_range_start = Some(fid);
                proof {
                    lemma_cache_rows_first(m);
                }
            }
            file_range_end = Some(fid);
            proof {
                assert(rows.skip(j).drop_first() =~= rows.skip(j + 1));
                j = j + 1;
            }
        }
        proof {
            assert(j == p.len());
            assert(rows.skip(j) =~= cache_rows(s_model));
            if keep == m.entries.len() {
                assert(cache_rows(s_model) =~= cache_rows(trim_front(m, keep)));
            } else {
                assert(trim_front(m, keep) == s_model);
            }
        }

        // Remove the trimmed prefix from storage in one range operation.
        if let (Some(range_start), Some(range_end)) = (file_range_start, file_range_end) {
            proof {
                assert(j > 0 && keep > 0);
                assert(range_end == rows[p.len() - 1].0);
            }
            match self.storage.remove_entries(range_start, range_end) {
                Ok(_) => {},
                Err(e) => {
                    return Err(e);
                },
            }
            proof {
                assert(self@ == trim_front(m, keep));
            }
        } else {
            proof {
                assert(j == 0 && keep == 0);
                assert(trim_front(m, 0) =~= m);
            }
        }
        proof {
            assert(self@ == finalize_spec(m, to_block));
        }
        Ok(())
    }

    /// All live entries with their file ids, oldest first.
    #[verifier::loop_isolation(false)]
    pub fn entries(&self) -> (r: Vec<(u64, WalEntry)>)
        requires
            self.wf(),
        ensures
            r@.len() == self@.entries.len(),
            forall|k: int|
                0 <= k < r@.len() ==> (#[trigger] r@[k]).0 == self@.first + k && r@[k].1@
                    == self@.entries[k],
    {
        let mut out: Vec<(u64, WalEntry)> = Vec::new();
        let min = match self.storage.files_range() {
            None => {
                return out;
            },
            Some(r) => r.0,
        };
        let n = self.storage.len();
        let mut i: usize = 0;
        while i < n
            invariant
                i <= n,
                out@.len() == i,
                forall|k: int|
                    0 <= k < i ==> (#[trigger] out@[k]).0 == self@.first + k && out@[k].1@
                        == self@.entries[k],
            decreases n - i,
        {
            let id = min + (i as u64);
            let entry = match self.storage.read_entry(id) {
                Ok(e) => e,
                Err(_) => {
                    return out;
                },
            };
            out.push((id, entry.clone()));
            i = i + 1;
        }
        out
    }
}

} // verus!
