//! General laws of the log, stated over the abstract model and proved once
//! and for all. The executable operations are proved to implement the
//! model's transition functions, so these laws carry over to any sequence
//! of calls on a well-formed log.

use vstd::prelude::*;

use crate::model::{
    cache_rows, commit_spec, committed_len, contains_id, empty_model, finalize_spec,
    is_commit_match, find_commit_row, lemma_cache_row_position, lemma_cache_rows_ids,
    lemma_cache_rows_single, lemma_cache_rows_split, lemma_find_commit_row,
    lemma_find_commit_row_unique, next_file_id, notification_rows, tag_rows, trim_front, wf_model,
    WalModel,
};
use crate::types::{BlockNumHash, CachedBlock, CachedBlockAction, EntryModel, NotificationModel};

verus! {

/// The log that a sequence of commits builds, starting from the empty log.
pub open spec fn commit_fold(entries: Seq<EntryModel>) -> WalModel
    decreases entries.len(),
{
    if entries.len() == 0 {
        empty_model()
    } else {
        commit_spec(commit_fold(entries.drop_last()), entries.last())
    }
}

/// Append monotonicity: a sequence of commits starting from the empty log
/// assigns the file ids `0, 1, 2, …` in order, with no gap and no reuse —
/// the `k`-th commit is assigned id `k`, and the live ids afterwards are
/// exactly `0 .. n`.
pub proof fn lemma_commit_ids_monotonic(entries: Seq<EntryModel>)
    requires
        entries.len() <= u64::MAX,
    ensures
        commit_fold(entries).first == 0,
        commit_fold(entries).entries == entries,
        forall|k: int|
            0 <= k < entries.len() ==> next_file_id(commit_fold(#[trigger] entries.take(k))) == k,
        forall|id: u64| contains_id(commit_fold(entries), id) <==> id < entries.len(),
    decreases entries.len(),
{
    if entries.len() > 0 {
        lemma_commit_ids_monotonic(entries.drop_last());
        assert(commit_fold(entries).entries =~= entries);
        assert forall|k: int| 0 <= k < entries.len() implies next_file_id(
            commit_fold(#[trigger] entries.take(k)),
        ) == k by {
            if k < entries.len() - 1 {
                assert(entries.drop_last().take(k) =~= entries.take(k));
            } else {
                assert(entries.take(k) =~= entries.drop_last());
            }
        }
    }
}

/// The file ids present in a row sequence.
pub open spec fn row_ids(rows: Seq<(u64, CachedBlock)>) -> Set<u64> {
    Set::new(
        |id: u64| exists|j: int| 0 <= j < rows.len() && (#[trigger] rows[j]).0 == id,
    )
}

/// Some cache row carries the id of every live entry.
proof fn lemma_cache_rows_has_id(m: WalModel, idx: int)
    requires
        wf_model(m),
        0 <= idx < m.entries.len(),
    ensures
        exists|j: int|
            0 <= j < cache_rows(m).len() && (#[trigger] cache_rows(m)[j]).0 == m.first + idx,
{
    lemma_cache_rows_split(m, idx);
    let a = cache_rows(WalModel { first: m.first, entries: m.entries.take(idx) });
    let rest_model = WalModel { first: (m.first + idx) as u64, entries: m.entries.skip(idx) };
    lemma_cache_rows_split(rest_model, 1);
    assert(rest_model.entries.take(1) =~= seq![m.entries[idx]]);
    lemma_cache_rows_single(rest_model.first, m.entries[idx]);
    let mid = tag_rows(rest_model.first, notification_rows(m.entries[idx].notification));
    assert(mid.len() > 0);
    assert(cache_rows(m)[a.len() as int] == mid[0]);
    assert(cache_rows(m)[a.len() as int].0 == m.first + idx);
}

/// Cache/storage consistency: the set of file ids present in the block
/// cache is exactly the set of file ids live in storage. (That the cache
/// rows themselves are the expansion of exactly the stored notifications is
/// the log's standing well-formedness invariant, which every operation
/// preserves.)
pub proof fn lemma_cache_storage_same_ids(m: WalModel)
    requires
        wf_model(m),
    ensures
        row_ids(cache_rows(m)) == Set::new(|id: u64| contains_id(m, id)),
{
    lemma_cache_rows_ids(m);
    assert forall|id: u64| #[trigger]
        contains_id(m, id) implies row_ids(cache_rows(m)).contains(id) by {
        lemma_cache_rows_has_id(m, id - m.first);
    }
    assert(row_ids(cache_rows(m)) =~= Set::new(|id: u64| contains_id(m, id)));
}

/// Atomic finalize: when the scan finds the commit row for `b` inside the
/// entry at index `idx`, finalizing removes whole entries only. If that
/// entry commits nothing but `b`, it goes together with everything before
/// it; if it commits `b` alongside other blocks, it survives fully intact
/// as the new oldest entry, and only entries strictly before it go. The
/// surviving entries are untouched.
pub proof fn lemma_finalize_atomic(m: WalModel, b: BlockNumHash, i: int)
    requires
        wf_model(m),
        find_commit_row(cache_rows(m), b) == Some(i),
    ensures
        ({
            let idx = cache_rows(m)[i].0 - m.first;
            let keep = if committed_len(m.entries[idx]) == 1 {
                idx + 1
            } else {
                idx
            };
            &&& 0 <= idx < m.entries.len()
            &&& finalize_spec(m, b) == trim_front(m, keep)
            &&& finalize_spec(m, b).entries.len() == m.entries.len() - keep
            &&& forall|k: int|
                0 <= k < m.entries.len() - keep ==> finalize_spec(m, b).entries[k]
                    == m.entries[keep + k]
            &&& committed_len(m.entries[idx]) != 1 ==> finalize_spec(m, b).entries[0]
                == m.entries[idx]
        }),
{
    lemma_find_commit_row(cache_rows(m), b);
    lemma_cache_rows_ids(m);
    let idx = cache_rows(m)[i].0 - m.first;
    let keep = if committed_len(m.entries[idx]) == 1 {
        idx + 1
    } else {
        idx
    };
    if keep >= m.entries.len() {
        assert(finalize_spec(m, b).entries.len() == m.entries.len() - keep);
    } else {
        assert(finalize_spec(m, b).entries =~= m.entries.skip(keep));
    }
}

/// Finalize no-op: finalizing to a block that appears nowhere in the cache
/// leaves the log unchanged.
pub proof fn lemma_finalize_absent_noop(m: WalModel, b: BlockNumHash)
    requires
        forall|j: int|
            0 <= j < cache_rows(m).len() ==> (#[trigger] cache_rows(m)[j]).1.block != b,
    ensures
        finalize_spec(m, b) == m,
{
    lemma_find_commit_row(cache_rows(m), b);
}

/// Idempotent re-finalize: finalizing a second time to the same block is a
/// no-op, provided at most one cache row applies that block. (With the
/// block re-committed by a later entry as well, a second finalize may trim
/// further — it then finds the later row.)
pub proof fn lemma_finalize_idempotent(m: WalModel, b: BlockNumHash)
    requires
        wf_model(m),
        forall|j1: int, j2: int|
            0 <= j1 < cache_rows(m).len() && 0 <= j2 < cache_rows(m).len() && is_commit_match(
                #[trigger] cache_rows(m)[j1],
                b,
            ) && is_commit_match(#[trigger] cache_rows(m)[j2], b) ==> j1 == j2,
    ensures
        finalize_spec(finalize_spec(m, b), b) == finalize_spec(m, b),
{
    let rows = cache_rows(m);
    lemma_find_commit_row(rows, b);
    match find_commit_row(rows, b) {
        None => {},
        Some(i) => {
            lemma_cache_rows_ids(m);
            lemma_cache_row_position(m, i);
            let f = rows[i].0;
            let idx = f - m.first;
            let keep = if committed_len(m.entries[idx]) == 1 {
                idx + 1
            } else {
                idx
            };
            let m2 = trim_front(m, keep);
            assert(finalize_spec(m, b) == m2);
            lemma_cache_rows_split(m, keep);
            let p = cache_rows(WalModel { first: m.first, entries: m.entries.take(keep) });
            let s_model = WalModel {
                first: (m.first + keep) as u64,
                entries: m.entries.skip(keep),
            };
            let s = cache_rows(s_model);
            let before = cache_rows(
                WalModel { first: m.first, entries: m.entries.take(idx) },
            ).len();
            if keep == m.entries.len() {
                assert(m2 == empty_model());
                assert(cache_rows(m2) =~= Seq::<(u64, CachedBlock)>::empty());
                lemma_find_commit_row(cache_rows(m2), b);
            } else {
                assert(m2 == s_model);
                assert(forall|j: int| 0 <= j < s.len() ==> #[trigger] s[j] == rows[p.len() + j]);
                if committed_len(m.entries[idx]) == 1 {
                    // The matching row went with its entry; by uniqueness no
                    // other row applies `b`.
                    assert(keep == idx + 1);
                    assert(m.entries.take(keep).len() == keep);
                    assert(i < p.len()) by {
                        assert(p == cache_rows(
                            WalModel { first: m.first, entries: m.entries.take(idx) },
                        ) + tag_rows(
                            (m.first + idx) as u64,
                            notification_rows(m.entries[idx].notification),
                        )) by {
                            lemma_cache_rows_split(
                                WalModel { first: m.first, entries: m.entries.take(keep) },
                                idx,
                            );
                            assert(m.entries.take(keep).take(idx) =~= m.entries.take(idx));
                            assert(m.entries.take(keep).skip(idx) =~= seq![m.entries[idx]]);
                            lemma_cache_rows_single((m.first + idx) as u64, m.entries[idx]);
                        }
                    }
                    assert forall|j: int|
                        0 <= j < s.len() implies !is_commit_match(#[trigger] s[j], b) by {
                        if is_commit_match(s[j], b) {
                            assert(is_commit_match(rows[p.len() + j], b));
                        }
                    }
                    lemma_find_commit_row(s, b);
                    match find_commit_row(s, b) {
                        None => {},
                        Some(j2) => {
                            assert(!is_commit_match(s[j2], b));
                        },
                    }
                    assert(finalize_spec(m2, b) == m2);
                } else {
                    // The entry stays as the new oldest entry; the scan finds
                    // the same row again, now with nothing in front of it.
                    assert(keep == idx);
                    assert(p.len() == before);
                    assert(i >= p.len());
                    assert(s[i - p.len()] == rows[i]);
                    assert forall|j: int| 0 <= j < i - p.len() implies !is_commit_match(
                        #[trigger] s[j],
                        b,
                    ) by {
                        assert(s[j] == rows[p.len() + j]);
                    }
                    lemma_find_commit_row_unique(s, b, i - p.len());
                    assert(m2.entries[0] == m.entries[idx]);
                    assert(committed_len(m2.entries[0]) != 1);
                    assert(trim_front(m2, 0).entries =~= m2.entries);
                    assert(trim_front(m2, 0) == m2);
                    assert(finalize_spec(m2, b) == m2);
                }
            }
        },
    }
}

/// Reorg expansion order: a reorganization's rows are every reverted block
/// in the old chain's order, each tagged as a revert, followed by every
/// committed block in the new chain's order, each tagged as a commit.
pub proof fn lemma_reorg_expansion(
    reverted: Seq<BlockNumHash>,
    committed: Seq<BlockNumHash>,
)
    ensures
        ({
            let rows = notification_rows(
                NotificationModel::Reorged { old: reverted, new: committed },
            );
            &&& rows.len() == reverted.len() + committed.len()
            &&& forall|i: int|
                0 <= i < reverted.len() ==> #[trigger] rows[i] == (CachedBlock {
                    action: CachedBlockAction::Revert,
                    block: reverted[i],
                })
            &&& forall|i: int|
                0 <= i < committed.len() ==> #[trigger] rows[reverted.len() + i] == (CachedBlock {
                    action: CachedBlockAction::Commit,
                    block: committed[i],
                })
        }),
{
}

} // verus!
