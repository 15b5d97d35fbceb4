//! The mathematical model of the log: its abstract state, the expansion of
//! notifications into cache rows, and the transition functions that the
//! executable operations are proved to implement.

use vstd::prelude::*;

use crate::types::{
    committed_blocks_of, reverted_blocks_of, wf_notification, BlockNumHash, CachedBlock,
    CachedBlockAction, EntryModel, NotificationModel,
};

verus! {

/// Abstract state of the log: the first live file id and the stored entries
/// in file-id order. Entry `i` lives at file id `first + i`.
#[verifier::ext_equal]
pub struct WalModel {
    /// File id of the oldest stored entry; `0` when the log is empty.
    pub first: u64,
    /// The stored entries, oldest first.
    pub entries: Seq<EntryModel>,
}

/// The empty log.
pub open spec fn empty_model() -> WalModel {
    WalModel { first: 0, entries: Seq::empty() }
}

/// A model is well formed when every file id fits in a `u64`, the empty log
/// starts over at id `0`, and every stored notification carries non-empty
/// chains.
pub open spec fn wf_model(m: WalModel) -> bool {
    &&& m.first + m.entries.len() <= u64::MAX + 1
    &&& m.entries.len() == 0 ==> m.first == 0
    &&& forall|i: int|
        0 <= i < m.entries.len() ==> wf_notification(#[trigger] m.entries[i].notification)
}

/// Whether `file_id` is live in the model.
pub open spec fn contains_id(m: WalModel, file_id: u64) -> bool {
    m.entries.len() > 0 && m.first <= file_id && file_id < m.first + m.entries.len()
}

/// The file id a commit on `m` would be assigned.
pub open spec fn next_file_id(m: WalModel) -> u64 {
    if m.entries.len() == 0 {
        0
    } else {
        (m.first + m.entries.len()) as u64
    }
}

/// Rows that apply each block of `blocks`, in order.
pub open spec fn commit_rows(blocks: Seq<BlockNumHash>) -> Seq<CachedBlock> {
    blocks.map_values(|b: BlockNumHash| CachedBlock { action: CachedBlockAction::Commit, block: b })
}

/// Rows that undo each block of `blocks`, in order.
pub open spec fn revert_rows(blocks: Seq<BlockNumHash>) -> Seq<CachedBlock> {
    blocks.map_values(|b: BlockNumHash| CachedBlock { action: CachedBlockAction::Revert, block: b })
}

/// The cache rows a notification expands to: one row per block it reverts,
/// in order, followed by one row per block it commits, in order.
pub open spec fn notification_rows(n: NotificationModel) -> Seq<CachedBlock> {
    (match reverted_blocks_of(n) {
        Some(old) => revert_rows(old),
        None => Seq::empty(),
    }) + (match committed_blocks_of(n) {
        Some(new) => commit_rows(new),
        None => Seq::empty(),
    })
}

/// Tags each row with the file id of the entry it came from.
pub open spec fn tag_rows(file_id: u64, rows: Seq<CachedBlock>) -> Seq<(u64, CachedBlock)> {
    rows.map_values(|c: CachedBlock| (file_id, c))
}

/// The full block cache a model determines: the rows of each stored entry,
/// tagged with its file id, in file-id order.
pub open spec fn cache_rows(m: WalModel) -> Seq<(u64, CachedBlock)>
    decreases m.entries.len(),
{
    if m.entries.len() == 0 {
        Seq::empty()
    } else {
        cache_rows(WalModel { first: m.first, entries: m.entries.drop_last() }) + tag_rows(
            (m.first + m.entries.len() - 1) as u64,
            notification_rows(m.entries.last().notification),
        )
    }
}

/// The state after committing `e`: the entry is appended at the next file
/// id; an empty log starts at id `0`.
pub open spec fn commit_spec(m: WalModel, e: EntryModel) -> WalModel {
    if m.entries.len() == 0 {
        WalModel { first: 0, entries: seq![e] }
    } else {
        WalModel { first: m.first, entries: m.entries.push(e) }
    }
}

/// The state with the `k` oldest entries discarded; discarding everything
/// resets the log to empty.
pub open spec fn trim_front(m: WalModel, k: int) -> WalModel {
    if k >= m.entries.len() {
        empty_model()
    } else {
        WalModel { first: (m.first + k) as u64, entries: m.entries.skip(k) }
    }
}

/// The state after removing the single entry at `file_id`, which must be
/// the oldest or the newest live entry.
pub open spec fn remove_spec(m: WalModel, file_id: u64) -> WalModel {
    if m.entries.len() <= 1 {
        empty_model()
    } else if file_id == m.first {
        WalModel { first: (m.first + 1) as u64, entries: m.entries.skip(1) }
    } else {
        WalModel { first: m.first, entries: m.entries.drop_last() }
    }
}

/// The rows of `s` that do not carry `file_id`, in order.
pub open spec fn rows_without(s: Seq<(u64, CachedBlock)>, file_id: u64) -> Seq<(u64, CachedBlock)>
    decreases s.len(),
{
    if s.len() == 0 {
        Seq::empty()
    } else if s.last().0 == file_id {
        rows_without(s.drop_last(), file_id)
    } else {
        rows_without(s.drop_last(), file_id).push(s.last())
    }
}

/// Whether a cached row applies exactly the block `b`.
pub open spec fn is_commit_match(row: (u64, CachedBlock), b: BlockNumHash) -> bool {
    row.1.action is Commit && row.1.block == b
}

/// Index of the first cache row that applies `b`, if any.
pub open spec fn find_commit_row(rows: Seq<(u64, CachedBlock)>, b: BlockNumHash) -> Option<int>
    decreases rows.len(),
{
    if rows.len() == 0 {
        None
    } else if is_commit_match(rows[0], b) {
        Some(0int)
    } else {
        match find_commit_row(rows.drop_first(), b) {
            None => None,
            Some(i) => Some(i + 1),
        }
    }
}

/// How many blocks the entry commits (zero for a pure revert).
pub open spec fn committed_len(e: EntryModel) -> int {
    match committed_blocks_of(e.notification) {
        Some(new) => new.len() as int,
        None => 0,
    }
}

/// The state after finalizing to `b`.
///
/// The scan looks for the first cache row that applies `b`. If none exists
/// the log is unchanged. Otherwise, with the matching row belonging to the
/// entry at index `idx`: when that entry commits only `b`, the entry is
/// finalized as a whole and everything through it is discarded; when the
/// entry commits `b` together with other blocks it must be kept intact, and
/// only the entries strictly before it are discarded.
pub open spec fn finalize_spec(m: WalModel, b: BlockNumHash) -> WalModel {
    match find_commit_row(cache_rows(m), b) {
        None => m,
        Some(i) => {
            let idx = cache_rows(m)[i].0 - m.first;
            let keep_from = if committed_len(m.entries[idx]) == 1 {
                idx + 1
            } else {
                idx
            };
            trim_front(m, keep_from)
        },
    }
}

// ---------------------------------------------------------------------------
// Lemmas about the cache a model determines.
// ---------------------------------------------------------------------------

/// Every cache row carries the file id of a live entry.
pub proof fn lemma_cache_rows_ids(m: WalModel)
    requires
        m.first + m.entries.len() <= u64::MAX + 1,
    ensures
        forall|j: int|
            0 <= j < cache_rows(m).len() ==> m.first <= (#[trigger] cache_rows(m)[j]).0
                < m.first + m.entries.len(),
    decreases m.entries.len(),
{
    if m.entries.len() > 0 {
        let prev = WalModel { first: m.first, entries: m.entries.drop_last() };
        lemma_cache_rows_ids(prev);
        let last_id = (m.first + m.entries.len() - 1) as u64;
        let tail = tag_rows(last_id, notification_rows(m.entries.last().notification));
        assert(forall|j: int| 0 <= j < tail.len() ==> (#[trigger] tail[j]).0 == last_id);
        assert(forall|j: int|
            0 <= j < cache_rows(prev).len() ==> cache_rows(m)[j] == #[trigger] cache_rows(
                prev,
            )[j]);
    }
}

/// Splitting the entries at `k` splits the cache rows accordingly.
pub proof fn lemma_cache_rows_split(m: WalModel, k: int)
    requires
        0 <= k <= m.entries.len(),
        m.first + m.entries.len() <= u64::MAX + 1,
    ensures
        cache_rows(m) == cache_rows(WalModel { first: m.first, entries: m.entries.take(k) })
            + cache_rows(WalModel { first: (m.first + k) as u64, entries: m.entries.skip(k) }),
    decreases m.entries.len(),
{
    let head = WalModel { first: m.first, entries: m.entries.take(k) };
    let tail = WalModel { first: (m.first + k) as u64, entries: m.entries.skip(k) };
    if k == m.entries.len() {
        assert(m.entries.take(k) =~= m.entries);
        assert(m.entries.skip(k) =~= Seq::<EntryModel>::empty());
        assert(cache_rows(m) =~= cache_rows(head) + cache_rows(tail));
    } else {
        let prev = WalModel { first: m.first, entries: m.entries.drop_last() };
        lemma_cache_rows_split(prev, k);
        let prev_tail = WalModel {
            first: (m.first + k) as u64,
            entries: m.entries.drop_last().skip(k),
        };
        assert(m.entries.drop_last().take(k) =~= m.entries.take(k));
        assert(m.entries.drop_last().skip(k) =~= m.entries.skip(k).drop_last());
        assert(m.entries.skip(k).len() == m.entries.len() - k);
        assert(m.entries.skip(k).last() == m.entries.last());
        assert(cache_rows(tail) == cache_rows(
            WalModel { first: tail.first, entries: tail.entries.drop_last() },
        ) + tag_rows(
            (tail.first + tail.entries.len() - 1) as u64,
            notification_rows(tail.entries.last().notification),
        ));
        assert(cache_rows(m) =~= cache_rows(head) + cache_rows(tail));
    }
}

/// Appending an entry appends its tagged rows to the cache.
pub proof fn lemma_cache_rows_commit(m: WalModel, e: EntryModel)
    requires
        m.entries.len() == 0 ==> m.first == 0,
    ensures
        cache_rows(commit_spec(m, e)) == cache_rows(m) + tag_rows(
            next_file_id(m),
            notification_rows(e.notification),
        ),
{
    let m2 = commit_spec(m, e);
    if m.entries.len() == 0 {
        assert(m2.entries.drop_last() =~= Seq::<EntryModel>::empty());
        assert(cache_rows(WalModel { first: m2.first, entries: m2.entries.drop_last() })
            =~= Seq::<(u64, CachedBlock)>::empty());
        assert(cache_rows(m2) =~= cache_rows(m) + tag_rows(
            next_file_id(m),
            notification_rows(e.notification),
        ));
    } else {
        assert(m2.entries.drop_last() =~= m.entries);
        assert(m2.entries.last() == e);
        assert(cache_rows(m2) =~= cache_rows(m) + tag_rows(
            next_file_id(m),
            notification_rows(e.notification),
        ));
    }
}

/// Appending one entry appends its tagged rows.
pub proof fn lemma_cache_rows_snoc(m: WalModel, e: EntryModel)
    ensures
        cache_rows(WalModel { first: m.first, entries: m.entries.push(e) }) == cache_rows(m)
            + tag_rows((m.first + m.entries.len()) as u64, notification_rows(e.notification)),
{
    let m2 = WalModel { first: m.first, entries: m.entries.push(e) };
    assert(m2.entries.drop_last() =~= m.entries);
    assert(m2.entries.last() == e);
}

/// A one-entry log caches exactly that entry's tagged rows.
pub proof fn lemma_cache_rows_single(first: u64, e: EntryModel)
    ensures
        cache_rows(WalModel { first, entries: seq![e] }) == tag_rows(
            first,
            notification_rows(e.notification),
        ),
{
    let m = WalModel { first, entries: seq![e] };
    assert(m.entries.drop_last() =~= Seq::<EntryModel>::empty());
    assert(cache_rows(WalModel { first, entries: m.entries.drop_last() }) =~= Seq::<
        (u64, CachedBlock),
    >::empty());
    assert((first + 1 - 1) as u64 == first);
    assert(cache_rows(m) =~= tag_rows(first, notification_rows(e.notification)));
}

/// In a non-empty, well-formed log the first cache row carries the first
/// file id.
pub proof fn lemma_cache_rows_first(m: WalModel)
    requires
        m.first + m.entries.len() <= u64::MAX + 1,
        m.entries.len() > 0,
        wf_notification(m.entries[0].notification),
    ensures
        cache_rows(m).len() > 0,
        cache_rows(m)[0].0 == m.first,
{
    lemma_cache_rows_split(m, 1);
    assert(m.entries.take(1) =~= seq![m.entries[0]]);
    lemma_cache_rows_single(m.first, m.entries[0]);
    let head = tag_rows(m.first, notification_rows(m.entries[0].notification));
    assert(head.len() > 0);
    assert(cache_rows(m)[0] == head[0]);
}

/// In a non-empty, well-formed log the last cache row carries the last
/// file id.
pub proof fn lemma_cache_rows_last(m: WalModel)
    requires
        m.first + m.entries.len() <= u64::MAX + 1,
        m.entries.len() > 0,
        wf_notification(m.entries.last().notification),
    ensures
        cache_rows(m).len() > 0,
        cache_rows(m).last().0 == m.first + m.entries.len() - 1,
{
    let tail = tag_rows(
        (m.first + m.entries.len() - 1) as u64,
        notification_rows(m.entries.last().notification),
    );
    assert(tail.len() > 0);
    assert(cache_rows(m).last() == tail.last());
}

/// Filtering distributes over concatenation.
pub proof fn lemma_rows_without_distribute(
    a: Seq<(u64, CachedBlock)>,
    b: Seq<(u64, CachedBlock)>,
    file_id: u64,
)
    ensures
        rows_without(a + b, file_id) == rows_without(a, file_id) + rows_without(b, file_id),
    decreases b.len(),
{
    if b.len() == 0 {
        assert(a + b =~= a);
        assert(rows_without(b, file_id) =~= Seq::<(u64, CachedBlock)>::empty());
        assert(rows_without(a, file_id) + rows_without(b, file_id) =~= rows_without(a, file_id));
    } else {
        lemma_rows_without_distribute(a, b.drop_last(), file_id);
        assert((a + b).drop_last() =~= a + b.drop_last());
        assert((a + b).last() == b.last());
    }
}

/// Filtering removes nothing when no row carries the id.
pub proof fn lemma_rows_without_none(s: Seq<(u64, CachedBlock)>, file_id: u64)
    requires
        forall|j: int| 0 <= j < s.len() ==> (#[trigger] s[j]).0 != file_id,
    ensures
        rows_without(s, file_id) == s,
    decreases s.len(),
{
    if s.len() > 0 {
        lemma_rows_without_none(s.drop_last(), file_id);
        assert(rows_without(s, file_id) =~= s);
    }
}

/// Filtering removes everything when every row carries the id.
pub proof fn lemma_rows_without_all(s: Seq<(u64, CachedBlock)>, file_id: u64)
    requires
        forall|j: int| 0 <= j < s.len() ==> (#[trigger] s[j]).0 == file_id,
    ensures
        rows_without(s, file_id) == Seq::<(u64, CachedBlock)>::empty(),
    decreases s.len(),
{
    if s.len() > 0 {
        lemma_rows_without_all(s.drop_last(), file_id);
    }
}

/// Removing the oldest entry drops exactly its rows from the cache.
pub proof fn lemma_cache_rows_remove_first(m: WalModel)
    requires
        wf_model(m),
        m.entries.len() > 0,
    ensures
        rows_without(cache_rows(m), m.first) == cache_rows(remove_spec(m, m.first)),
{
    lemma_cache_rows_split(m, 1);
    assert(m.entries.take(1) =~= seq![m.entries[0]]);
    lemma_cache_rows_single(m.first, m.entries[0]);
    let head = tag_rows(m.first, notification_rows(m.entries[0].notification));
    let rest_model = WalModel { first: (m.first + 1) as u64, entries: m.entries.skip(1) };
    let rest = cache_rows(rest_model);
    lemma_rows_without_distribute(head, rest, m.first);
    assert(forall|j: int| 0 <= j < head.len() ==> (#[trigger] head[j]).0 == m.first);
    lemma_rows_without_all(head, m.first);
    lemma_cache_rows_ids(rest_model);
    assert(forall|j: int| 0 <= j < rest.len() ==> (#[trigger] rest[j]).0 != m.first);
    lemma_rows_without_none(rest, m.first);
    assert(rows_without(cache_rows(m), m.first) =~= rest);
    if m.entries.len() == 1 {
        assert(rest_model.entries =~= Seq::<EntryModel>::empty());
        assert(rest =~= Seq::<(u64, CachedBlock)>::empty());
        assert(cache_rows(remove_spec(m, m.first)) =~= Seq::<(u64, CachedBlock)>::empty());
    } else {
        assert(remove_spec(m, m.first) == rest_model);
    }
}

/// Removing the newest entry drops exactly its rows from the cache.
pub proof fn lemma_cache_rows_remove_last(m: WalModel)
    requires
        wf_model(m),
        m.entries.len() > 0,
        m.entries.len() == 1 ==> m.first == 0,
    ensures
        rows_without(cache_rows(m), (m.first + m.entries.len() - 1) as u64) == cache_rows(
            remove_spec(m, (m.first + m.entries.len() - 1) as u64),
        ),
{
    let last_id = (m.first + m.entries.len() - 1) as u64;
    let prev_model = WalModel { first: m.first, entries: m.entries.drop_last() };
    let prev = cache_rows(prev_model);
    let tail = tag_rows(last_id, notification_rows(m.entries.last().notification));
    assert(cache_rows(m) == prev + tail);
    lemma_rows_without_distribute(prev, tail, last_id);
    assert(forall|j: int| 0 <= j < tail.len() ==> (#[trigger] tail[j]).0 == last_id);
    lemma_rows_without_all(tail, last_id);
    lemma_cache_rows_ids(prev_model);
    assert(forall|j: int| 0 <= j < prev.len() ==> (#[trigger] prev[j]).0 != last_id);
    lemma_rows_without_none(prev, last_id);
    assert(rows_without(cache_rows(m), last_id) =~= prev);
    if m.entries.len() == 1 {
        assert(prev_model.entries =~= Seq::<EntryModel>::empty());
        assert(prev =~= Seq::<(u64, CachedBlock)>::empty());
        assert(cache_rows(remove_spec(m, last_id)) =~= Seq::<(u64, CachedBlock)>::empty());
    } else {
        assert(remove_spec(m, last_id) == prev_model);
    }
}

/// Locates the entry a cache row belongs to: the row's id names a live
/// entry, and the row stands inside that entry's run of rows.
pub proof fn lemma_cache_row_position(m: WalModel, i: int)
    requires
        m.first + m.entries.len() <= u64::MAX + 1,
        0 <= i < cache_rows(m).len(),
    ensures
        ({
            let idx = cache_rows(m)[i].0 - m.first;
            let before = cache_rows(
                WalModel { first: m.first, entries: m.entries.take(idx) },
            ).len();
            &&& 0 <= idx < m.entries.len()
            &&& before <= i < before + notification_rows(m.entries[idx].notification).len()
            &&& cache_rows(m)[i].1 == notification_rows(m.entries[idx].notification)[i - before]
        }),
{
    lemma_cache_rows_ids(m);
    let f = cache_rows(m)[i].0;
    let idx = f - m.first;
    lemma_cache_rows_split(m, idx);
    let a_model = WalModel { first: m.first, entries: m.entries.take(idx) };
    let rest_model = WalModel { first: (m.first + idx) as u64, entries: m.entries.skip(idx) };
    lemma_cache_rows_split(rest_model, 1);
    assert(rest_model.entries.take(1) =~= seq![m.entries[idx]]);
    assert(rest_model.entries.skip(1) =~= m.entries.skip(idx + 1));
    lemma_cache_rows_single(rest_model.first, m.entries[idx]);
    let a = cache_rows(a_model);
    let mid = tag_rows((m.first + idx) as u64, notification_rows(m.entries[idx].notification));
    let c_model = WalModel {
        first: (rest_model.first + 1) as u64,
        entries: m.entries.skip(idx + 1),
    };
    let c = cache_rows(c_model);
    assert(cache_rows(m) =~= a + mid + c);
    lemma_cache_rows_ids(a_model);
    lemma_cache_rows_ids(c_model);
    if i < a.len() {
        assert(cache_rows(m)[i] == a[i]);
        assert(a[i].0 < m.first + idx);
    }
    assert(i >= a.len());
    if i >= a.len() + mid.len() {
        let k = i - a.len() - mid.len();
        assert(cache_rows(m)[i] == c[k]);
        assert(c_model.entries.len() > 0);
        assert(m.first + idx + 1 <= u64::MAX);
        assert(c[k].0 >= m.first + idx + 1);
    }
    assert(i < a.len() + mid.len());
    assert(cache_rows(m)[i] == mid[i - a.len()]);
}

/// A commit row can only come from a notification that commits blocks.
pub proof fn lemma_commit_row_from_committed(n: NotificationModel, k: int)
    requires
        0 <= k < notification_rows(n).len(),
        notification_rows(n)[k].action is Commit,
    ensures
        committed_blocks_of(n) is Some,
{
    match n {
        NotificationModel::Reverted { old } => {
            assert(notification_rows(n)[k] == revert_rows(old)[k]);
            assert(revert_rows(old)[k].action is Revert);
        },
        _ => {},
    }
}

/// Characterization of the scan: it yields the first matching row, and
/// yields nothing exactly when no row matches.
pub proof fn lemma_find_commit_row(rows: Seq<(u64, CachedBlock)>, b: BlockNumHash)
    ensures
        match find_commit_row(rows, b) {
            None => forall|j: int| 0 <= j < rows.len() ==> !is_commit_match(#[trigger] rows[j], b),
            Some(i) => 0 <= i < rows.len() && is_commit_match(rows[i], b) && forall|j: int|
                0 <= j < i ==> !is_commit_match(#[trigger] rows[j], b),
        },
    decreases rows.len(),
{
    if rows.len() > 0 && !is_commit_match(rows[0], b) {
        lemma_find_commit_row(rows.drop_first(), b);
        assert(forall|j: int|
            1 <= j < rows.len() ==> #[trigger] rows[j] == rows.drop_first()[j - 1]);
    }
}

/// The scan finds exactly the position known to hold the first match.
pub proof fn lemma_find_commit_row_unique(rows: Seq<(u64, CachedBlock)>, b: BlockNumHash, i: int)
    requires
        0 <= i < rows.len(),
        is_commit_match(rows[i], b),
        forall|j: int| 0 <= j < i ==> !is_commit_match(#[trigger] rows[j], b),
    ensures
        find_commit_row(rows, b) == Some(i),
{
    lemma_find_commit_row(rows, b);
    match find_commit_row(rows, b) {
        None => {
            assert(!is_commit_match(rows[i], b));
        },
        Some(k) => {
            if k < i {
                assert(!is_commit_match(rows[k], b));
            } else if k > i {
                assert(!is_commit_match(rows[i], b));
            }
        },
    }
}

} // verus!
