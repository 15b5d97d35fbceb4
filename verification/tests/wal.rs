use chain_wal::{
    BlockNumHash, CachedBlock, CachedBlockAction, Chain, Notification, NotificationCommitTarget,
    Storage, Wal, WalEntry, WalError,
};

fn block(number: u64, hash: u64) -> BlockNumHash {
    BlockNumHash { number, hash }
}

fn committed(blocks: Vec<BlockNumHash>) -> Notification {
    Notification::Committed { new: Chain::new(blocks) }
}

fn reverted(blocks: Vec<BlockNumHash>) -> Notification {
    Notification::Reverted { old: Chain::new(blocks) }
}

fn reorged(old: Vec<BlockNumHash>, new: Vec<BlockNumHash>) -> Notification {
    Notification::Reorged { old: Chain::new(old), new: Chain::new(new) }
}

fn commit_row(file_id: u64, b: BlockNumHash) -> (u64, CachedBlock) {
    (file_id, CachedBlock { action: CachedBlockAction::Commit, block: b })
}

fn revert_row(file_id: u64, b: BlockNumHash) -> (u64, CachedBlock) {
    (file_id, CachedBlock { action: CachedBlockAction::Revert, block: b })
}

fn read_notifications(wal: &Wal) -> Vec<Notification> {
    wal.entries().into_iter().map(|(_, entry)| entry.notification).collect()
}

#[test]
fn test_wal() {
    // Four canonical blocks, plus reorged replacements for blocks 1 and 2.
    let blocks =
        vec![block(0, 0x10), block(1, 0x11), block(2, 0x12), block(3, 0x13)];
    let block_1_reorged = block(1, 0x21);
    let block_2_reorged = block(2, 0x22);

    let mut wal = Wal::new(Storage::new()).unwrap();
    assert!(wal.block_cache().is_empty());

    // Notifications committed in order:
    // 1. Committed blocks 0 and 1
    // 2. Reverted block 1
    // 3. Committed blocks 1' and 2
    // 4. Reorged: block 2 reverted; blocks 2' and 3 committed
    let committed_notification_1 = committed(vec![blocks[0], blocks[1]]);
    let reverted_notification = reverted(vec![blocks[1]]);
    let committed_notification_2 = committed(vec![block_1_reorged, blocks[2]]);
    let reorged_notification = reorged(vec![blocks[2]], vec![block_2_reorged, blocks[3]]);

    // First notification (commit blocks 0, 1)
    let file_id = 0;
    let committed_notification_1_cache =
        vec![commit_row(file_id, blocks[0]), commit_row(file_id, blocks[1])];
    wal.commit(NotificationCommitTarget::Commit, committed_notification_1.clone()).unwrap();
    assert_eq!(wal.block_cache().iter(), committed_notification_1_cache);
    assert_eq!(read_notifications(&wal), vec![committed_notification_1.clone()]);

    // Second notification (revert block 1)
    wal.commit(NotificationCommitTarget::Commit, reverted_notification.clone()).unwrap();
    let file_id = 1;
    let reverted_notification_cache = vec![revert_row(file_id, blocks[1])];
    assert_eq!(
        wal.block_cache().iter(),
        [committed_notification_1_cache.clone(), reverted_notification_cache.clone()].concat()
    );
    assert_eq!(
        read_notifications(&wal),
        vec![committed_notification_1.clone(), reverted_notification.clone()]
    );

    // Third notification (commit blocks 1', 2)
    wal.commit(NotificationCommitTarget::Commit, committed_notification_2.clone()).unwrap();
    let file_id = 2;
    let committed_notification_2_cache =
        vec![commit_row(file_id, block_1_reorged), commit_row(file_id, blocks[2])];
    assert_eq!(
        wal.block_cache().iter(),
        [
            committed_notification_1_cache.clone(),
            reverted_notification_cache.clone(),
            committed_notification_2_cache.clone()
        ]
        .concat()
    );
    assert_eq!(
        read_notifications(&wal),
        vec![
            committed_notification_1.clone(),
            reverted_notification.clone(),
            committed_notification_2.clone()
        ]
    );

    // Fourth notification (revert block 2, commit blocks 2', 3)
    wal.commit(NotificationCommitTarget::Commit, reorged_notification.clone()).unwrap();
    let file_id = 3;
    let reorged_notification_cache = vec![
        revert_row(file_id, blocks[2]),
        commit_row(file_id, block_2_reorged),
        commit_row(file_id, blocks[3]),
    ];
    assert_eq!(
        wal.block_cache().iter(),
        [
            committed_notification_1_cache,
            reverted_notification_cache,
            committed_notification_2_cache.clone(),
            reorged_notification_cache.clone()
        ]
        .concat()
    );
    assert_eq!(
        read_notifications(&wal),
        vec![
            committed_notification_1,
            reverted_notification,
            committed_notification_2.clone(),
            reorged_notification.clone()
        ]
    );

    // Finalize up to block 1'. It shares file id 2 with block 2, so the
    // whole entry is preserved, and only the entries before it go.
    wal.finalize(block_1_reorged).unwrap();
    assert_eq!(
        wal.block_cache().iter(),
        [committed_notification_2_cache, reorged_notification_cache].concat()
    );
    assert_eq!(read_notifications(&wal), vec![committed_notification_2, reorged_notification]);
}

#[test]
fn commit_assigns_consecutive_file_ids() {
    let mut wal = Wal::new(Storage::new()).unwrap();
    wal.commit(NotificationCommitTarget::Commit, committed(vec![block(0, 1)])).unwrap();
    wal.commit(NotificationCommitTarget::Commit, committed(vec![block(1, 2)])).unwrap();
    wal.commit(NotificationCommitTarget::Canonicalize, committed(vec![block(2, 3)])).unwrap();
    let ids: Vec<u64> = wal.entries().into_iter().map(|(id, _)| id).collect();
    assert_eq!(ids, vec![0, 1, 2]);
}

#[test]
fn finalize_sole_block_removes_whole_entry() {
    let mut wal = Wal::new(Storage::new()).unwrap();
    wal.commit(NotificationCommitTarget::Commit, committed(vec![block(0, 1)])).unwrap();
    wal.commit(NotificationCommitTarget::Commit, committed(vec![block(1, 2)])).unwrap();
    wal.commit(NotificationCommitTarget::Commit, committed(vec![block(2, 3), block(3, 4)]))
        .unwrap();
    // Block 1 is the sole committed block of file id 1: ids 0 and 1 go.
    wal.finalize(block(1, 2)).unwrap();
    let ids: Vec<u64> = wal.entries().into_iter().map(|(id, _)| id).collect();
    assert_eq!(ids, vec![2]);
    assert_eq!(
        wal.block_cache().iter(),
        vec![commit_row(2, block(2, 3)), commit_row(2, block(3, 4))]
    );
}

#[test]
fn finalize_shared_entry_is_kept_intact() {
    let mut wal = Wal::new(Storage::new()).unwrap();
    wal.commit(NotificationCommitTarget::Commit, committed(vec![block(0, 1)])).unwrap();
    wal.commit(NotificationCommitTarget::Commit, committed(vec![block(1, 2), block(2, 3)]))
        .unwrap();
    // Block 1 shares file id 1 with block 2: only file id 0 goes.
    wal.finalize(block(1, 2)).unwrap();
    let ids: Vec<u64> = wal.entries().into_iter().map(|(id, _)| id).collect();
    assert_eq!(ids, vec![1]);
    assert_eq!(
        wal.block_cache().iter(),
        vec![commit_row(1, block(1, 2)), commit_row(1, block(2, 3))]
    );
}

#[test]
fn finalize_to_last_sole_block_empties_the_log() {
    let mut wal = Wal::new(Storage::new()).unwrap();
    wal.commit(NotificationCommitTarget::Commit, committed(vec![block(0, 1)])).unwrap();
    wal.commit(NotificationCommitTarget::Commit, committed(vec![block(1, 2)])).unwrap();
    wal.finalize(block(1, 2)).unwrap();
    assert!(wal.block_cache().is_empty());
    assert!(wal.entries().is_empty());
}

#[test]
fn finalize_absent_block_is_a_noop() {
    let mut wal = Wal::new(Storage::new()).unwrap();
    wal.commit(NotificationCommitTarget::Commit, committed(vec![block(0, 1)])).unwrap();
    wal.commit(NotificationCommitTarget::Commit, reverted(vec![block(0, 1)])).unwrap();
    let cache_before = wal.block_cache().iter();
    let entries_before = read_notifications(&wal);
    // Absent block: nothing happens.
    wal.finalize(block(7, 7)).unwrap();
    assert_eq!(wal.block_cache().iter(), cache_before);
    assert_eq!(read_notifications(&wal), entries_before);
    // A block present only as a revert row is not a finalization target
    // either.
    wal.finalize(block(0, 999)).unwrap();
    assert_eq!(wal.block_cache().iter(), cache_before);
    assert_eq!(read_notifications(&wal), entries_before);
}

#[test]
fn refinalizing_the_same_block_is_a_noop() {
    // Shared entry: the entry stays; a second finalize finds it again at
    // the front and removes nothing.
    let mut wal = Wal::new(Storage::new()).unwrap();
    wal.commit(NotificationCommitTarget::Commit, committed(vec![block(0, 1)])).unwrap();
    wal.commit(NotificationCommitTarget::Commit, committed(vec![block(1, 2), block(2, 3)]))
        .unwrap();
    wal.finalize(block(1, 2)).unwrap();
    let cache_after_first = wal.block_cache().iter();
    wal.finalize(block(1, 2)).unwrap();
    assert_eq!(wal.block_cache().iter(), cache_after_first);

    // Sole entry: the block is gone after the first call, so the second is
    // the absent-block no-op.
    let mut wal = Wal::new(Storage::new()).unwrap();
    wal.commit(NotificationCommitTarget::Commit, committed(vec![block(0, 1)])).unwrap();
    wal.commit(NotificationCommitTarget::Commit, committed(vec![block(1, 2), block(2, 3)]))
        .unwrap();
    wal.finalize(block(0, 1)).unwrap();
    let cache_after_first = wal.block_cache().iter();
    wal.finalize(block(0, 1)).unwrap();
    assert_eq!(wal.block_cache().iter(), cache_after_first);
}

#[test]
fn reorg_rows_revert_before_commit() {
    let mut wal = Wal::new(Storage::new()).unwrap();
    wal.commit(
        NotificationCommitTarget::Commit,
        reorged(vec![block(5, 1), block(6, 2)], vec![block(5, 3), block(6, 4), block(7, 5)]),
    )
    .unwrap();
    assert_eq!(
        wal.block_cache().iter(),
        vec![
            revert_row(0, block(5, 1)),
            revert_row(0, block(6, 2)),
            commit_row(0, block(5, 3)),
            commit_row(0, block(6, 4)),
            commit_row(0, block(7, 5)),
        ]
    );
}

#[test]
fn remove_trims_either_boundary() {
    let mut wal = Wal::new(Storage::new()).unwrap();
    wal.commit(NotificationCommitTarget::Commit, committed(vec![block(0, 1)])).unwrap();
    wal.commit(NotificationCommitTarget::Commit, committed(vec![block(1, 2)])).unwrap();
    wal.commit(NotificationCommitTarget::Commit, committed(vec![block(2, 3)])).unwrap();
    // Tail entry.
    wal.remove(2).unwrap();
    let ids: Vec<u64> = wal.entries().into_iter().map(|(id, _)| id).collect();
    assert_eq!(ids, vec![0, 1]);
    // Head entry.
    wal.remove(0).unwrap();
    let ids: Vec<u64> = wal.entries().into_iter().map(|(id, _)| id).collect();
    assert_eq!(ids, vec![1]);
    assert_eq!(wal.block_cache().iter(), vec![commit_row(1, block(1, 2))]);
}

#[test]
fn remove_of_absent_id_reports_not_found() {
    let mut wal = Wal::new(Storage::new()).unwrap();
    wal.commit(NotificationCommitTarget::Commit, committed(vec![block(0, 1)])).unwrap();
    assert_eq!(wal.remove(9), Err(WalError::NotFound));
    let ids: Vec<u64> = wal.entries().into_iter().map(|(id, _)| id).collect();
    assert_eq!(ids, vec![0]);
}

#[test]
fn recovery_rebuilds_the_cache_from_storage() {
    // A trimmed log: three entries starting at file id 5.
    let mut storage = Storage::new();
    storage
        .write_entry(5, WalEntry::new(NotificationCommitTarget::Commit, committed(vec![block(0, 1)])))
        .unwrap();
    storage
        .write_entry(6, WalEntry::new(NotificationCommitTarget::Commit, reverted(vec![block(0, 1)])))
        .unwrap();
    storage
        .write_entry(
            7,
            WalEntry::new(
                NotificationCommitTarget::Canonicalize,
                reorged(vec![block(1, 2)], vec![block(1, 3)]),
            ),
        )
        .unwrap();
    assert_eq!(storage.files_range(), Some((5, 7)));

    let wal = Wal::new(storage).unwrap();
    assert_eq!(
        wal.block_cache().iter(),
        vec![
            commit_row(5, block(0, 1)),
            revert_row(6, block(0, 1)),
            revert_row(7, block(1, 2)),
            commit_row(7, block(1, 3)),
        ]
    );
    let ids: Vec<u64> = wal.entries().into_iter().map(|(id, _)| id).collect();
    assert_eq!(ids, vec![5, 6, 7]);
}

#[test]
fn storage_reports_missing_entries() {
    let mut storage = Storage::new();
    assert_eq!(storage.files_range(), None);
    assert!(storage.read_entry(0).is_err());
    storage
        .write_entry(0, WalEntry::new(NotificationCommitTarget::Commit, committed(vec![block(0, 1)])))
        .unwrap();
    assert!(storage.read_entry(0).is_ok());
    assert_eq!(storage.read_entry(1).err(), Some(WalError::NotFound));
    assert_eq!(storage.remove_entry(1), Err(WalError::NotFound));
}

#[test]
fn storage_overwrites_a_live_id() {
    let mut storage = Storage::new();
    storage
        .write_entry(3, WalEntry::new(NotificationCommitTarget::Commit, committed(vec![block(0, 1)])))
        .unwrap();
    storage
        .write_entry(4, WalEntry::new(NotificationCommitTarget::Commit, committed(vec![block(1, 2)])))
        .unwrap();
    let replacement =
        WalEntry::new(NotificationCommitTarget::Canonicalize, reverted(vec![block(0, 1)]));
    storage.write_entry(3, replacement.clone()).unwrap();
    assert_eq!(storage.files_range(), Some((3, 4)));
    assert_eq!(storage.read_entry(3).unwrap(), &replacement);
}

#[test]
fn chain_reports_blocks_and_range() {
    let chain = Chain::new(vec![block(10, 1), block(11, 2), block(12, 3)]);
    assert_eq!(chain.len(), 3);
    assert_eq!(chain.range(), (10, 12));
    assert_eq!(chain.blocks().len(), 3);

    let n = committed(vec![block(10, 1)]);
    assert!(n.committed_chain().is_some());
    assert!(n.reverted_chain().is_none());
    let r = reorged(vec![block(10, 1)], vec![block(10, 2)]);
    assert_eq!(r.committed_chain().unwrap().range(), (10, 10));
    assert_eq!(r.reverted_chain().unwrap().range(), (10, 10));
}

#[test]
fn commit_target_queries() {
    assert!(NotificationCommitTarget::Commit.is_commit());
    assert!(!NotificationCommitTarget::Commit.is_canonicalize());
    assert!(NotificationCommitTarget::Canonicalize.is_canonicalize());
    assert!(!NotificationCommitTarget::Canonicalize.is_commit());
}
