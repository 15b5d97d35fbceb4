//! Data carried by the write-ahead log: blocks, notifications, stored
//! entries, and the spec-level images the contracts speak about.

use vstd::prelude::*;

verus! {

/// Errors surfaced by the write-ahead log.
#[derive(Debug, Clone, Copy, PartialEq, Eq, Structural)]
pub enum WalError {
    /// A durable read, write or remove failed.
    IoError,
    /// Stored bytes did not parse as an entry.
    DecodeError,
    /// The requested file id is absent from storage.
    NotFound,
}

/// A block's number together with its hash.
#[derive(Debug, Clone, Copy, PartialEq, Eq, Hash, Structural)]
pub struct BlockNumHash {
    /// Height of the block.
    pub number: u64,
    /// Hash identifying the block.
    pub hash: u64,
}

/// The action a cached row records for its block.
#[derive(Debug, Clone, Copy, PartialEq, Eq, Structural)]
pub enum CachedBlockAction {
    /// The block was applied.
    Commit,
    /// The block was undone.
    Revert,
}

impl CachedBlockAction {
    /// Returns `true` if the action applies a block.
    pub fn is_commit(&self) -> (r: bool)
        ensures
            r == (self is Commit),
    {
        matches!(self, Self::Commit)
    }
}

/// One row of the block cache: a block and the action taken on it.
#[derive(Debug, Clone, Copy, PartialEq, Eq, Structural)]
pub struct CachedBlock {
    /// Whether the block was applied or undone.
    pub action: CachedBlockAction,
    /// The block the row is about.
    pub block: BlockNumHash,
}

/// The caller's intent recorded with a stored entry.
#[derive(Debug, Clone, Copy, PartialEq, Eq, Structural)]
pub enum NotificationCommitTarget {
    /// A normal chain-progress commit.
    Commit,
    /// A finalization-driven re-write.
    Canonicalize,
}

impl NotificationCommitTarget {
    /// Returns `true` for a normal chain-progress commit.
    pub fn is_commit(&self) -> (r: bool)
        ensures
            r == (self is Commit),
    {
        matches!(self, Self::Commit)
    }

    /// Returns `true` for a finalization-driven re-write.
    pub fn is_canonicalize(&self) -> (r: bool)
        ensures
            r == (self is Canonicalize),
    {
        matches!(self, Self::Canonicalize)
    }
}

/// An ordered, non-empty run of blocks described by a notification.
#[derive(Debug)]
pub struct Chain {
    blocks: Vec<BlockNumHash>,
}

impl View for Chain {
    type V = Seq<BlockNumHash>;

    closed spec fn view(&self) -> Seq<BlockNumHash> {
        self.blocks@
    }
}

impl Chain {
    /// A chain is well formed when it holds at least one block.
    pub open spec fn wf(self) -> bool {
        self@.len() > 0
    }

    /// Builds a chain from its blocks, oldest first.
    pub fn new(blocks: Vec<BlockNumHash>) -> (r: Self)
        requires
            blocks@.len() > 0,
        ensures
            r@ == blocks@,
            r.wf(),
    {
        Chain { blocks }
    }

    /// The blocks of the chain, oldest first.
    pub fn blocks(&self) -> (r: &Vec<BlockNumHash>)
        ensures
            r@ == self@,
    {
        &self.blocks
    }

    /// Number of blocks in the chain.
    pub fn len(&self) -> (r: usize)
        ensures
            r == self@.len(),
    {
        self.blocks.len()
    }

    /// The inclusive block-number range the chain covers.
    pub fn range(&self) -> (r: (u64, u64))
        requires
            self.wf(),
        ensures
            r.0 == self@.first().number,
            r.1 == self@.last().number,
    {
        (self.blocks[0].number, self.blocks[self.blocks.len() - 1].number)
    }
}

impl Clone for Chain {
    fn clone(&self) -> (r: Self)
        ensures
            r@ == self@,
    {
        let mut blocks: Vec<BlockNumHash> = Vec::new();
        let mut i: usize = 0;
        while i < self.blocks.len()
            invariant
                i <= self.blocks.len(),
                blocks@ == self.blocks@.take(i as int),
            decreases self.blocks.len() - i,
        {
            proof {
                assert(self.blocks@.take(i + 1) =~= self.blocks@.take(i as int).push(
                    self.blocks@[i as int],
                ));
            }
            blocks.push(self.blocks[i]);
            i = i + 1;
        }
        proof {
            assert(blocks@ =~= self.blocks@);
        }
        Chain { blocks }
    }
}

impl PartialEq for Chain {
    fn eq(&self, other: &Self) -> (r: bool) {
        if self.blocks.len() != other.blocks.len() {
            return false;
        }
        let mut i: usize = 0;
        while i < self.blocks.len()
            invariant
                i <= self.blocks.len(),
                self.blocks@.len() == other.blocks@.len(),
                forall|j: int| 0 <= j < i ==> self.blocks@[j] == other.blocks@[j],
            decreases self.blocks.len() - i,
        {
            if self.blocks[i] != other.blocks[i] {
                return false;
            }
            i = i + 1;
        }
        proof {
            assert(self.blocks@ =~= other.blocks@);
        }
        true
    }
}

impl vstd::std_specs::cmp::PartialEqSpecImpl for Chain {
    open spec fn obeys_eq_spec() -> bool {
        true
    }

    open spec fn eq_spec(&self, other: &Self) -> bool {
        self@ == other@
    }
}

/// A canonical-chain transition delivered to the log.
#[derive(Debug)]
pub enum Notification {
    /// New blocks were committed.
    Committed { new: Chain },
    /// Previously committed blocks were reverted.
    Reverted { old: Chain },
    /// A reorganization: `old` is undone, then `new` is applied.
    Reorged { old: Chain, new: Chain },
}

/// Spec-level image of a notification.
pub enum NotificationModel {
    /// New blocks were committed.
    Committed { new: Seq<BlockNumHash> },
    /// Previously committed blocks were reverted.
    Reverted { old: Seq<BlockNumHash> },
    /// A reorganization: `old` is undone, then `new` is applied.
    Reorged { old: Seq<BlockNumHash>, new: Seq<BlockNumHash> },
}

/// The blocks a notification commits, if any.
pub open spec fn committed_blocks_of(n: NotificationModel) -> Option<Seq<BlockNumHash>> {
    match n {
        NotificationModel::Committed { new } => Some(new),
        NotificationModel::Reverted { .. } => None,
        NotificationModel::Reorged { new, .. } => Some(new),
    }
}

/// The blocks a notification reverts, if any.
pub open spec fn reverted_blocks_of(n: NotificationModel) -> Option<Seq<BlockNumHash>> {
    match n {
        NotificationModel::Committed { .. } => None,
        NotificationModel::Reverted { old } => Some(old),
        NotificationModel::Reorged { old, .. } => Some(old),
    }
}

/// A notification is well formed when each chain it carries is non-empty.
pub open spec fn wf_notification(n: NotificationModel) -> bool {
    match n {
        NotificationModel::Committed { new } => new.len() > 0,
        NotificationModel::Reverted { old } => old.len() > 0,
        NotificationModel::Reorged { old, new } => old.len() > 0 && new.len() > 0,
    }
}

impl View for Notification {
    type V = NotificationModel;

    open spec fn view(&self) -> NotificationModel {
        match self {
            Notification::Committed { new } => NotificationModel::Committed { new: new@ },
            Notification::Reverted { old } => NotificationModel::Reverted { old: old@ },
            Notification::Reorged { old, new } => NotificationModel::Reorged {
                old: old@,
                new: new@,
            },
        }
    }
}

impl Notification {
    /// A notification is well formed when each chain it carries is non-empty.
    pub open spec fn wf(self) -> bool {
        wf_notification(self@)
    }

    /// The chain of newly committed blocks, if the transition commits any.
    pub fn committed_chain(&self) -> (r: Option<&Chain>)
        ensures
            (r is Some) == (committed_blocks_of(self@) is Some),
            r is Some ==> committed_blocks_of(self@) == Some(r.unwrap()@),
    {
        match self {
            Notification::Committed { new } => Some(new),
            Notification::Reverted { .. } => None,
            Notification::Reorged { new, .. } => Some(new),
        }
    }

    /// The chain of reverted blocks, if the transition reverts any.
    pub fn reverted_chain(&self) -> (r: Option<&Chain>)
        ensures
            (r is Some) == (reverted_blocks_of(self@) is Some),
            r is Some ==> reverted_blocks_of(self@) == Some(r.unwrap()@),
    {
        match self {
            Notification::Committed { .. } => None,
            Notification::Reverted { old } => Some(old),
            Notification::Reorged { old, .. } => Some(old),
        }
    }
}

impl Clone for Notification {
    fn clone(&self) -> (r: Self)
        ensures
            r@ == self@,
    {
        match self {
            Notification::Committed { new } => Notification::Committed { new: new.clone() },
            Notification::Reverted { old } => Notification::Reverted { old: old.clone() },
            Notification::Reorged { old, new } => Notification::Reorged {
                old: old.clone(),
                new: new.clone(),
            },
        }
    }
}

impl PartialEq for Notification {
    fn eq(&self, other: &Self) -> (r: bool) {
        match (self, other) {
            (Notification::Committed { new: a }, Notification::Committed { new: b }) => a == b,
            (Notification::Reverted { old: a }, Notification::Reverted { old: b }) => a == b,
            (
                Notification::Reorged { old: a, new: c },
                Notification::Reorged { old: b, new: d },
            ) => a == b && c == d,
            _ => false,
        }
    }
}

impl vstd::std_specs::cmp::PartialEqSpecImpl for Notification {
    open spec fn obeys_eq_spec() -> bool {
        true
    }

    open spec fn eq_spec(&self, other: &Self) -> bool {
        self@ == other@
    }
}

/// What the log stores under one file id: the caller's intent and the
/// notification itself.
#[derive(Debug)]
pub struct WalEntry {
    /// The caller's intent for this entry.
    pub target: NotificationCommitTarget,
    /// The recorded transition.
    pub notification: Notification,
}

/// Spec-level image of a stored entry.
pub struct EntryModel {
    /// The caller's intent for this entry.
    pub target: NotificationCommitTarget,
    /// The recorded transition.
    pub notification: NotificationModel,
}

impl View for WalEntry {
    type V = EntryModel;

    open spec fn view(&self) -> EntryModel {
        EntryModel { target: self.target, notification: self.notification@ }
    }
}

impl WalEntry {
    /// An entry is well formed when its notification is.
    pub open spec fn wf(self) -> bool {
        wf_notification(self@.notification)
    }

    /// Builds an entry from its parts.
    pub fn new(target: NotificationCommitTarget, notification: Notification) -> (r: Self)
        ensures
            r@ == (EntryModel { target, notification: notification@ }),
    {
        WalEntry { target, notification }
    }
}

impl Clone for WalEntry {
    fn clone(&self) -> (r: Self)
        ensures
            r@ == self@,
    {
        WalEntry { target: self.target, notification: self.notification.clone() }
    }
}

impl PartialEq for WalEntry {
    fn eq(&self, other: &Self) -> (r: bool) {
        self.target == other.target && self.notification == other.notification
    }
}

impl vstd::std_specs::cmp::PartialEqSpecImpl for WalEntry {
    open spec fn obeys_eq_spec() -> bool {
        true
    }

    open spec fn eq_spec(&self, other: &Self) -> bool {
        self@ == other@
    }
}

} // verus!
