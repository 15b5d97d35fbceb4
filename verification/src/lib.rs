//! A durable write-ahead log for canonical-chain notifications.
//!
//! Downstream consumers must observe chain transitions (commits, reverts,
//! reorganizations) exactly once, in order, and recoverably after a crash.
//! The log persists every notification under a monotonically increasing
//! ordinal (its *file id*) and keeps an in-memory index — the block cache —
//! recording which blocks each stored entry touches, so trimming and
//! recovery decisions never require decoding the full log.

pub mod cache;
pub mod chain;
pub mod laws;
pub mod model;
pub mod models;
pub mod provider;
pub mod storage;
pub mod system_calls;
pub mod types;
pub mod wal;

pub use cache::BlockCache;
pub use storage::Storage;
pub use types::{
    BlockNumHash, CachedBlock, CachedBlockAction, Chain, Notification, NotificationCommitTarget,
    WalEntry, WalError,
};
pub use wal::Wal;
