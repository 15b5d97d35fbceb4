//! Plain data describing the environment of one block transition, as
//! consumed by a transition-tool run.

use vstd::prelude::*;

verus! {

/// A validator withdrawal credited in the block.
#[derive(Debug, Clone, Copy, PartialEq, Eq, Structural)]
pub struct Withdrawal {
    /// Monotonic index of the withdrawal.
    pub index: u64,
    /// Index of the validator withdrawing.
    pub validator_index: u64,
    /// Target address, abridged to a machine word.
    pub address: u64,
    /// Amount withdrawn, in gwei.
    pub amount: u64,
}

/// The block environment a transition runs under.
#[derive(Debug, Clone, PartialEq)]
pub struct Env {
    // required
    /// Beneficiary of the block's fees, abridged to a machine word.
    pub current_coinbase: u64,
    /// Gas limit of the current block.
    pub current_gas_limit: u64,
    /// Number of the current block.
    pub current_number: u64,
    /// Timestamp of the current block.
    pub current_timestamp: u64,
    /// Withdrawals processed in the current block.
    pub withdrawals: Vec<Withdrawal>,
    // optional
    /// Difficulty of the current block.
    pub current_difficulty: u64,
    /// Randomness value of the current block.
    pub current_random: u64,
    /// Base fee of the current block.
    pub current_base_fee: u64,
    /// Gas used by the parent block.
    pub parent_gas_used: u64,
    /// Gas limit of the parent block.
    pub parent_gas_limit: u64,
    /// Timestamp of the parent block.
    pub parent_timestamp: u64,
    /// Hashes of recent ancestor blocks.
    pub block_hashes: Vec<u64>,
    /// Uncle hash of the parent block.
    pub parent_uncle_hash: u64,
    /// Ommers of the current block.
    pub ommers: Vec<Ommer>,
}

/// An ommer (uncle) reference.
#[derive(Debug, Clone, Copy, PartialEq, Eq, Structural)]
pub struct Ommer {
    /// Block-number distance to the ommer.
    pub delta: u64,
    /// Beneficiary address of the ommer, abridged to a machine word.
    pub address: u64,
}

} // verus!
