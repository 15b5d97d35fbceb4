//! The decision rule of the pre-block beacon-root system call. Whether the
//! call runs, is skipped, or is rejected depends only on plain values; the
//! EVM execution itself belongs to the embedding application.

use vstd::prelude::*;

verus! {

/// What the pre-block beacon-root contract call should do.
#[derive(Debug, Clone, Copy, PartialEq, Eq, Structural)]
pub enum BeaconRootCallPlan {
    /// Nothing to execute: the fork is not active, or this is the genesis
    /// block.
    Skip,
    /// Execute the system call with this parent beacon block root.
    Transact {
        /// Root to hand to the contract, abridged to a machine word.
        parent_beacon_block_root: u64,
    },
}

/// Why the pre-block beacon-root contract call is rejected.
#[derive(Debug, Clone, Copy, PartialEq, Eq, Structural)]
pub enum BeaconRootCallError {
    /// The fork is active but no parent beacon block root was supplied.
    MissingParentBeaconBlockRoot,
    /// On the genesis block the parent beacon block root must be zero.
    GenesisParentBeaconBlockRootNotZero {
        /// The non-zero root that was supplied.
        parent_beacon_block_root: u64,
    },
}

/// Decides the pre-block beacon-root contract call.
///
/// With the fork inactive nothing runs. Otherwise a parent beacon block
/// root is required; on the genesis block it must be zero and no call runs,
/// and on every later block the call runs with the supplied root.
pub fn plan_beacon_root_contract_call(
    fork_active: bool,
    block_number: u64,
    parent_beacon_block_root: Option<u64>,
) -> (r: Result<BeaconRootCallPlan, BeaconRootCallError>)
    ensures
        !fork_active ==> r == Ok::<_, BeaconRootCallError>(BeaconRootCallPlan::Skip),
        fork_active && parent_beacon_block_root is None ==> r == Err::<BeaconRootCallPlan, _>(
            BeaconRootCallError::MissingParentBeaconBlockRoot,
        ),
        (fork_active && parent_beacon_block_root is Some && block_number == 0
            && parent_beacon_block_root.unwrap() != 0) ==> r == Err::<BeaconRootCallPlan, _>(
            (BeaconRootCallError::GenesisParentBeaconBlockRootNotZero {
                parent_beacon_block_root: parent_beacon_block_root.unwrap(),
            }),
        ),
        (fork_active && parent_beacon_block_root is Some && block_number == 0
            && parent_beacon_block_root.unwrap() == 0) ==> r == Ok::<_, BeaconRootCallError>(
            BeaconRootCallPlan::Skip,
        ),
        (fork_active && parent_beacon_block_root is Some && block_number != 0) ==> r == Ok::<
            _,
            BeaconRootCallError,
        >(
            (BeaconRootCallPlan::Transact {
                parent_beacon_block_root: parent_beacon_block_root.unwrap(),
            }),
        ),
{
    if !fork_active {
        return Ok(BeaconRootCallPlan::Skip);
    }
    let root = match parent_beacon_block_root {
        Some(root) => root,
        None => {
            return Err(BeaconRootCallError::MissingParentBeaconBlockRoot);
        },
    };
    if block_number == 0 {
        if root != 0 {
            return Err(
                BeaconRootCallError::GenesisParentBeaconBlockRootNotZero {
                    parent_beacon_block_root: root,
                },
            );
        }
        return Ok(BeaconRootCallPlan::Skip);
    }
    Ok(BeaconRootCallPlan::Transact { parent_beacon_block_root: root })
}

} // verus!
