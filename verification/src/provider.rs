//! Interface of a read-only database provider, for collaborators that hand
//! the log a database transaction.

use vstd::prelude::*;

verus! {

/// A read-only database provider.
pub trait DBProviderRO<TX> {
    /// Provides a reference to the underlying transaction.
    fn tx_ref(&self) -> &TX;
}

} // verus!
