//! Error taxonomy shared by the cache and the durable record stores.

use vstd::prelude::*;

verus! {

/// Errors a store operation can surface.
#[derive(Clone, Copy, Debug, PartialEq, Eq, Structural)]
pub enum StoreError {
    /// Connection or transport failure to the backend.
    BackendUnavailable,
    /// An identifier exceeds the signed 64-bit range the storage layer accepts.
    ValueOutOfRange,
    /// A stored value failed to parse back into its typed form.
    MalformedRecord,
}

} // verus!
