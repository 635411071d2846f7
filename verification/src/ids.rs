//! Range checks for platform identifiers.
//!
//! Platform identifiers are unsigned 64-bit, but the durable storage layer
//! only accepts signed 64-bit values, so every identifier is checked before a
//! read or write touches a record.

use vstd::prelude::*;

verus! {

/// Largest identifier the storage layer accepts (`i64::MAX` as unsigned).
pub const MAX_STORED_ID: u64 = 0x7fff_ffff_ffff_ffff;

/// Whether an identifier fits the signed 64-bit range of the storage layer.
pub open spec fn id_in_range(id: u64) -> bool {
    id <= MAX_STORED_ID
}

/// Executable check that `id` fits the storage layer's signed 64-bit range.
pub fn check_id_in_range(id: u64) -> (r: bool)
    ensures
        r == id_in_range(id),
{
    id <= MAX_STORED_ID
}

} // verus!
