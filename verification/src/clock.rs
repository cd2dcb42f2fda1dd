//! The range of instants the store can represent, in milliseconds since the
//! Unix epoch (that of `chrono::DateTime<Utc>`).

use vstd::prelude::*;

verus! {

/// The earliest representable instant (January 1 of year -262143).
pub const MIN_EPOCH_MS: i64 = -8334601315200000;

/// The latest representable instant (December 31 of year 262142, 23:59:59.999).
pub const MAX_EPOCH_MS: i64 = 8210266876799999;

/// An instant the store can represent.
pub open spec fn representable(ms: int) -> bool {
    MIN_EPOCH_MS <= ms <= MAX_EPOCH_MS
}

} // verus!
