//! Type aliases that are used around the crate.

use vstd::prelude::*;

verus! {

/// Unix-epoch second count, or a difference of two such counts.
pub type Timestamp = i64;

} // verus!
