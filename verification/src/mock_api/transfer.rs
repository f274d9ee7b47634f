//! The sample transfer's cancellation.

use vstd::prelude::*;

verus! {

/// Accepts a cancellation; the sample transfer has nothing to stop.
pub fn cancel_transfer(transfer_id: &str) {
}

} // verus!
