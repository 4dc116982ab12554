//! Memory ordering between descriptor writes and their hand-over.

use vstd::prelude::*;

use core::sync::atomic::{fence, Ordering};

verus! {

/// core's `fence(Ordering::Release)`: every earlier write is visible before
/// the descriptor is handed to the device. Nothing is stated of it.
#[verifier::external_body]
pub(crate) fn release_to_device() {
    fence(Ordering::Release)
}

} // verus!
