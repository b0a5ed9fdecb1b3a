use std::sync::atomic::{AtomicBool, Ordering};

use vstd::prelude::*;

verus! {

/// Reads the interrupt flag and clears it in one atomic step: true when an
/// interrupt arrived since the last poll. The flag is set from outside (a
/// signal handler), so nothing is known in advance of what it holds.
pub fn poll(flag: &AtomicBool) -> bool {
    flag.swap(false, Ordering::Relaxed)
}

} // verus!
