//! Logging for development.

use vstd::prelude::*;

verus! {

/// Prepares logging for development. The library writes no log, so there is
/// nothing to prepare: the function returns at once.
pub fn init_dev_logger() {
}

} // verus!
